use vstd::prelude::*;

use crate::error::{ParserError, RuntimeError};
use crate::grammar::declaration::Declaration;
use crate::interpreter::{run_declaration, Bindings, Failure, Interpreter};
use crate::parser::{agrees_outcome, declarations, well_terminated, Parser};
use crate::scanner::{extended_graphemes, scan_from, texts, views, Scanner, TokenView};
use crate::token::{Token, TokenType};
use crate::value::{Value, ValueView};

verus! {

/// Something a run reports, in the order it happens.
#[derive(Debug)]
pub enum Event {
    /// A diagnostic line for text that could not be scanned.
    Lexical(String),
    Syntax(ParserError),
    Printed(Value),
    Runtime(RuntimeError),
}

pub enum EventView {
    Lexical(Seq<char>),
    Syntax(Seq<char>, Token),
    Printed(ValueView),
    Runtime(Failure),
}

impl View for Event {
    type V = EventView;

    open spec fn view(&self) -> EventView {
        match self {
            Event::Lexical(m) => EventView::Lexical(m@),
            Event::Syntax(e) => EventView::Syntax(e.message@, e.token),
            Event::Printed(v) => EventView::Printed(v@),
            Event::Runtime(e) => EventView::Runtime((e.message@, e.expr)),
        }
    }
}

pub open spec fn event_views(s: Seq<Event>) -> Seq<EventView> {
    s.map_values(|e: Event| e@)
}

pub open spec fn printed_events(s: Seq<Value>) -> Seq<EventView> {
    s.map_values(|v: Value| EventView::Printed(v@))
}

/// The events of one parse outcome run in `env`.
pub open spec fn unit_events(env: Bindings, o: Result<Declaration, ParserError>) -> Seq<
    EventView,
> {
    match o {
        Err(e) => seq![EventView::Syntax(e.message@, e.token)],
        Ok(d) => {
            let eff = run_declaration(env, d);
            let printed = eff.printed.map_values(|v: ValueView| EventView::Printed(v));
            match eff.result {
                Ok(_) => printed,
                Err(f) => printed.push(EventView::Runtime(f)),
            }
        },
    }
}

/// The bindings after one parse outcome.
pub open spec fn unit_env(env: Bindings, o: Result<Declaration, ParserError>) -> Bindings {
    match o {
        Err(_) => env,
        Ok(d) => run_declaration(env, d).env,
    }
}

/// The bindings after a sequence of outcomes, each run to completion in turn.
pub open spec fn session_env(env: Bindings, os: Seq<Result<Declaration, ParserError>>) -> Bindings
    decreases os.len(),
{
    if os.len() == 0 {
        env
    } else {
        unit_env(session_env(env, os.drop_last()), os.last())
    }
}

/// Every event of a sequence of outcomes: a syntax error is reported and the
/// run goes on; a runtime error ends only its own declaration.
pub open spec fn session_events(env: Bindings, os: Seq<Result<Declaration, ParserError>>) -> Seq<
    EventView,
>
    decreases os.len(),
{
    if os.len() == 0 {
        seq![]
    } else {
        let before = os.drop_last();
        session_events(env, before) + unit_events(session_env(env, before), os.last())
    }
}

/// One run of the language over a token sequence.
pub struct Lox {
    pub had_error: bool,
}

impl Lox {
    pub fn new() -> (r: Self)
        ensures
            !r.had_error,
    {
        Lox { had_error: false }
    }

    /// Runs parse outcomes in order in `interpreter`, and gives what each reported.
    pub fn interpret_all(
        &self,
        interpreter: &mut Interpreter,
        outcomes: &Vec<Result<Declaration, ParserError>>,
    ) -> (r: Vec<Event>)
        requires
            old(interpreter).output@.len() == 0,
            old(interpreter).environment.wf(),
        ensures
            event_views(r@) == session_events(old(interpreter).environment@, outcomes@),
            final(interpreter).environment@ == session_env(old(interpreter).environment@, outcomes@),
            final(interpreter).output@.len() == 0,
    {
        let ghost env0 = interpreter.environment@;
        let ghost all = outcomes@;
        let mut events: Vec<Event> = Vec::new();
        let mut i: usize = 0;
        while i < outcomes.len()
            invariant
                i <= all.len(),
                all == outcomes@,
                interpreter.output@.len() == 0,
                interpreter.environment.wf(),
                interpreter.environment@ == session_env(env0, all.take(i as int)),
                event_views(events@) == session_events(env0, all.take(i as int)),
            decreases all.len() - i,
        {
            let ghost before = events@;
            let ghost env = interpreter.environment@;
            assert(all.take(i + 1).drop_last() =~= all.take(i as int));
            match &outcomes[i] {
                Err(e) => {
                    events.push(Event::Syntax(ParserError::new(e.message.clone(), e.token.copy())));
                    assert(event_views(events@) =~= event_views(before)
                        + unit_events(env, all[i as int]));
                },
                Ok(d) => {
                    let res = interpreter.evaluate(d);
                    let printed = interpreter.take_output();
                    let mut j: usize = 0;
                    while j < printed.len()
                        invariant
                            j <= printed@.len(),
                            event_views(events@) == event_views(before)
                                + printed_events(printed@.take(j as int)),
                        decreases printed@.len() - j,
                    {
                        let ghost pushed_onto = events@;
                        events.push(Event::Printed(printed[j].copy()));
                        assert(event_views(events@) =~= event_views(pushed_onto)
                            .push(EventView::Printed(printed@[j as int]@)));
                        assert(printed_events(printed@.take(j + 1))
                            =~= printed_events(printed@.take(j as int))
                            .push(EventView::Printed(printed@[j as int]@)));
                        assert(event_views(events@) =~= event_views(before)
                            + printed_events(printed@.take(j + 1)));
                        j = j + 1;
                    }
                    let ghost eff = run_declaration(env, *d);
                    assert(printed@.take(j as int) =~= printed@);
                    assert(printed_events(printed@)
                        =~= eff.printed.map_values(|v: ValueView| EventView::Printed(v)));
                    if let Err(e) = res {
                        events.push(Event::Runtime(e));
                            assert(event_views(events@) =~= event_views(before)
                            + unit_events(env, all[i as int]));
                    } else {
                        assert(event_views(events@) =~= event_views(before)
                            + unit_events(env, all[i as int]));
                    }
                },
            }
            i = i + 1;
        }
        assert(all.take(i as int) =~= all);
        events
    }

    /// Parses the tokens and runs every outcome, in order, in a fresh interpreter.
    pub fn run_tokens(&self, tokens: Vec<Token>) -> (r: Vec<Event>)
        requires
            well_terminated(tokens@),
        ensures
            exists|os: Seq<Result<Declaration, ParserError>>|
                {
                    &&& os.len() == declarations(tokens@, 0).len()
                    &&& forall|j: int|
                        0 <= j < os.len() ==> agrees_outcome(
                            #[trigger] os[j],
                            declarations(tokens@, 0)[j],
                            tokens@,
                        )
                    &&& event_views(r@) == session_events(
                        Bindings::empty(),
                        os,
                    )
                },
    {
        let ghost t = tokens@;
        let mut parser = Parser::new(tokens);
        let parsed = parser.parse();
        let mut interpreter = Interpreter::new();
        let r = self.interpret_all(&mut interpreter, &parsed);
        assert(parsed@.len() == declarations(t, 0).len());
        r
    }

    /// Scans, parses and runs a source text: first a diagnostic for each
    /// grapheme run that could not be scanned, then the events of the
    /// declarations, in order.
    pub fn run(&self, s: String) -> (r: Vec<Event>)
        ensures
            ({
                let sc = scan_from(extended_graphemes(s@), 0, 0);
                let n = sc.errors.len() as int;
                exists|t: Seq<Token>, os: Seq<Result<Declaration, ParserError>>|
                    {
                        &&& views(t) == sc.tokens + seq![(TokenView::Plain(TokenType::EOF), sc.line)]
                        &&& well_terminated(t)
                        &&& n <= r@.len()
                        &&& event_views(r@.take(n)) == sc.errors.map_values(
                            |m: Seq<char>| EventView::Lexical(m),
                        )
                        &&& os.len() == declarations(t, 0).len()
                        &&& forall|j: int|
                            0 <= j < os.len() ==> agrees_outcome(
                                #[trigger] os[j],
                                declarations(t, 0)[j],
                                t,
                            )
                        &&& event_views(r@.skip(n)) == session_events(Bindings::empty(), os)
                    }
            }),
    {
        let mut scanner = Scanner::new(s.as_str());
        let tokens = scanner.tokenize();
        let ghost t = tokens@;
        let ghost lexical = texts(scanner.errors@);
        assert(views(seq![]) =~= seq![]);
        assert(texts(seq![]) =~= seq![]);
        let mut out: Vec<Event> = Vec::new();
        let mut i: usize = 0;
        while i < scanner.errors.len()
            invariant
                i <= scanner.errors@.len(),
                lexical == texts(scanner.errors@),
                event_views(out@) == lexical.take(i as int).map_values(
                    |m: Seq<char>| EventView::Lexical(m),
                ),
            decreases scanner.errors@.len() - i,
        {
            let ghost before = out@;
            out.push(Event::Lexical(scanner.errors[i].clone()));
            assert(event_views(out@) =~= event_views(before).push(
                EventView::Lexical(scanner.errors@[i as int]@),
            ));
            assert(lexical.take(i + 1).map_values(|m: Seq<char>| EventView::Lexical(m))
                =~= lexical.take(i as int).map_values(|m: Seq<char>| EventView::Lexical(m)).push(
                EventView::Lexical(lexical[i as int]),
            ));
            i = i + 1;
        }
        assert(lexical.take(i as int) =~= lexical);
        let ghost n = out@.len() as int;
        let ghost prefix = out@;
        let mut events = self.run_tokens(tokens);
        let ghost ev = events@;
        out.append(&mut events);
        assert(out@.skip(n) =~= ev);
        assert(out@.take(n) =~= prefix);
        out
    }
}

} // verus!
