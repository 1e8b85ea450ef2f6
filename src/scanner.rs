use vstd::prelude::*;
use vstd::string::StrSliceExecFns;

use unicode_segmentation::UnicodeSegmentation;

use crate::number::{reduced, Number};
use crate::error::{error, report_text};
use crate::token::{Token, TokenType};

verus! {

/// The extended grapheme clusters of a text, in order.
pub uninterp spec fn extended_graphemes(s: Seq<char>) -> Seq<Seq<char>>;

/// Relies on `UnicodeSegmentation::graphemes(s, true)` of unicode-segmentation:
/// the extended grapheme clusters of `s`, each copied into a `String`.
#[verifier::external_body]
fn graphemes(s: &str) -> (r: Vec<String>)
    ensures
        r@.map_values(|g: String| g@) == extended_graphemes(s@),
{
    UnicodeSegmentation::graphemes(s, true).map(|g| g.to_string()).collect()
}

/// The keyword that `s` spells, if any.
pub open spec fn keyword(s: Seq<char>) -> Option<TokenType> {
    if s == "and"@ {
        Some(TokenType::And)
    } else if s == "class"@ {
        Some(TokenType::Class)
    } else if s == "else"@ {
        Some(TokenType::Else)
    } else if s == "false"@ {
        Some(TokenType::False)
    } else if s == "fun"@ {
        Some(TokenType::Fun)
    } else if s == "for"@ {
        Some(TokenType::For)
    } else if s == "if"@ {
        Some(TokenType::If)
    } else if s == "nil"@ {
        Some(TokenType::Nil)
    } else if s == "or"@ {
        Some(TokenType::Or)
    } else if s == "print"@ {
        Some(TokenType::Print)
    } else if s == "return"@ {
        Some(TokenType::Return)
    } else if s == "super"@ {
        Some(TokenType::Super)
    } else if s == "this"@ {
        Some(TokenType::This)
    } else if s == "true"@ {
        Some(TokenType::True)
    } else if s == "var"@ {
        Some(TokenType::Var)
    } else if s == "while"@ {
        Some(TokenType::While)
    } else {
        None
    }
}

fn keyword_of(s: &String) -> (r: Option<TokenType>)
    ensures
        r == keyword(s@),
{
    if *s == String::from_str("and") {
        Some(TokenType::And)
    } else if *s == String::from_str("class") {
        Some(TokenType::Class)
    } else if *s == String::from_str("else") {
        Some(TokenType::Else)
    } else if *s == String::from_str("false") {
        Some(TokenType::False)
    } else if *s == String::from_str("fun") {
        Some(TokenType::Fun)
    } else if *s == String::from_str("for") {
        Some(TokenType::For)
    } else if *s == String::from_str("if") {
        Some(TokenType::If)
    } else if *s == String::from_str("nil") {
        Some(TokenType::Nil)
    } else if *s == String::from_str("or") {
        Some(TokenType::Or)
    } else if *s == String::from_str("print") {
        Some(TokenType::Print)
    } else if *s == String::from_str("return") {
        Some(TokenType::Return)
    } else if *s == String::from_str("super") {
        Some(TokenType::Super)
    } else if *s == String::from_str("this") {
        Some(TokenType::This)
    } else if *s == String::from_str("true") {
        Some(TokenType::True)
    } else if *s == String::from_str("var") {
        Some(TokenType::Var)
    } else if *s == String::from_str("while") {
        Some(TokenType::While)
    } else {
        None
    }
}

/// The character of a one-character grapheme.
pub open spec fn single(g: Seq<char>) -> Option<char> {
    if g.len() == 1 {
        Some(g[0])
    } else {
        None
    }
}

fn single_of(g: &String) -> (r: Option<char>)
    ensures
        r == single(g@),
{
    if g.as_str().unicode_len() == 1 {
        Some(g.as_str().get_char(0))
    } else {
        None
    }
}

pub open spec fn digit_of(c: char) -> Option<int> {
    if c == '0' {
        Some(0)
    } else if c == '1' {
        Some(1)
    } else if c == '2' {
        Some(2)
    } else if c == '3' {
        Some(3)
    } else if c == '4' {
        Some(4)
    } else if c == '5' {
        Some(5)
    } else if c == '6' {
        Some(6)
    } else if c == '7' {
        Some(7)
    } else if c == '8' {
        Some(8)
    } else if c == '9' {
        Some(9)
    } else {
        None
    }
}

fn digit_value(c: char) -> (r: Option<i64>)
    ensures
        r matches Some(d) ==> digit_of(c) == Some(d as int) && 0 <= d <= 9,
        r is None ==> digit_of(c) is None,
{
    match c {
        '0' => Some(0),
        '1' => Some(1),
        '2' => Some(2),
        '3' => Some(3),
        '4' => Some(4),
        '5' => Some(5),
        '6' => Some(6),
        '7' => Some(7),
        '8' => Some(8),
        '9' => Some(9),
        _ => None,
    }
}

/// Letters and `_` begin a word; digits may follow.
pub open spec fn word_start(c: char) -> bool {
    ('a' <= c && c <= 'z') || ('A' <= c && c <= 'Z') || c == '_'
}

pub open spec fn word_char(c: char) -> bool {
    word_start(c) || digit_of(c) is Some
}

fn is_word_start(c: char) -> (r: bool)
    ensures
        r == word_start(c),
{
    ('a' <= c && c <= 'z') || ('A' <= c && c <= 'Z') || c == '_'
}

fn is_word_char(c: char) -> (r: bool)
    ensures
        r == word_char(c),
{
    is_word_start(c) || matches!(digit_value(c), Some(_))
}

pub open spec fn char_at(gs: Seq<Seq<char>>, i: int, c: char) -> bool {
    0 <= i < gs.len() && single(gs[i]) == Some(c)
}

pub open spec fn digit_at(gs: Seq<Seq<char>>, i: int) -> Option<int> {
    if 0 <= i < gs.len() && single(gs[i]) is Some {
        digit_of(single(gs[i])->Some_0)
    } else {
        None
    }
}

pub open spec fn word_at(gs: Seq<Seq<char>>, i: int) -> bool {
    0 <= i < gs.len() && single(gs[i]) is Some && word_char(single(gs[i])->Some_0)
}

/// The end of the run of digits from `i`.
pub open spec fn digits_end(gs: Seq<Seq<char>>, i: int) -> int
    decreases gs.len() - i,
{
    if digit_at(gs, i) is Some {
        digits_end(gs, i + 1)
    } else {
        i
    }
}

/// `base` followed by the digits in `[a, j)`, as a whole number.
pub open spec fn fold_digits(gs: Seq<Seq<char>>, a: int, j: int, base: int) -> int
    decreases j - a,
{
    if j <= a {
        base
    } else {
        fold_digits(gs, a, j - 1, base) * 10 + digit_at(gs, j - 1)->Some_0
    }
}

pub open spec fn pow10(k: int) -> int
    decreases k,
{
    if k <= 0 {
        1
    } else {
        10 * pow10(k - 1)
    }
}

pub open spec fn word_end(gs: Seq<Seq<char>>, i: int) -> int
    decreases gs.len() - i,
{
    if word_at(gs, i) {
        word_end(gs, i + 1)
    } else {
        i
    }
}

/// The first `"` at or after `i`, or the end.
pub open spec fn quote_end(gs: Seq<Seq<char>>, i: int) -> int
    decreases gs.len() - i,
{
    if 0 <= i < gs.len() && !char_at(gs, i, '"') {
        quote_end(gs, i + 1)
    } else {
        i
    }
}

/// The first line break at or after `i`, or the end.
pub open spec fn line_end(gs: Seq<Seq<char>>, i: int) -> int
    decreases gs.len() - i,
{
    if 0 <= i < gs.len() && !char_at(gs, i, '\n') {
        line_end(gs, i + 1)
    } else {
        i
    }
}

/// The graphemes in `[a, j)`, joined.
pub open spec fn joined(gs: Seq<Seq<char>>, a: int, j: int) -> Seq<char>
    decreases j - a,
{
    if j <= a {
        seq![]
    } else {
        joined(gs, a, j - 1) + gs[j - 1]
    }
}

/// How many line breaks `[a, j)` holds.
pub open spec fn newlines(gs: Seq<Seq<char>>, a: int, j: int) -> int
    decreases j - a,
{
    if j <= a {
        0
    } else {
        newlines(gs, a, j - 1) + if char_at(gs, j - 1, '\n') {
            1int
        } else {
            0int
        }
    }
}

/// A token with its text as sequences of characters.
pub enum TokenView {
    Plain(TokenType),
    Identifier(Seq<char>),
    String(Seq<char>),
    Number(Number),
}

pub open spec fn kind_view(k: TokenType) -> TokenView {
    match k {
        TokenType::Identifier(s) => TokenView::Identifier(s@),
        TokenType::String(s) => TokenView::String(s@),
        TokenType::Number(n) => TokenView::Number(n),
        other => TokenView::Plain(other),
    }
}

pub open spec fn token_view(t: Token) -> (TokenView, int) {
    (kind_view(t.token_type), t.line as int)
}

pub open spec fn views(t: Seq<Token>) -> Seq<(TokenView, int)> {
    t.map_values(|x: Token| token_view(x))
}

pub open spec fn texts(e: Seq<String>) -> Seq<Seq<char>> {
    e.map_values(|s: String| s@)
}

/// What one scanning step gives: tokens with their lines, diagnostics, and
/// where the next step begins, on which line.
pub struct Step {
    pub tokens: Seq<(TokenView, int)>,
    pub errors: Seq<Seq<char>>,
    pub next: int,
    pub line: int,
}

pub open spec fn lexical_error(line: int, message: Seq<char>) -> Seq<char> {
    report_text(line as nat, seq![], message)
}

pub open spec fn plain(k: TokenType, next: int, line: int) -> Step {
    Step { tokens: seq![(TokenView::Plain(k), line)], errors: seq![], next, line }
}

pub open spec fn blank(next: int, line: int) -> Step {
    Step { tokens: seq![], errors: seq![], next, line }
}

pub open spec fn failed(message: Seq<char>, next: int, line: int) -> Step {
    Step { tokens: seq![], errors: seq![lexical_error(line, message)], next, line }
}

/// Digits, then optionally `.` and digits, from the digit at `i`.
pub open spec fn number_step(gs: Seq<Seq<char>>, i: int, line: int) -> Step {
    let e1 = digits_end(gs, i + 1);
    let whole = fold_digits(gs, i, e1, 0);
    let fraction = char_at(gs, e1, '.') && digit_at(gs, e1 + 1) is Some;
    let e2 = digits_end(gs, e1 + 1);
    let end = if fraction {
        e2
    } else {
        e1
    };
    let num = if fraction {
        fold_digits(gs, e1 + 1, e2, whole)
    } else {
        whole
    };
    let den = if fraction {
        pow10(e2 - e1 - 1)
    } else {
        1
    };
    if num <= i64::MAX && den <= i64::MAX && reduced(num, den) is Some {
        Step {
            tokens: seq![(TokenView::Number(reduced(num, den)->Some_0), line)],
            errors: seq![],
            next: end,
            line,
        }
    } else {
        failed("number literal out of range"@, end, line)
    }
}

/// A word from `i`: a keyword or an identifier.
pub open spec fn word_step(gs: Seq<Seq<char>>, i: int, line: int) -> Step {
    let w = word_end(gs, i + 1);
    let text = joined(gs, i, w);
    let k = match keyword(text) {
        Some(k) => TokenView::Plain(k),
        None => TokenView::Identifier(text),
    };
    Step { tokens: seq![(k, line)], errors: seq![], next: w, line }
}

/// A string literal whose opening quote is at `i`.
pub open spec fn string_step(gs: Seq<Seq<char>>, i: int, line: int) -> Step {
    let q = quote_end(gs, i + 1);
    let l = line + newlines(gs, i + 1, q);
    if q >= gs.len() {
        failed("unterminated string literal"@, q, l)
    } else {
        Step {
            tokens: seq![(TokenView::String(joined(gs, i + 1, q)), l)],
            errors: seq![],
            next: q + 1,
            line: l,
        }
    }
}

/// One step of scanning at `i` (within the text) on line `line`.
pub open spec fn step(gs: Seq<Seq<char>>, i: int, line: int) -> Step {
    if single(gs[i]) is None {
        failed("unknown character"@, i + 1, line)
    } else {
        let c = single(gs[i])->Some_0;
        if digit_of(c) is Some {
            number_step(gs, i, line)
        } else if word_start(c) {
            word_step(gs, i, line)
        } else {
            char_step(gs, i, line, c)
        }
    }
}

pub open spec fn char_step(gs: Seq<Seq<char>>, i: int, line: int, c: char) -> Step {
    if c == '(' {
        plain(TokenType::LeftParen, i + 1, line)
    } else if c == ')' {
        plain(TokenType::RightParen, i + 1, line)
    } else if c == '{' {
        plain(TokenType::LeftBrace, i + 1, line)
    } else if c == '}' {
        plain(TokenType::RightBrace, i + 1, line)
    } else if c == ',' {
        plain(TokenType::Comma, i + 1, line)
    } else if c == '.' {
        plain(TokenType::Dot, i + 1, line)
    } else if c == '-' {
        plain(TokenType::Minus, i + 1, line)
    } else if c == '+' {
        plain(TokenType::Plus, i + 1, line)
    } else if c == ';' {
        plain(TokenType::Semicolon, i + 1, line)
    } else if c == '*' {
        plain(TokenType::Star, i + 1, line)
    } else if c == '?' {
        plain(TokenType::QuestionMark, i + 1, line)
    } else if c == ':' {
        plain(TokenType::Colon, i + 1, line)
    } else if c == '!' {
        if char_at(gs, i + 1, '=') {
            plain(TokenType::BangEqual, i + 2, line)
        } else {
            plain(TokenType::Bang, i + 1, line)
        }
    } else if c == '=' {
        if char_at(gs, i + 1, '=') {
            plain(TokenType::EqualEqual, i + 2, line)
        } else {
            plain(TokenType::Equal, i + 1, line)
        }
    } else if c == '<' {
        if char_at(gs, i + 1, '=') {
            plain(TokenType::LessEqual, i + 2, line)
        } else {
            plain(TokenType::Less, i + 1, line)
        }
    } else if c == '>' {
        if char_at(gs, i + 1, '=') {
            plain(TokenType::GreaterEqual, i + 2, line)
        } else {
            plain(TokenType::Greater, i + 1, line)
        }
    } else if c == '/' {
        if char_at(gs, i + 1, '/') {
            blank(line_end(gs, i + 2), line)
        } else {
            plain(TokenType::Slash, i + 1, line)
        }
    } else if c == ' ' || c == '\r' || c == '\t' {
        blank(i + 1, line)
    } else if c == '\n' {
        blank(i + 1, line + 1)
    } else if c == '"' {
        string_step(gs, i, line)
    } else {
        failed("unknown character"@, i + 1, line)
    }
}

/// The tokens and diagnostics of scanning from `i` on line `line` to the end,
/// and the line reached.
pub struct Scan {
    pub tokens: Seq<(TokenView, int)>,
    pub errors: Seq<Seq<char>>,
    pub line: int,
}

pub open spec fn scan_from(gs: Seq<Seq<char>>, i: int, line: int) -> Scan
    decreases gs.len() - i,
{
    if !(0 <= i < gs.len()) {
        Scan { tokens: seq![], errors: seq![], line }
    } else {
        let s = step(gs, i, line);
        if s.next <= i || s.next > gs.len() {
            Scan { tokens: seq![], errors: seq![], line }
        } else {
            let rest = scan_from(gs, s.next, s.line);
            Scan { tokens: s.tokens + rest.tokens, errors: s.errors + rest.errors, line: rest.line }
        }
    }
}

/// Lines never decrease along `t`, and none is past `line`.
pub open spec fn lines_ordered(t: Seq<Token>, line: int) -> bool {
    &&& forall|i: int, j: int| 0 <= i <= j < t.len() ==> t[i].line <= t[j].line
    &&& forall|i: int| 0 <= i < t.len() ==> t[i].line <= line
}

/// Splits source text into tokens, one grapheme cluster at a time.
pub struct Scanner {
    pub source: Vec<String>,
    pub position: usize,
    pub tokens: Vec<Token>,
    pub line: usize,
    /// Diagnostics for what could not be scanned, in order.
    pub errors: Vec<String>,
}

/// `new` is `old` after the step `s`.
pub open spec fn stepped(old: Scanner, new: Scanner, s: Step) -> bool {
    &&& new.source == old.source
    &&& new.position == s.next
    &&& new.line == s.line
    &&& views(new.tokens@) == views(old.tokens@) + s.tokens
    &&& texts(new.errors@) == texts(old.errors@) + s.errors
}

/// `new` is `old` moved to `position` on the same line, with nothing added.
pub open spec fn moved(old: Scanner, new: Scanner, position: int) -> bool {
    stepped(old, new, blank(position, old.line as int))
}

impl Scanner {
    pub open spec fn wf(&self) -> bool {
        &&& self.position <= self.source@.len() <= usize::MAX
        &&& self.line <= self.position
        &&& forall|i: int|
            0 <= i < self.tokens@.len() ==> self.tokens@[i].token_type != TokenType::EOF
        &&& lines_ordered(self.tokens@, self.line as int)
    }

    pub open spec fn graphemes(&self) -> Seq<Seq<char>> {
        self.source@.map_values(|g: String| g@)
    }

    /// A scanner at the start of `s`.
    pub fn new(s: &str) -> (r: Self)
        ensures
            r.wf(),
            r.graphemes() == extended_graphemes(s@),
            r.position == 0,
            r.line == 0,
            r.tokens@.len() == 0,
            r.errors@.len() == 0,
    {
        Scanner::from_graphemes(graphemes(s))
    }

    /// A scanner at the start of a text already split into grapheme clusters.
    pub fn from_graphemes(source: Vec<String>) -> (r: Self)
        ensures
            r.wf(),
            r.graphemes() == source@.map_values(|g: String| g@),
            r.position == 0,
            r.line == 0,
            r.tokens@.len() == 0,
            r.errors@.len() == 0,
    {
        let n: usize = source.len();
        assert(source@.len() == n);
        Scanner { source, position: 0, tokens: Vec::new(), line: 0, errors: Vec::new() }
    }

    fn peek(&self) -> (r: Option<char>)
        requires
            self.wf(),
        ensures
            r == if self.position < self.source@.len() {
                single(self.graphemes()[self.position as int])
            } else {
                None
            },
    {
        if self.position < self.source.len() {
            single_of(&self.source[self.position])
        } else {
            None
        }
    }

    /// Whether the next grapheme is the character `c`.
    fn peek_is(&self, c: char) -> (r: bool)
        requires
            self.wf(),
        ensures
            r == char_at(self.graphemes(), self.position as int, c),
    {
        match self.peek() {
            Some(d) => d == c,
            None => false,
        }
    }

    /// Whether the grapheme after the next one is a digit.
    fn digit_follows(&self) -> (r: bool)
        requires
            self.wf(),
        ensures
            r == (digit_at(self.graphemes(), self.position + 1) is Some),
    {
        if self.position < self.source.len() && self.position + 1 < self.source.len() {
            match single_of(&self.source[self.position + 1]) {
                Some(c) => matches!(digit_value(c), Some(_)),
                None => false,
            }
        } else {
            false
        }
    }

    fn add_token(&mut self, token_type: TokenType)
        requires
            old(self).wf(),
            token_type != TokenType::EOF,
        ensures
            final(self).wf(),
            final(self).source == old(self).source,
            final(self).position == old(self).position,
            final(self).line == old(self).line,
            views(final(self).tokens@) == views(old(self).tokens@) + seq![
                (kind_view(token_type), old(self).line as int),
            ],
            final(self).errors == old(self).errors,
    {
        let t = Token { token_type, line: self.line };
        self.tokens.push(t);
        assert(views(self.tokens@) =~= views(old(self).tokens@) + seq![token_view(t)]);
    }

    fn report(&mut self, message: &str)
        requires
            old(self).wf(),
        ensures
            final(self).wf(),
            final(self).source == old(self).source,
            final(self).position == old(self).position,
            final(self).line == old(self).line,
            final(self).tokens == old(self).tokens,
            texts(final(self).errors@) == texts(old(self).errors@) + seq![
                lexical_error(old(self).line as int, message@),
            ],
    {
        let e = error(self.line, message);
        self.errors.push(e);
        assert(texts(self.errors@) =~= texts(old(self).errors@) + seq![e@]);
    }

    /// Consumes one grapheme, counting line breaks.
    fn advance(&mut self)
        requires
            old(self).wf(),
            old(self).position < old(self).source@.len(),
        ensures
            final(self).wf(),
            final(self).source == old(self).source,
            final(self).position == old(self).position + 1,
            final(self).line == old(self).line + if char_at(
                old(self).graphemes(),
                old(self).position as int,
                '\n',
            ) {
                1int
            } else {
                0int
            },
            final(self).tokens == old(self).tokens,
            final(self).errors == old(self).errors,
    {
        let newline = match single_of(&self.source[self.position]) {
            Some(c) => c == '\n',
            None => false,
        };
        self.position = self.position + 1;
        if newline {
            self.line = self.line + 1;
        }
    }

    /// Consumes the next grapheme when it is the character `c`.
    fn consume_if(&mut self, c: char) -> (r: bool)
        requires
            old(self).wf(),
            c != '\n',
        ensures
            final(self).wf(),
            r == char_at(old(self).graphemes(), old(self).position as int, c),
            moved(*old(self), *final(self), old(self).position + if r {
                1int
            } else {
                0int
            }),
    {
        if self.peek_is(c) {
            self.advance();
            true
        } else {
            false
        }
    }

    /// The rest of a string literal whose opening quote was just consumed.
    fn scan_string(&mut self)
        requires
            old(self).wf(),
            old(self).position >= 1,
            char_at(old(self).graphemes(), old(self).position - 1, '"'),
        ensures
            final(self).wf(),
            final(self).position >= old(self).position,
            stepped(*old(self), *final(self), string_step(
                old(self).graphemes(),
                old(self).position - 1,
                old(self).line as int,
            )),
    {
        let ghost gs = self.graphemes();
        let ghost i: int = self.position as int - 1;
        let mut out = String::new();
        loop
            invariant
                self.wf(),
                gs == self.graphemes(),
                self.source == old(self).source,
                i + 1 <= self.position,
                i == old(self).position - 1,
                quote_end(gs, self.position as int) == quote_end(gs, i + 1),
                out@ == joined(gs, i + 1, self.position as int),
                self.line == old(self).line + newlines(gs, i + 1, self.position as int),
                old(self).line + newlines(gs, i + 1, self.position as int) <= usize::MAX,
                self.tokens == old(self).tokens,
                self.errors == old(self).errors,
            decreases self.source@.len() - self.position,
        {
            if self.position >= self.source.len() {
                self.report("unterminated string literal");
                return;
            }
            let closing = self.peek_is('"');
            let g = self.source[self.position].clone();
            self.advance();
            if closing {
                assert(quote_end(gs, self.position - 1) == self.position - 1);
                self.add_token(TokenType::String(out));
                return;
            }
            out.append(g.as_str());
        }
    }

    /// Digits, then optionally `.` and more digits, as an exact number;
    /// `first`, the leading digit, was just consumed.
    fn scan_number(&mut self, first: i64)
        requires
            old(self).wf(),
            old(self).position >= 1,
            digit_at(old(self).graphemes(), old(self).position - 1) == Some(first as int),
        ensures
            final(self).wf(),
            final(self).position >= old(self).position,
            stepped(*old(self), *final(self), number_step(
                old(self).graphemes(),
                old(self).position - 1,
                old(self).line as int,
            )),
    {
        let ghost gs = self.graphemes();
        let ghost i: int = self.position as int - 1;
        let mut num: i64 = first;
        let mut den: i64 = 1;
        let mut fits = true;
        assert(fold_digits(gs, i, i, 0) == 0);
        assert(fold_digits(gs, i, i + 1, 0) == first);
        loop
            invariant
                self.wf(),
                gs == self.graphemes(),
                i + 1 <= self.position,
                digits_end(gs, self.position as int) == digits_end(gs, i + 1),
                fits ==> num == fold_digits(gs, i, self.position as int, 0),
                !fits ==> fold_digits(gs, i, self.position as int, 0) > i64::MAX,
                fold_digits(gs, i, self.position as int, 0) >= 0,
                num >= 0,
                den == 1,
                moved(*old(self), *self, self.position as int),
            ensures
                digit_at(gs, self.position as int) is None,
                fits ==> num == fold_digits(gs, i, self.position as int, 0),
                !fits ==> fold_digits(gs, i, self.position as int, 0) > i64::MAX,
            decreases self.source@.len() - self.position,
        {
            let d = match self.peek() {
                Some(c) => digit_value(c),
                None => None,
            };
            match d {
                Some(d) => {
                    if fits && num > (i64::MAX - d) / 10 {
                        fits = false;
                    } else if fits {
                        num = num * 10 + d;
                    }
                    self.advance();
                },
                None => break,
            }
        }
        let ghost e1 = self.position as int;
        let ghost whole = fold_digits(gs, i, e1, 0);
        if self.peek_is('.') && self.digit_follows() {
            self.advance();
            proof {
                lemma_pow10_positive(0);
            }
            loop
                invariant
                    self.wf(),
                    gs == self.graphemes(),
                    e1 + 1 <= self.position,
                    char_at(gs, e1, '.'),
                    digits_end(gs, self.position as int) == digits_end(gs, e1 + 1),
                    fits ==> num == fold_digits(gs, e1 + 1, self.position as int, whole)
                        && den == pow10(self.position - e1 - 1),
                    !fits ==> fold_digits(gs, e1 + 1, self.position as int, whole) > i64::MAX
                        || pow10(self.position - e1 - 1) > i64::MAX,
                    fold_digits(gs, e1 + 1, self.position as int, whole) >= 0,
                    pow10(self.position - e1 - 1) >= 1,
                    num >= 0,
                    den >= 1,
                    moved(*old(self), *self, self.position as int),
                ensures
                    digit_at(gs, self.position as int) is None,
                    fits ==> num == fold_digits(gs, e1 + 1, self.position as int, whole)
                        && den == pow10(self.position - e1 - 1),
                    !fits ==> fold_digits(gs, e1 + 1, self.position as int, whole) > i64::MAX
                        || pow10(self.position - e1 - 1) > i64::MAX,
                decreases self.source@.len() - self.position,
            {
                let d = match self.peek() {
                    Some(c) => digit_value(c),
                    None => None,
                };
                match d {
                    Some(d) => {
                        proof {
                            lemma_pow10_positive(self.position - e1 - 1);
                        }
                        if fits && (num > (i64::MAX - d) / 10 || den > i64::MAX / 10) {
                            fits = false;
                        } else if fits {
                            num = num * 10 + d;
                            den = den * 10;
                        }
                        self.advance();
                    },
                    None => break,
                }
            }
        }
        if fits {
            if let Some(n) = Number::ratio(num, den) {
                self.add_token(TokenType::Number(n));
                return;
            }
        }
        self.report("number literal out of range");
    }

    /// A word whose leading grapheme `first` was just consumed.
    fn scan_identifier_or_keyword(&mut self, first: String)
        requires
            old(self).wf(),
            old(self).position >= 1,
            first@ == old(self).graphemes()[old(self).position - 1],
        ensures
            final(self).wf(),
            final(self).position >= old(self).position,
            stepped(*old(self), *final(self), word_step(
                old(self).graphemes(),
                old(self).position - 1,
                old(self).line as int,
            )),
    {
        let ghost gs = self.graphemes();
        let ghost i: int = self.position as int - 1;
        let mut out = first;
        assert(joined(gs, i, i) =~= seq![]);
        assert(joined(gs, i, i + 1) =~= gs[i]);
        loop
            invariant
                self.wf(),
                gs == self.graphemes(),
                i + 1 <= self.position,
                word_end(gs, self.position as int) == word_end(gs, i + 1),
                out@ == joined(gs, i, self.position as int),
                moved(*old(self), *self, self.position as int),
            ensures
                !word_at(gs, self.position as int),
            decreases self.source@.len() - self.position,
        {
            let word = match self.peek() {
                Some(c) => is_word_char(c),
                None => false,
            };
            if !word {
                break;
            }
            let g = self.source[self.position].clone();
            out.append(g.as_str());
            self.advance();
        }
        match keyword_of(&out) {
            Some(k) => self.add_token(k),
            None => self.add_token(TokenType::Identifier(out)),
        }
    }

    /// Skips to the line break that ends a comment, leaving the break.
    fn skip_line(&mut self)
        requires
            old(self).wf(),
        ensures
            final(self).wf(),
            final(self).position >= old(self).position,
            moved(
                *old(self),
                *final(self),
                line_end(old(self).graphemes(), old(self).position as int),
            ),
    {
        let ghost gs = self.graphemes();
        loop
            invariant
                self.wf(),
                gs == self.graphemes(),
                line_end(gs, self.position as int) == line_end(gs, old(self).position as int),
                self.position >= old(self).position,
                moved(*old(self), *self, self.position as int),
            ensures
                self.position == line_end(gs, old(self).position as int),
            decreases self.source@.len() - self.position,
        {
            if self.position >= self.source.len() || self.peek_is('\n') {
                break;
            }
            self.advance();
        }
    }

    /// One step of scanning: a token, or a skipped blank, comment or
    /// unknown grapheme.
    fn scan_token(&mut self)
        requires
            old(self).wf(),
            old(self).position < old(self).source@.len(),
        ensures
            final(self).wf(),
            final(self).position > old(self).position,
            stepped(*old(self), *final(self), step(
                old(self).graphemes(),
                old(self).position as int,
                old(self).line as int,
            )),
    {
        let c = match self.peek() {
            Some(c) => c,
            None => {
                self.advance();
                self.report("unknown character");
                return;
            },
        };
        let g = self.source[self.position].clone();
        self.advance();
        if let Some(d) = digit_value(c) {
            self.scan_number(d);
            return;
        }
        if is_word_start(c) {
            self.scan_identifier_or_keyword(g);
            return;
        }
        let token_type = match c {
            '(' => TokenType::LeftParen,
            ')' => TokenType::RightParen,
            '{' => TokenType::LeftBrace,
            '}' => TokenType::RightBrace,
            ',' => TokenType::Comma,
            '.' => TokenType::Dot,
            '-' => TokenType::Minus,
            '+' => TokenType::Plus,
            ';' => TokenType::Semicolon,
            '*' => TokenType::Star,
            '?' => TokenType::QuestionMark,
            ':' => TokenType::Colon,
            '!' => if self.consume_if('=') {
                TokenType::BangEqual
            } else {
                TokenType::Bang
            },
            '=' => if self.consume_if('=') {
                TokenType::EqualEqual
            } else {
                TokenType::Equal
            },
            '<' => if self.consume_if('=') {
                TokenType::LessEqual
            } else {
                TokenType::Less
            },
            '>' => if self.consume_if('=') {
                TokenType::GreaterEqual
            } else {
                TokenType::Greater
            },
            '/' => if self.consume_if('/') {
                self.skip_line();
                return;
            } else {
                TokenType::Slash
            },
            ' ' | '\r' | '\t' | '\n' => return,
            '"' => {
                self.scan_string();
                return;
            },
            _ => {
                self.report("unknown character");
                return;
            },
        };
        self.add_token(token_type);
    }

    /// Scans the rest of the source and appends the end marker: the tokens
    /// are those of [`scan_from`], in order, each with its line.
    pub fn tokenize(&mut self) -> (r: Vec<Token>)
        requires
            old(self).wf(),
        ensures
            ({
                let s = scan_from(
                    old(self).graphemes(),
                    old(self).position as int,
                    old(self).line as int,
                );
                let end = (TokenView::Plain(TokenType::EOF), s.line);
                &&& views(r@) == views(old(self).tokens@) + s.tokens + seq![end]
                &&& texts(final(self).errors@) == texts(old(self).errors@) + s.errors
            }),
            r@ == final(self).tokens@,
            crate::parser::well_terminated(r@),
            forall|i: int| 0 <= i < r@.len() - 1 ==> r@[i].token_type != TokenType::EOF,
            lines_ordered(r@, final(self).line as int),
    {
        let ghost gs = self.graphemes();
        let ghost whole = scan_from(gs, self.position as int, self.line as int);
        while self.position < self.source.len()
            invariant
                self.wf(),
                gs == self.graphemes(),
                views(self.tokens@) + scan_from(gs, self.position as int, self.line as int).tokens
                    == views(old(self).tokens@) + whole.tokens,
                texts(self.errors@) + scan_from(gs, self.position as int, self.line as int).errors
                    == texts(old(self).errors@) + whole.errors,
                scan_from(gs, self.position as int, self.line as int).line == whole.line,
            decreases self.source@.len() - self.position,
        {
            let ghost before_tokens = views(self.tokens@);
            let ghost before_errors = texts(self.errors@);
            let ghost s = step(gs, self.position as int, self.line as int);
            let ghost rest = scan_from(gs, s.next, s.line);
            self.scan_token();
            assert(before_tokens + (s.tokens + rest.tokens) =~= (before_tokens + s.tokens)
                + rest.tokens);
            assert(before_errors + (s.errors + rest.errors) =~= (before_errors + s.errors)
                + rest.errors);
        }
        assert(scan_from(gs, self.position as int, self.line as int).tokens =~= seq![]);
        assert(scan_from(gs, self.position as int, self.line as int).errors =~= seq![]);
        let ghost before = self.tokens@;
        let end = Token { token_type: TokenType::EOF, line: self.line };
        self.tokens.push(end);
        assert(self.tokens@.drop_last() =~= before);
        assert(views(self.tokens@) =~= views(before).push(token_view(end)));
        let mut out: Vec<Token> = Vec::new();
        let mut i: usize = 0;
        while i < self.tokens.len()
            invariant
                i <= self.tokens@.len(),
                out@ == self.tokens@.take(i as int),
            decreases self.tokens@.len() - i,
        {
            out.push(self.tokens[i].copy());
            assert(out@ =~= self.tokens@.take(i + 1));
            i = i + 1;
        }
        assert(out@ =~= self.tokens@);
        let n: usize = out.len();
        assert(out@.len() == n);
        out
    }
}

proof fn lemma_pow10_positive(k: int)
    ensures
        pow10(k) >= 1,
    decreases k,
{
    if k > 0 {
        lemma_pow10_positive(k - 1);
    }
}

} // verus!
