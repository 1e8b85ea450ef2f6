use vstd::prelude::*;

use crate::value::{Value, ValueView};

verus! {

/// The map that a list of bindings denotes: a later binding of a name hides earlier ones.
pub open spec fn bindings_map(s: Seq<(String, Value)>) -> Map<Seq<char>, ValueView>
    decreases s.len(),
{
    if s.len() == 0 {
        Map::empty()
    } else {
        bindings_map(s.drop_last()).insert(s.last().0@, s.last().1@)
    }
}

/// The binding at `i` is the one that counts when no later binding has the same name.
proof fn lemma_bindings_latest(s: Seq<(String, Value)>, i: int, k: Seq<char>)
    requires
        0 <= i < s.len(),
        s[i].0@ == k,
        forall|j: int| i < j < s.len() ==> s[j].0@ != k,
    ensures
        bindings_map(s).contains_key(k),
        bindings_map(s)[k] == s[i].1@,
    decreases s.len(),
{
    if i < s.len() - 1 {
        lemma_bindings_latest(s.drop_last(), i, k);
    }
}

proof fn lemma_bindings_absent(s: Seq<(String, Value)>, k: Seq<char>)
    requires
        forall|j: int| 0 <= j < s.len() ==> s[j].0@ != k,
    ensures
        !bindings_map(s).contains_key(k),
    decreases s.len(),
{
    if s.len() > 0 {
        lemma_bindings_absent(s.drop_last(), k);
    }
}

/// No name is bound twice.
pub open spec fn names_unique(s: Seq<(String, Value)>) -> bool {
    forall|i: int, j: int| 0 <= i < j < s.len() ==> s[i].0@ != s[j].0@
}

/// Rebinding the name at `i` is inserting into the map.
proof fn lemma_bindings_update(s: Seq<(String, Value)>, i: int, x: (String, Value))
    requires
        names_unique(s),
        0 <= i < s.len(),
        x.0@ == s[i].0@,
    ensures
        bindings_map(s.update(i, x)) == bindings_map(s).insert(x.0@, x.1@),
    decreases s.len(),
{
    let u = s.update(i, x);
    assert(u.drop_last() =~= if i == s.len() - 1 {
        s.drop_last()
    } else {
        s.drop_last().update(i, x)
    });
    if i == s.len() - 1 {
        assert(bindings_map(u) =~= bindings_map(s).insert(x.0@, x.1@));
    } else {
        lemma_bindings_update(s.drop_last(), i, x);
        assert(bindings_map(u) =~= bindings_map(s).insert(x.0@, x.1@));
    }
}

/// A single flat scope mapping names to values; each name is bound once.
pub struct Environment {
    bindings: Vec<(String, Value)>,
}

impl View for Environment {
    type V = Map<Seq<char>, ValueView>;

    closed spec fn view(&self) -> Map<Seq<char>, ValueView> {
        bindings_map(self.bindings@)
    }
}

impl Environment {
    /// Each name is bound once.
    pub closed spec fn wf(&self) -> bool {
        names_unique(self.bindings@)
    }

    pub fn new() -> (r: Self)
        ensures
            r@ == Map::<Seq<char>, ValueView>::empty(),
            r.wf(),
    {
        Environment { bindings: Vec::new() }
    }

    /// Rebinds `name` where it is bound, else adds it.
    fn bind(&mut self, name: String, value: Value)
        requires
            old(self).wf(),
        ensures
            final(self)@ == old(self)@.insert(name@, value@),
            final(self).wf(),
    {
        let ghost before = self.bindings@;
        let mut i: usize = 0;
        while i < self.bindings.len()
            invariant
                self.bindings@ == before,
                before == old(self).bindings@,
                names_unique(before),
                i <= before.len(),
                forall|j: int| 0 <= j < i ==> before[j].0@ != name@,
            decreases before.len() - i,
        {
            if self.bindings[i].0 == name {
                let ghost x = (name, value);
                proof {
                    lemma_bindings_update(before, i as int, x);
                }
                self.bindings.set(i, (name, value));
                assert(self.bindings@ =~= before.update(i as int, x));
                return;
            }
            i = i + 1;
        }
        self.bindings.push((name, value));
        assert(self.bindings@.drop_last() =~= before);
        assert(names_unique(self.bindings@));
    }

    /// Declares `name` with no value, replacing any earlier binding.
    pub fn add_name(&mut self, name: String)
        requires
            old(self).wf(),
        ensures
            final(self)@ == old(self)@.insert(name@, ValueView::Void),
            final(self).wf(),
    {
        self.bind(name, Value::Void)
    }

    /// Binds `name` to `value`, replacing any earlier binding.
    pub fn set_value(&mut self, name: String, value: Value)
        requires
            old(self).wf(),
        ensures
            final(self)@ == old(self)@.insert(name@, value@),
            final(self).wf(),
    {
        self.bind(name, value)
    }

    /// The value bound to `name`, or `None` when it was never declared.
    pub fn get(&self, name: &String) -> (r: Option<Value>)
        ensures
            match r {
                Some(v) => self@.contains_key(name@) && self@[name@] == v@,
                None => !self@.contains_key(name@),
            },
    {
        let mut i: usize = self.bindings.len();
        while i > 0
            invariant
                i <= self.bindings@.len(),
                forall|j: int| i <= j < self.bindings@.len() ==> self.bindings@[j].0@ != name@,
            decreases i,
        {
            i = i - 1;
            if self.bindings[i].0 == *name {
                proof {
                    lemma_bindings_latest(self.bindings@, i as int, name@);
                }
                return Some(self.bindings[i].1.copy());
            }
        }
        proof {
            lemma_bindings_absent(self.bindings@, name@);
        }
        None
    }
}

} // verus!
