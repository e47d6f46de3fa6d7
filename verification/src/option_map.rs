//! Options by name, kept in the order of their names.

use crate::split::same;
use crate::text::chars_of;
use vstd::prelude::*;

verus! {

/// The order of texts: by the first character in which they differ, a text
/// before every longer one that it begins.
pub open spec fn precedes(a: Seq<char>, b: Seq<char>) -> bool
    decreases a.len(),
{
    if b.len() == 0 {
        false
    } else if a.len() == 0 {
        true
    } else if a[0] != b[0] {
        a[0] < b[0]
    } else {
        precedes(a.skip(1), b.skip(1))
    }
}

/// Of two different texts exactly one precedes the other; none precedes itself.
pub proof fn lemma_precedes_total(a: Seq<char>, b: Seq<char>)
    ensures
        a == b ==> !precedes(a, b),
        a != b ==> (precedes(a, b) <==> !precedes(b, a)),
    decreases a.len(),
{
    if a.len() > 0 && b.len() > 0 && a[0] == b[0] {
        lemma_precedes_total(a.skip(1), b.skip(1));
        if a.skip(1) == b.skip(1) {
            assert(a == seq![a[0]] + a.skip(1));
            assert(b == seq![b[0]] + b.skip(1));
        }
    } else if a.len() == 0 && b.len() == 0 {
        assert(a == b);
    }
}

/// What precedes a text precedes all that it precedes.
pub proof fn lemma_precedes_chain(a: Seq<char>, b: Seq<char>, c: Seq<char>)
    requires
        precedes(a, b),
        precedes(b, c),
    ensures
        precedes(a, c),
    decreases a.len(),
{
    if a.len() > 0 && a[0] == b[0] && b[0] == c[0] {
        lemma_precedes_chain(a.skip(1), b.skip(1), c.skip(1));
    }
}

/// Whether one text precedes another.
fn is_before(a: &str, b: &str) -> (r: bool)
    ensures
        r == precedes(a@, b@),
{
    let x = chars_of(a);
    let y = chars_of(b);
    let mut i: usize = 0;
    proof {
        assert(a@.skip(0) == a@);
        assert(b@.skip(0) == b@);
    }
    while i < x.len() && i < y.len() && x[i] == y[i]
        invariant
            i <= x@.len(),
            i <= y@.len(),
            x@ == a@,
            y@ == b@,
            precedes(a@.skip(i as int), b@.skip(i as int)) == precedes(a@, b@),
        decreases x@.len() - i,
    {
        proof {
            assert(a@.skip(i as int).skip(1) == a@.skip(i + 1));
            assert(b@.skip(i as int).skip(1) == b@.skip(i + 1));
        }
        i += 1;
    }
    if i == y.len() {
        false
    } else if i == x.len() {
        true
    } else {
        x[i] < y[i]
    }
}

/// Options with their values, sorted by name, each name once.
#[derive(Debug, Clone)]
pub struct OptionMap {
    entries: Vec<(String, String)>,
}

impl OptionMap {
    /// The options with their values, in order.
    pub closed spec fn entries(&self) -> Seq<(Seq<char>, Seq<char>)> {
        Seq::new(self.entries@.len(), |i: int| (self.entries@[i].0@, self.entries@[i].1@))
    }

    /// The names are in order, and so each occurs once.
    pub open spec fn wf(&self) -> bool {
        forall|i: int, j: int|
            0 <= i < j < self.entries().len() ==> precedes(
                #[trigger] self.entries()[i].0,
                #[trigger] self.entries()[j].0,
            )
    }

    /// Whether an option has a value.
    pub open spec fn holds(&self, name: Seq<char>, value: Seq<char>) -> bool {
        self.entries().contains((name, value))
    }

    /// No options.
    pub fn new() -> (r: Self)
        ensures
            r.wf(),
            r.entries() == Seq::<(Seq<char>, Seq<char>)>::empty(),
    {
        OptionMap { entries: Vec::new() }
    }

    /// How many options there are.
    pub fn len(&self) -> (r: usize)
        ensures
            r == self.entries().len(),
    {
        self.entries.len()
    }

    /// The name of the option at a position.
    pub fn name_at(&self, i: usize) -> (r: &String)
        requires
            i < self.entries().len(),
        ensures
            r@ == self.entries()[i as int].0,
    {
        &self.entries[i].0
    }

    /// The value of the option at a position.
    pub fn value_at(&self, i: usize) -> (r: &String)
        requires
            i < self.entries().len(),
        ensures
            r@ == self.entries()[i as int].1,
    {
        &self.entries[i].1
    }

    /// The value of an option.
    pub fn get(&self, name: &str) -> (r: Option<&String>)
        requires
            self.wf(),
        ensures
            match r {
                Some(v) => self.holds(name@, v@),
                None => forall|v: Seq<char>| !self.holds(name@, v),
            },
    {
        let mut i: usize = 0;
        while i < self.entries.len()
            invariant
                i <= self.entries@.len(),
                forall|j: int| 0 <= j < i ==> #[trigger] self.entries()[j].0 != name@,
            decreases self.entries@.len() - i,
        {
            if same(self.entries[i].0.as_str(), name) {
                proof {
                    assert(self.entries()[i as int] == (name@, self.entries@[i as int].1@));
                }
                return Some(&self.entries[i].1);
            }
            i += 1;
        }
        proof {
            assert forall|v: Seq<char>| !self.holds(name@, v) by {
                if self.holds(name@, v) {
                    let j = self.entries().index_of((name@, v));
                    assert(self.entries()[j].0 == name@);
                }
            }
        }
        None
    }

    /// Gives an option a value, in place of the one it had.
    pub fn insert(&mut self, name: String, value: String)
        requires
            old(self).wf(),
        ensures
            final(self).wf(),
            forall|n: Seq<char>, v: Seq<char>| #[trigger]
                final(self).holds(n, v) <==> if n == name@ {
                    v == value@
                } else {
                    old(self).holds(n, v)
                },
    {
        let ghost before = *self;
        let ghost nv = name@;
        let ghost vv = value@;
        let mut i: usize = 0;
        while i < self.entries.len() && is_before(self.entries[i].0.as_str(), name.as_str())
            invariant
                i <= self.entries@.len(),
                forall|j: int| 0 <= j < i ==> precedes(#[trigger] self.entries()[j].0, name@),
            decreases self.entries@.len() - i,
        {
            i += 1;
        }
        let at: usize = i;
        if i < self.entries.len() && same(self.entries[i].0.as_str(), name.as_str()) {
            self.entries.set(i, (name, value));
            proof {
                assert(self.entries() =~= before.entries().update(at as int, (nv, vv)));
                assert forall|a: int, b: int| 0 <= a < b < self.entries().len() implies precedes(
                    #[trigger] self.entries()[a].0,
                    #[trigger] self.entries()[b].0,
                ) by {
                    assert(self.entries()[a].0 == before.entries()[a].0);
                    assert(self.entries()[b].0 == before.entries()[b].0);
                }
                assert forall|n: Seq<char>, v: Seq<char>| #[trigger]
                    self.holds(n, v) <==> if n == nv {
                        v == vv
                    } else {
                        before.holds(n, v)
                    } by {
                    if self.holds(n, v) {
                        let j = self.entries().index_of((n, v));
                        if j != at {
                            assert(before.entries()[j] == (n, v));
                            if j < at {
                                lemma_precedes_total(before.entries()[j].0, before.entries()[at as int].0);
                            } else {
                                lemma_precedes_total(before.entries()[at as int].0, before.entries()[j].0);
                            }
                        }
                    }
                    if n == nv {
                        assert(self.entries()[at as int] == (nv, vv));
                    } else if before.holds(n, v) {
                        let j = before.entries().index_of((n, v));
                        assert(self.entries()[j] == (n, v));
                    }
                }
            }
        } else {
            self.entries.insert(i, (name, value));
            proof {
                assert(self.entries() =~= before.entries().insert(at as int, (nv, vv)));
                assert forall|j: int| at <= j < before.entries().len() implies precedes(
                    nv,
                    #[trigger] before.entries()[j].0,
                ) by {
                    lemma_precedes_total(before.entries()[at as int].0, nv);
                    if j > at {
                        lemma_precedes_chain(nv, before.entries()[at as int].0, before.entries()[j].0);
                    }
                }
                assert forall|a: int, b: int| 0 <= a < b < self.entries().len() implies precedes(
                    #[trigger] self.entries()[a].0,
                    #[trigger] self.entries()[b].0,
                ) by {
                    let c = if a < at { a } else { a - 1 };
                    let d = if b < at { b } else { b - 1 };
                    if a != at && b != at {
                        assert(precedes(before.entries()[c].0, before.entries()[d].0));
                    } else if a == at {
                        assert(precedes(nv, before.entries()[d].0));
                    } else {
                        assert(precedes(before.entries()[c].0, nv));
                    }
                }
                assert forall|n: Seq<char>, v: Seq<char>| #[trigger]
                    self.holds(n, v) <==> if n == nv {
                        v == vv
                    } else {
                        before.holds(n, v)
                    } by {
                    if self.holds(n, v) {
                        let j = self.entries().index_of((n, v));
                        if j < at {
                            assert(before.entries()[j] == (n, v));
                            lemma_precedes_total(before.entries()[j].0, nv);
                        } else if j > at {
                            assert(before.entries()[j - 1] == (n, v));
                            lemma_precedes_total(nv, before.entries()[j - 1].0);
                        }
                    }
                    if n == nv {
                        assert(self.entries()[at as int] == (nv, vv));
                    } else if before.holds(n, v) {
                        let j = before.entries().index_of((n, v));
                        let k = if j < at { j } else { j + 1 };
                        assert(self.entries()[k] == (n, v));
                    }
                }
            }
        }
    }
}

/// Texts are ordered by the first character in which they differ, and a text
/// stands before all longer ones that it begins.
pub proof fn texts_are_ordered_by_their_first_difference(
    head: Seq<char>,
    a: char,
    s: Seq<char>,
    b: char,
    t: Seq<char>,
)
    ensures
        a < b ==> precedes(head + (seq![a] + s), head + (seq![b] + t)),
        precedes(head, head + (seq![a] + s)),
        !precedes(head, head),
    decreases head.len(),
{
    let x = head + (seq![a] + s);
    let y = head + (seq![b] + t);
    if head.len() == 0 {
        assert(x == seq![a] + s);
        assert(y == seq![b] + t);
    } else {
        let rest = head.skip(1);
        assert(x.skip(1) == rest + (seq![a] + s));
        assert(y.skip(1) == rest + (seq![b] + t));
        texts_are_ordered_by_their_first_difference(rest, a, s, b, t);
    }
}

/// What is found under a name is what was entered under it last, and what is found
/// under another was there before.
pub proof fn the_last_value_of_a_name_is_found(
    m: &mut OptionMap,
    name: String,
    value: String,
    after: &OptionMap,
    other: &str,
    r: Option<&String>,
)
    requires
        call_ensures(OptionMap::insert, (m, name, value), ()),
        *after == *final(m),
        call_ensures(OptionMap::get, (after, other), r),
        r is Some,
    ensures
        other@ == name@ ==> r->0@ == value@,
        other@ != name@ ==> old(m).holds(other@, r->0@),
{
    let found = r->0@;
    assert(after.holds(other@, found));
    assert(final(m).holds(other@, found));
}

/// A new map is empty, and its entries are told one by one.
pub proof fn entries_are_told_one_by_one(
    made: OptionMap,
    m: &OptionMap,
    n: usize,
    i: usize,
    word: &String,
)
    ensures
        call_ensures(OptionMap::new, (), made) ==> made.entries().len() == 0,
        call_ensures(OptionMap::len, (m,), n) ==> n == m.entries().len(),
        call_ensures(OptionMap::name_at, (m, i), word) ==> word@ == m.entries()[i as int].0,
        call_ensures(OptionMap::value_at, (m, i), word) ==> word@ == m.entries()[i as int].1,
{
}

}
