//! Values kept by name, in the order of their names, as a pool of servers
//! keeps its bridges.

use crate::text::chars_of;
use vstd::prelude::*;

verus! {

/// `a` comes strictly before `b`: at the first position where they differ
/// `a` has the smaller character, or `a` is a proper prefix of `b`.
pub open spec fn name_before(a: Seq<char>, b: Seq<char>) -> bool
    decreases a.len(),
{
    if b.len() == 0 {
        false
    } else if a.len() == 0 {
        true
    } else if a[0] != b[0] {
        (a[0] as u32) < (b[0] as u32)
    } else {
        name_before(a.drop_first(), b.drop_first())
    }
}

/// No name comes before itself.
pub proof fn lemma_name_before_irreflexive(a: Seq<char>)
    ensures
        !name_before(a, a),
    decreases a.len(),
{
    if a.len() > 0 {
        lemma_name_before_irreflexive(a.drop_first());
    }
}

/// Of two different names, one comes before the other, and not both.
pub proof fn lemma_name_before_total(a: Seq<char>, b: Seq<char>)
    ensures
        a != b ==> (name_before(a, b) || name_before(b, a)),
        !(name_before(a, b) && name_before(b, a)),
    decreases a.len(),
{
    if a.len() > 0 && b.len() > 0 {
        if a[0] == b[0] {
            lemma_name_before_total(a.drop_first(), b.drop_first());
            if a.drop_first() == b.drop_first() {
                assert(a =~= seq![a[0]] + a.drop_first());
                assert(b =~= seq![b[0]] + b.drop_first());
            }
        } else {
            char_is_scalar(a[0]);
            char_is_scalar(b[0]);
        }
    } else if a.len() == 0 && b.len() == 0 {
        assert(a =~= b);
    }
}

/// A character as a scalar value keeps its identity.
proof fn char_is_scalar(c: char)
    ensures
        (c as u32) as char == c,
{
}

/// The order of names is transitive.
pub proof fn lemma_name_before_transitive(a: Seq<char>, b: Seq<char>, c: Seq<char>)
    requires
        name_before(a, b),
        name_before(b, c),
    ensures
        name_before(a, c),
    decreases a.len(),
{
    if a.len() > 0 && b.len() > 0 && c.len() > 0 {
        if a[0] == b[0] && b[0] == c[0] {
            lemma_name_before_transitive(a.drop_first(), b.drop_first(), c.drop_first());
        }
    }
}

/// Whether `a` comes strictly before `b`.
pub fn str_before(a: &str, b: &str) -> (r: bool)
    ensures
        r == name_before(a@, b@),
{
    let x = chars_of(a);
    let y = chars_of(b);
    let mut i: usize = 0;
    assert(x@.skip(0) =~= x@);
    assert(y@.skip(0) =~= y@);
    loop
        invariant
            x@ == a@,
            y@ == b@,
            i <= x@.len(),
            i <= y@.len(),
            name_before(a@, b@) == name_before(x@.skip(i as int), y@.skip(i as int)),
        decreases x@.len() - i,
    {
        if i == y.len() {
            return false;
        }
        if i == x.len() {
            return true;
        }
        let ghost sx = x@.skip(i as int);
        let ghost sy = y@.skip(i as int);
        assert(sx[0] == x@[i as int]);
        assert(sy[0] == y@[i as int]);
        if x[i] != y[i] {
            return (x[i] as u32) < (y[i] as u32);
        }
        assert(sx.drop_first() =~= x@.skip(i + 1));
        assert(sy.drop_first() =~= y@.skip(i + 1));
        i = i + 1;
    }
}

/// Values by name; names are distinct and kept in order.
pub struct NameTable<T> {
    entries: Vec<(String, T)>,
}

impl<T> NameTable<T> {
    /// The names, in order.
    pub closed spec fn spec_names(self) -> Seq<Seq<char>> {
        Seq::new(self.entries@.len(), |i: int| self.entries@[i].0@)
    }

    /// The values, in the order of their names.
    pub closed spec fn spec_values(self) -> Seq<T> {
        Seq::new(self.entries@.len(), |i: int| self.entries@[i].1)
    }

    /// Names strictly increase.
    pub open spec fn wf(self) -> bool {
        &&& self.spec_values().len() == self.spec_names().len()
        &&& forall|i: int, j: int|
            0 <= i < j < self.spec_names().len() ==> name_before(
                #[trigger] self.spec_names()[i],
                #[trigger] self.spec_names()[j],
            )
    }

    /// An empty table.
    pub fn new() -> (t: Self)
        ensures
            t.wf(),
            t.spec_names().len() == 0,
    {
        NameTable { entries: Vec::new() }
    }

    /// The number of values.
    pub fn len(&self) -> (n: usize)
        ensures
            n == self.spec_names().len(),
    {
        self.entries.len()
    }

    /// The value at position `i` in the order of names.
    pub fn value_at(&self, i: usize) -> (v: &T)
        requires
            i < self.spec_names().len(),
        ensures
            *v == self.spec_values()[i as int],
    {
        &self.entries[i].1
    }

    /// Where `name` is or belongs: the first position whose name does not
    /// come before it, and whether the name is there.
    fn search(&self, name: &str) -> (r: (usize, bool))
        requires
            self.wf(),
        ensures
            r.0 <= self.spec_names().len(),
            forall|j: int| 0 <= j < r.0 ==> name_before(#[trigger] self.spec_names()[j], name@),
            r.0 < self.spec_names().len() ==> !name_before(self.spec_names()[r.0 as int], name@),
            r.1 == (r.0 < self.spec_names().len() && self.spec_names()[r.0 as int] == name@),
            !r.1 ==> !self.spec_names().contains(name@),
    {
        let mut i: usize = 0;
        while i < self.entries.len()
            invariant
                i <= self.entries@.len(),
                self.wf(),
                forall|j: int| 0 <= j < i ==> name_before(#[trigger] self.spec_names()[j], name@),
            decreases self.entries@.len() - i,
        {
            assert(self.spec_names()[i as int] == self.entries@[i as int].0@);
            if !str_before(self.entries[i].0.as_str(), name) {
                let found = !str_before(name, self.entries[i].0.as_str());
                proof {
                    let here = self.spec_names()[i as int];
                    lemma_name_before_total(here, name@);
                    lemma_name_before_irreflexive(name@);
                    if !found {
                        assert forall|j: int| 0 <= j < self.spec_names().len() implies self.spec_names()[j]
                            != name@ by {
                            if j < i {
                                lemma_name_before_irreflexive(name@);
                            } else if j > i {
                                lemma_name_before_transitive(name@, here, self.spec_names()[j]);
                                lemma_name_before_irreflexive(name@);
                            }
                        }
                    }
                }
                return (i, found);
            }
            i = i + 1;
        }
        proof {
            assert forall|j: int| 0 <= j < self.spec_names().len() implies self.spec_names()[j] != name@ by {
                lemma_name_before_irreflexive(name@);
            }
        }
        (i, false)
    }

    /// Stores `value` under `name`: it replaces the value stored there, which
    /// is returned, or joins the table at the place of its name.
    pub fn insert(&mut self, name: String, value: T) -> (r: Option<T>)
        requires
            old(self).wf(),
        ensures
            final(self).wf(),
            forall|i: int|
                0 <= i < old(self).spec_names().len() && old(self).spec_names()[i] == name@ ==> {
                    &&& r == Some(old(self).spec_values()[i])
                    &&& final(self).spec_names() == old(self).spec_names()
                    &&& final(self).spec_values() == old(self).spec_values().update(i, value)
                },
            !old(self).spec_names().contains(name@) ==> r is None && exists|p: int|
                0 <= p <= old(self).spec_names().len() && final(self).spec_names()
                    == old(self).spec_names().insert(p, name@) && final(self).spec_values()
                    == old(self).spec_values().insert(p, value),
    {
        let ghost names = self.spec_names();
        let ghost values = self.spec_values();
        let (p, found) = self.search(name.as_str());
        if found {
            let (_, previous) = self.entries.remove(p);
            self.entries.insert(p, (name, value));
            proof {
                assert(self.spec_names() =~= names);
                assert(self.spec_values() =~= values.update(p as int, value));
                assert forall|i: int|
                    0 <= i < names.len() && names[i] == name@ implies i == p by {
                    if i != p {
                        lemma_name_before_total(names[i], names[p as int]);
                        if i < p {
                            lemma_name_before_irreflexive(names[i]);
                        } else {
                            lemma_name_before_irreflexive(names[i]);
                        }
                    }
                }
            }
            Some(previous)
        } else {
            self.entries.insert(p, (name, value));
            proof {
                let n = self.spec_names();
                assert(n =~= names.insert(p as int, name@));
                assert(self.spec_values() =~= values.insert(p as int, value));
                if (p as int) < names.len() {
                    lemma_name_before_total(names[p as int], name@);
                }
                assert forall|i: int, j: int| 0 <= i < j < n.len() implies name_before(
                    #[trigger] n[i],
                    #[trigger] n[j],
                ) by {
                    if j < p {
                        assert(n[i] == names[i] && n[j] == names[j]);
                    } else if j == p {
                        assert(n[i] == names[i]);
                    } else if i == p {
                        assert(n[j] == names[j - 1]);
                        if j - 1 > p {
                            lemma_name_before_transitive(name@, names[p as int], names[j - 1]);
                        }
                    } else if i < p {
                        assert(n[i] == names[i] && n[j] == names[j - 1]);
                        lemma_name_before_transitive(names[i], name@, names[p as int]);
                        if j - 1 > p {
                            lemma_name_before_transitive(names[i], names[p as int], names[j - 1]);
                        }
                    } else {
                        assert(n[i] == names[i - 1] && n[j] == names[j - 1]);
                    }
                }
            }
            None
        }
    }

    /// Takes out the value stored under `name`, if any.
    pub fn remove(&mut self, name: &str) -> (r: Option<T>)
        requires
            old(self).wf(),
        ensures
            final(self).wf(),
            forall|i: int|
                0 <= i < old(self).spec_names().len() && old(self).spec_names()[i] == name@ ==> {
                    &&& r == Some(old(self).spec_values()[i])
                    &&& final(self).spec_names() == old(self).spec_names().remove(i)
                    &&& final(self).spec_values() == old(self).spec_values().remove(i)
                },
            !old(self).spec_names().contains(name@) ==> r is None && final(self).spec_names()
                == old(self).spec_names() && final(self).spec_values() == old(self).spec_values(),
    {
        let ghost names = self.spec_names();
        let ghost values = self.spec_values();
        let (p, found) = self.search(name);
        if found {
            let (_, previous) = self.entries.remove(p);
            proof {
                let n = self.spec_names();
                assert(n =~= names.remove(p as int));
                assert(self.spec_values() =~= values.remove(p as int));
                assert forall|i: int, j: int| 0 <= i < j < n.len() implies name_before(
                    #[trigger] n[i],
                    #[trigger] n[j],
                ) by {
                    if j < p {
                        assert(n[i] == names[i] && n[j] == names[j]);
                    } else if i < p {
                        assert(n[i] == names[i] && n[j] == names[j + 1]);
                    } else {
                        assert(n[i] == names[i + 1] && n[j] == names[j + 1]);
                    }
                }
                assert forall|i: int|
                    0 <= i < names.len() && names[i] == name@ implies i == p by {
                    if i != p {
                        lemma_name_before_irreflexive(names[i]);
                    }
                }
            }
            Some(previous)
        } else {
            None
        }
    }
}

} // verus!
