//! The dependency table: entries kept sorted by name, so that iteration
//! (and hence rendering) is in lexicographic key order whatever order the
//! source declared them in.

use vstd::prelude::*;
use vstd::string::StringExecFns;
use crate::deps::{displayable, value_of, DepView, Dependency};
use crate::order::{lemma_lex_lt_irreflexive, lemma_lex_lt_transitive, lemma_lex_lt_trichotomy,
    lex_lt, str_lt};

verus! {

/// One rendered line: the name, a colon, the value, a line break.
pub open spec fn line_of(k: Seq<char>, d: DepView) -> Seq<char>
    recommends
        displayable(d),
{
    k + seq![':'] + value_of(d) + seq!['\n']
}

/// The full rendering of an entry listing, one line per entry, in order.
pub open spec fn lines_of(s: Seq<(Seq<char>, DepView)>) -> Seq<char>
    decreases s.len(),
{
    if s.len() == 0 {
        Seq::empty()
    } else {
        lines_of(s.drop_last()) + line_of(s.last().0, s.last().1)
    }
}

/// Keys strictly ascending.
pub open spec fn sorted_strict(s: Seq<(Seq<char>, DepView)>) -> bool {
    forall|i: int, j: int| 0 <= i < j < s.len() ==> lex_lt(s[i].0, s[j].0)
}

/// The name-to-dependency mapping an entry listing stands for.
pub open spec fn entries_map(s: Seq<(Seq<char>, DepView)>) -> Map<Seq<char>, DepView>
    decreases s.len(),
{
    if s.len() == 0 {
        Map::empty()
    } else {
        entries_map(s.drop_last()).insert(s.last().0, s.last().1)
    }
}

pub proof fn lemma_entries_map_contains(s: Seq<(Seq<char>, DepView)>, k: Seq<char>)
    ensures
        entries_map(s).contains_key(k) <==> (exists|i: int| 0 <= i < s.len() && s[i].0 == k),
    decreases s.len(),
{
    if s.len() > 0 {
        lemma_entries_map_contains(s.drop_last(), k);
        if s.last().0 == k {
            assert(s[s.len() - 1].0 == k);
        } else if entries_map(s).contains_key(k) {
            let i = choose|i: int| 0 <= i < s.drop_last().len() && s.drop_last()[i].0 == k;
            assert(s[i].0 == k);
        } else if exists|i: int| 0 <= i < s.len() && s[i].0 == k {
            let i = choose|i: int| 0 <= i < s.len() && s[i].0 == k;
            assert(s.drop_last()[i].0 == k);
        }
    }
}

pub proof fn lemma_entries_map_index(s: Seq<(Seq<char>, DepView)>, i: int)
    requires
        0 <= i < s.len(),
        forall|j1: int, j2: int| 0 <= j1 < j2 < s.len() ==> s[j1].0 != s[j2].0,
    ensures
        entries_map(s).contains_key(s[i].0),
        entries_map(s)[s[i].0] == s[i].1,
    decreases s.len(),
{
    lemma_entries_map_contains(s, s[i].0);
    if i < s.len() - 1 {
        assert(s[i].0 != s.last().0);
        lemma_entries_map_index(s.drop_last(), i);
        assert(s.drop_last()[i] == s[i]);
    }
}

pub proof fn lemma_entries_map_insert(s: Seq<(Seq<char>, DepView)>, i: int, k: Seq<char>, d: DepView)
    requires
        0 <= i <= s.len(),
        forall|j: int| 0 <= j < s.len() ==> s[j].0 != k,
    ensures
        entries_map(s.insert(i, (k, d))) == entries_map(s).insert(k, d),
    decreases s.len(),
{
    let t = s.insert(i, (k, d));
    if i == s.len() {
        assert(t.drop_last() =~= s);
        assert(t.last() == (k, d));
    } else {
        assert(t.last() == s.last());
        assert(t.drop_last() =~= s.drop_last().insert(i, (k, d)));
        lemma_entries_map_insert(s.drop_last(), i, k, d);
        assert(s.last().0 != k);
        assert(entries_map(s.drop_last()).insert(k, d).insert(s.last().0, s.last().1)
            =~= entries_map(s.drop_last()).insert(s.last().0, s.last().1).insert(k, d));
    }
}

/// Strict sorting leaves no room for a key to appear twice.
pub proof fn lemma_sorted_distinct(s: Seq<(Seq<char>, DepView)>)
    requires
        sorted_strict(s),
    ensures
        forall|j1: int, j2: int| 0 <= j1 < j2 < s.len() ==> s[j1].0 != s[j2].0,
{
    assert forall|j1: int, j2: int| 0 <= j1 < j2 < s.len() implies s[j1].0 != s[j2].0 by {
        lemma_lex_lt_irreflexive(s[j1].0);
    }
}

/// The dependency table. The entry listing is kept sorted by name; this is
/// the deliberate invariant that fixes the output order.
#[derive(Debug, Clone, PartialEq)]
pub struct DepsSet {
    entries: Vec<(String, Dependency)>,
}

impl View for DepsSet {
    type V = Seq<(Seq<char>, DepView)>;

    closed spec fn view(&self) -> Seq<(Seq<char>, DepView)> {
        self.entries@.map_values(|p: (String, Dependency)| (p.0@, p.1@))
    }
}

impl DepsSet {
    /// Well-formed: entries sorted strictly by name.
    pub open spec fn wf(&self) -> bool {
        sorted_strict(self@)
    }

    pub fn new() -> (r: Self)
        ensures
            r@ == Seq::<(Seq<char>, DepView)>::empty(),
            r.wf(),
    {
        let r = DepsSet { entries: Vec::new() };
        proof {
            assert(r@ =~= Seq::<(Seq<char>, DepView)>::empty());
        }
        r
    }

    pub fn len(&self) -> (r: usize)
        ensures
            r == self@.len(),
    {
        self.entries.len()
    }

    pub fn key_at(&self, i: usize) -> (r: &String)
        requires
            i < self@.len(),
        ensures
            r@ == self@[i as int].0,
    {
        &self.entries[i].0
    }

    pub fn dep_at(&self, i: usize) -> (r: &Dependency)
        requires
            i < self@.len(),
        ensures
            r@ == self@[i as int].1,
    {
        &self.entries[i].1
    }

    /// Inserts at the sorted position. Returns false, and leaves the table
    /// unchanged, when the name is already present.
    pub fn insert(&mut self, k: String, d: Dependency) -> (r: bool)
        requires
            old(self).wf(),
        ensures
            final(self).wf(),
            r <==> !entries_map(old(self)@).contains_key(k@),
            r ==> entries_map(final(self)@) == entries_map(old(self)@).insert(k@, d@),
            r ==> final(self)@.len() == old(self)@.len() + 1,
            !r ==> final(self)@ == old(self)@,
    {
        let n = self.entries.len();
        let mut i: usize = 0;
        while i < n && str_lt(self.entries[i].0.as_str(), k.as_str())
            invariant
                i <= n,
                n == self@.len(),
                *self == *old(self),
                old(self).wf(),
                forall|j: int| 0 <= j < i ==> lex_lt(self@[j].0, k@),
            decreases n - i,
        {
            assert(self@[i as int].0 == self.entries@[i as int].0@);
            i += 1;
        }
        if i < n && !str_lt(k.as_str(), self.entries[i].0.as_str()) {
            proof {
                assert(self@[i as int].0 == self.entries@[i as int].0@);
                lemma_lex_lt_trichotomy(k@, self@[i as int].0);
                assert(self@[i as int].0 == k@);
                lemma_entries_map_contains(self@, k@);
            }
            return false;
        }
        proof {
            if i < n {
                assert(self@[i as int].0 == self.entries@[i as int].0@);
                lemma_lex_lt_trichotomy(k@, self@[i as int].0);
            }
            assert forall|j: int| 0 <= j < self@.len() implies self@[j].0 != k@ by {
                if j < i {
                    lemma_lex_lt_irreflexive(k@);
                    if self@[j].0 == k@ {
                        assert(lex_lt(k@, k@));
                    }
                } else {
                    lemma_lex_lt_irreflexive(k@);
                    if j > i {
                        lemma_lex_lt_transitive(k@, self@[i as int].0, self@[j].0);
                    }
                    if self@[j].0 == k@ {
                        assert(lex_lt(k@, k@));
                    }
                }
            }
            lemma_entries_map_contains(self@, k@);
            if entries_map(self@).contains_key(k@) {
                let w = choose|w: int| 0 <= w < self@.len() && self@[w].0 == k@;
                assert(self@[w].0 != k@);
            }
            lemma_entries_map_insert(self@, i as int, k@, d@);
        }
        let ghost prior = self@;
        self.entries.insert(i, (k, d));
        proof {
            assert(self@ =~= prior.insert(i as int, (k@, d@)));
            assert forall|p: int, q: int| 0 <= p < q < self@.len()
                implies lex_lt(self@[p].0, self@[q].0) by {
                if q < i {
                    assert(lex_lt(prior[p].0, prior[q].0));
                } else if q == i {
                    assert(lex_lt(prior[p].0, k@));
                } else if p == i {
                    if q - 1 > i {
                        lemma_lex_lt_transitive(k@, prior[i as int].0, prior[q - 1].0);
                    }
                    assert(lex_lt(k@, prior[q - 1].0));
                } else if p < i {
                    assert(lex_lt(prior[p].0, prior[q - 1].0));
                } else {
                    assert(lex_lt(prior[p - 1].0, prior[q - 1].0));
                }
            }
        }
        true
    }

    /// Renders every entry as `name:value` with a trailing line break, in
    /// listing order. Fails exactly when some entry has no displayable
    /// value (a detailed record without a version).
    pub fn render_lines(&self) -> (r: Option<String>)
        ensures
            r is Some <==> (forall|i: int| 0 <= i < self@.len() ==> displayable(self@[i].1)),
            r matches Some(s) ==> s@ == lines_of(self@),
    {
        let n = self.entries.len();
        let mut out = String::new();
        let mut i: usize = 0;
        proof {
            assert(self@.take(0) =~= Seq::<(Seq<char>, DepView)>::empty());
        }
        while i < n
            invariant
                i <= n,
                n == self@.len(),
                forall|j: int| 0 <= j < i ==> displayable(self@[j].1),
                out@ == lines_of(self@.take(i as int)),
            decreases n - i,
        {
            assert(self@[i as int] == (self.entries@[i as int].0@, self.entries@[i as int].1@));
            let value = match self.entries[i].1.try_value_string() {
                Some(v) => v,
                None => {
                    return None;
                },
            };
            out.append(self.entries[i].0.as_str());
            out.append(":");
            out.append(value.as_str());
            out.append("\n");
            proof {
                reveal_strlit(":");
                reveal_strlit("\n");
                assert(":"@ =~= seq![':']);
                assert("\n"@ =~= seq!['\n']);
                assert(self@.take(i + 1).drop_last() =~= self@.take(i as int));
                assert(self@.take(i + 1).last() == self@[i as int]);
                assert(out@ =~= lines_of(self@.take(i + 1)));
            }
            i += 1;
        }
        proof {
            assert(self@.take(n as int) =~= self@);
        }
        Some(out)
    }
}

/// Two strictly sorted listings that stand for the same mapping are the
/// same listing: the rendered order depends only on the decoded table,
/// never on the order the source declared its entries in.
pub proof fn lemma_sorted_listing_unique(a: Seq<(Seq<char>, DepView)>, b: Seq<(Seq<char>, DepView)>)
    requires
        sorted_strict(a),
        sorted_strict(b),
        entries_map(a) == entries_map(b),
    ensures
        a == b,
    decreases a.len(),
{
    lemma_sorted_distinct(a);
    lemma_sorted_distinct(b);
    if a.len() == 0 && b.len() == 0 {
        assert(a =~= b);
    } else if a.len() == 0 {
        lemma_entries_map_contains(a, b.last().0);
        lemma_entries_map_contains(b, b.last().0);
        assert(b[b.len() - 1].0 == b.last().0);
    } else if b.len() == 0 {
        lemma_entries_map_contains(b, a.last().0);
        lemma_entries_map_contains(a, a.last().0);
        assert(a[a.len() - 1].0 == a.last().0);
    } else {
        let ka = a.last().0;
        let kb = b.last().0;
        assert(a[a.len() - 1].0 == ka);
        assert(b[b.len() - 1].0 == kb);
        lemma_entries_map_contains(a, ka);
        lemma_entries_map_contains(b, ka);
        lemma_entries_map_contains(a, kb);
        lemma_entries_map_contains(b, kb);
        if ka != kb {
            let ia = choose|i: int| 0 <= i < b.len() && b[i].0 == ka;
            let ib = choose|i: int| 0 <= i < a.len() && a[i].0 == kb;
            assert(ia < b.len() - 1);
            assert(ib < a.len() - 1);
            assert(lex_lt(b[ia].0, b[b.len() - 1].0));
            assert(lex_lt(a[ib].0, a[a.len() - 1].0));
            lemma_lex_lt_transitive(ka, kb, ka);
            lemma_lex_lt_irreflexive(ka);
        }
        lemma_entries_map_index(a, a.len() - 1);
        lemma_entries_map_index(b, b.len() - 1);
        assert(a.last().1 == b.last().1);
        assert(entries_map(a.drop_last()) =~= entries_map(b.drop_last())) by {
            lemma_sorted_distinct(a);
            assert forall|k: Seq<char>|
                entries_map(a.drop_last()).contains_key(k)
                    == entries_map(b.drop_last()).contains_key(k) by {
                lemma_entries_map_contains(a.drop_last(), k);
                lemma_entries_map_contains(b.drop_last(), k);
                lemma_entries_map_contains(a, k);
                lemma_entries_map_contains(b, k);
                lemma_last_key_absent_from_front(a, k);
                lemma_last_key_absent_from_front(b, k);
            }
            assert forall|k: Seq<char>| entries_map(a.drop_last()).contains_key(k)
                implies entries_map(a.drop_last())[k] == entries_map(b.drop_last())[k] by {
                lemma_entries_map_contains(a.drop_last(), k);
                let i = choose|i: int| 0 <= i < a.drop_last().len() && a.drop_last()[i].0 == k;
                lemma_last_key_absent_from_front(a, k);
                lemma_entries_map_index(a.drop_last(), i);
                lemma_entries_map_index(a, i);
                lemma_entries_map_contains(b.drop_last(), k);
                let j = choose|j: int| 0 <= j < b.drop_last().len() && b.drop_last()[j].0 == k;
                lemma_entries_map_index(b.drop_last(), j);
                lemma_entries_map_index(b, j);
            }
        }
        assert forall|p: int, q: int| 0 <= p < q < a.drop_last().len()
            implies lex_lt(a.drop_last()[p].0, a.drop_last()[q].0) by {
            assert(a.drop_last()[p] == a[p]);
            assert(a.drop_last()[q] == a[q]);
        }
        assert forall|p: int, q: int| 0 <= p < q < b.drop_last().len()
            implies lex_lt(b.drop_last()[p].0, b.drop_last()[q].0) by {
            assert(b.drop_last()[p] == b[p]);
            assert(b.drop_last()[q] == b[q]);
        }
        lemma_sorted_listing_unique(a.drop_last(), b.drop_last());
        assert(a.last() =~= b.last());
        assert forall|idx: int| 0 <= idx < a.len() implies a[idx] == b[idx] by {
            if idx < a.len() - 1 {
                assert(a.drop_last()[idx] == b.drop_last()[idx]);
            }
        }
        assert(a =~= b);
    }
}

/// In a listing whose keys are distinct, a key found before the last
/// position is not the last key; so dropping the last entry keeps exactly
/// the other keys.
proof fn lemma_last_key_absent_from_front(s: Seq<(Seq<char>, DepView)>, k: Seq<char>)
    requires
        s.len() > 0,
        forall|j1: int, j2: int| 0 <= j1 < j2 < s.len() ==> s[j1].0 != s[j2].0,
    ensures
        (exists|i: int| 0 <= i < s.drop_last().len() && s.drop_last()[i].0 == k) <==> ((exists|i: int|
            0 <= i < s.len() && s[i].0 == k) && k != s.last().0),
{
    if exists|i: int| 0 <= i < s.drop_last().len() && s.drop_last()[i].0 == k {
        let i = choose|i: int| 0 <= i < s.drop_last().len() && s.drop_last()[i].0 == k;
        assert(s[i].0 == k);
        assert(s[i].0 != s[s.len() - 1].0);
    }
    if (exists|i: int| 0 <= i < s.len() && s[i].0 == k) && k != s.last().0 {
        let i = choose|i: int| 0 <= i < s.len() && s[i].0 == k;
        assert(s[s.len() - 1].0 == s.last().0);
        assert(i < s.len() - 1);
        assert(s.drop_last()[i].0 == k);
    }
}

} // verus!
