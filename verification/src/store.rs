//! The documentation store: one normalized documentation set, tagged with
//! its source kind, serving key listing, prefix search, substring search and
//! an atomic refresh.

use vstd::prelude::*;
use crate::docs::{DocView, OptionDocumentation};
use crate::errors::Errors;
use crate::jsonval::parsed_json;
use crate::normalize::{norm_doc, try_from_slice};
use crate::strutil::{
    is_prefix_insensitive, is_substring_insensitive, lemma_prefix_implies_substring, lower,
    prefix_matches, substring_matches,
};

verus! {

/// Which of the two source schemas a store was built from.
#[derive(Debug, Copy, Clone, PartialEq, Eq, Structural)]
pub enum OptionsDatabaseType {
    NixOS,
    HomeManager,
}

/// One search result: a canonical record together with the kind of the store
/// it came from.
#[derive(Debug, PartialEq, Eq)]
pub enum DocEntry {
    OptionDoc(OptionsDatabaseType, OptionDocumentation),
}

impl View for DocEntry {
    type V = (OptionsDatabaseType, DocView);

    open spec fn view(&self) -> (OptionsDatabaseType, DocView) {
        match self {
            DocEntry::OptionDoc(typ, doc) => (*typ, doc@),
        }
    }
}

/// An in-memory documentation set: a mapping from option name to canonical
/// record, tagged with its source kind. The mapping is only ever replaced
/// wholesale, by a successful refresh.
#[derive(Debug)]
pub struct OptionsDatabase {
    pub typ: OptionsDatabaseType,
    pub options: Vec<(String, OptionDocumentation)>,
}

/// The entries whose key satisfies the predicate, in order, each record
/// paired with the store's kind.
pub open spec fn filtered(
    opts: Seq<(String, OptionDocumentation)>,
    typ: OptionsDatabaseType,
    pred: spec_fn(Seq<char>) -> bool,
) -> Seq<(OptionsDatabaseType, DocView)>
    decreases opts.len(),
{
    if opts.len() == 0 {
        Seq::empty()
    } else {
        let rest = filtered(opts.drop_last(), typ, pred);
        if pred(opts.last().0@) {
            rest.push((typ, opts.last().1@))
        } else {
            rest
        }
    }
}

/// What a prefix search answers.
pub open spec fn search_results(
    opts: Seq<(String, OptionDocumentation)>,
    typ: OptionsDatabaseType,
    query: Seq<char>,
) -> Seq<(OptionsDatabaseType, DocView)> {
    filtered(opts, typ, |k: Seq<char>| prefix_matches(query, k))
}

/// What a substring search answers.
pub open spec fn liberal_results(
    opts: Seq<(String, OptionDocumentation)>,
    typ: OptionsDatabaseType,
    query: Seq<char>,
) -> Seq<(OptionsDatabaseType, DocView)> {
    filtered(opts, typ, |k: Seq<char>| substring_matches(query, k))
}

/// The set of keys the entries hold.
pub open spec fn key_set(opts: Seq<(String, OptionDocumentation)>) -> Set<Seq<char>> {
    Set::new(|k: Seq<char>| exists|i: int| 0 <= i < opts.len() && (#[trigger] opts[i]).0@ == k)
}

/// Filtering with a weaker predicate keeps every entry: whatever the first
/// filter lets through, the second does too.
proof fn lemma_filtered_subset(
    opts: Seq<(String, OptionDocumentation)>,
    typ: OptionsDatabaseType,
    p1: spec_fn(Seq<char>) -> bool,
    p2: spec_fn(Seq<char>) -> bool,
)
    requires
        forall|k: Seq<char>| #[trigger] p1(k) ==> p2(k),
    ensures
        forall|e: (OptionsDatabaseType, DocView)|
            filtered(opts, typ, p1).contains(e) ==> filtered(opts, typ, p2).contains(e),
    decreases opts.len(),
{
    if opts.len() > 0 {
        lemma_filtered_subset(opts.drop_last(), typ, p1, p2);
        assert forall|e: (OptionsDatabaseType, DocView)|
            filtered(opts, typ, p1).contains(e) implies filtered(opts, typ, p2).contains(e) by {
            let r1 = filtered(opts.drop_last(), typ, p1);
            let r2 = filtered(opts.drop_last(), typ, p2);
            let f1 = filtered(opts, typ, p1);
            let f2 = filtered(opts, typ, p2);
            let idx = choose|idx: int| 0 <= idx < f1.len() && f1[idx] == e;
            if p1(opts.last().0@) && idx == r1.len() {
                assert(e == (typ, opts.last().1@));
                assert(p2(opts.last().0@));
                assert(f2[f2.len() - 1] == e);
            } else {
                assert(r1[idx] == e);
                assert(r1.contains(e));
                assert(r2.contains(e));
                let idx2 = choose|idx2: int| 0 <= idx2 < r2.len() && r2[idx2] == e;
                assert(f2[idx2] == e);
            }
        }
    }
}

/// Two filters that agree on every key filter alike.
proof fn lemma_filtered_congruent(
    opts: Seq<(String, OptionDocumentation)>,
    typ: OptionsDatabaseType,
    p1: spec_fn(Seq<char>) -> bool,
    p2: spec_fn(Seq<char>) -> bool,
)
    requires
        forall|k: Seq<char>| #[trigger] p1(k) == p2(k),
    ensures
        filtered(opts, typ, p1) == filtered(opts, typ, p2),
    decreases opts.len(),
{
    if opts.len() > 0 {
        lemma_filtered_congruent(opts.drop_last(), typ, p1, p2);
        assert(p1(opts.last().0@) == p2(opts.last().0@));
    }
}

/// Prefix search is a subset of liberal search: every entry that `search`
/// answers for a query, `search_liberal` answers for it as well.
pub proof fn lemma_search_subset_of_liberal(
    opts: Seq<(String, OptionDocumentation)>,
    typ: OptionsDatabaseType,
    query: Seq<char>,
)
    ensures
        forall|e: (OptionsDatabaseType, DocView)|
            search_results(opts, typ, query).contains(e) ==> liberal_results(
                opts,
                typ,
                query,
            ).contains(e),
{
    assert forall|k: Seq<char>| #[trigger] prefix_matches(query, k) implies substring_matches(
        query,
        k,
    ) by {
        lemma_prefix_implies_substring(query, k);
    }
    lemma_filtered_subset(
        opts,
        typ,
        |k: Seq<char>| prefix_matches(query, k),
        |k: Seq<char>| substring_matches(query, k),
    );
}

/// Case insensitivity: two queries that agree after ASCII lowering answer
/// alike, for the prefix search and for the liberal search.
pub proof fn lemma_search_case_insensitive(
    opts: Seq<(String, OptionDocumentation)>,
    typ: OptionsDatabaseType,
    q1: Seq<char>,
    q2: Seq<char>,
)
    requires
        lower(q1) == lower(q2),
    ensures
        search_results(opts, typ, q1) == search_results(opts, typ, q2),
        liberal_results(opts, typ, q1) == liberal_results(opts, typ, q2),
{
    lemma_filtered_congruent(
        opts,
        typ,
        |k: Seq<char>| prefix_matches(q1, k),
        |k: Seq<char>| prefix_matches(q2, k),
    );
    assert forall|k: Seq<char>| #[trigger] substring_matches(q1, k) == substring_matches(
        q2,
        k,
    ) by {
        assert(q1.len() == lower(q1).len());
        assert(q2.len() == lower(q2).len());
    }
    lemma_filtered_congruent(
        opts,
        typ,
        |k: Seq<char>| substring_matches(q1, k),
        |k: Seq<char>| substring_matches(q2, k),
    );
}

/// An empty query matches every record: the prefix search answers exactly
/// one entry per record of the store, in order.
pub proof fn lemma_empty_query_matches_all(
    opts: Seq<(String, OptionDocumentation)>,
    typ: OptionsDatabaseType,
)
    ensures
        search_results(opts, typ, Seq::empty()).len() == opts.len(),
    decreases opts.len(),
{
    if opts.len() > 0 {
        lemma_empty_query_matches_all(opts.drop_last(), typ);
        assert(lower(Seq::empty()) =~= lower(opts.last().0@).subrange(0, 0));
        assert(prefix_matches(Seq::empty(), opts.last().0@));
    }
}

impl OptionsDatabase {
    /// An empty store of the given kind.
    pub fn new(typ: OptionsDatabaseType) -> (r: Self)
        ensures
            r.typ == typ,
            r.options@.len() == 0,
    {
        OptionsDatabase { typ, options: Vec::new() }
    }

    /// Every option name currently held, in the mapping's own order.
    pub fn all_keys(&self) -> (r: Vec<String>)
        ensures
            r@.len() == self.options@.len(),
            forall|i: int|
                0 <= i < self.options@.len() ==> (#[trigger] r@[i])@ == self.options@[i].0@,
    {
        let mut r: Vec<String> = Vec::new();
        let mut i: usize = 0;
        while i < self.options.len()
            invariant
                0 <= i <= self.options@.len(),
                r@.len() == i,
                forall|j: int| 0 <= j < i ==> (#[trigger] r@[j])@ == self.options@[j].0@,
            decreases self.options@.len() - i,
        {
            r.push(self.options[i].0.clone());
            i += 1;
        }
        r
    }

    /// Every record whose name starts with the query, case-insensitively,
    /// each paired with this store's kind, in the mapping's own order.
    pub fn search(&self, query: &str) -> (r: Vec<DocEntry>)
        ensures
            r@.map_values(|e: DocEntry| e@) == search_results(self.options@, self.typ, query@),
    {
        let mut r: Vec<DocEntry> = Vec::new();
        let mut i: usize = 0;
        proof {
            assert(self.options@.subrange(0, 0) =~= Seq::<(String, OptionDocumentation)>::empty());
            assert(r@.map_values(|e: DocEntry| e@) =~= search_results(
                self.options@.subrange(0, 0),
                self.typ,
                query@,
            ));
        }
        while i < self.options.len()
            invariant
                0 <= i <= self.options@.len(),
                r@.map_values(|e: DocEntry| e@) == search_results(
                    self.options@.subrange(0, i as int),
                    self.typ,
                    query@,
                ),
            decreases self.options@.len() - i,
        {
            let ghost pre = self.options@.subrange(0, i as int);
            let ghost cur = self.options@.subrange(0, i + 1);
            proof {
                assert(cur.drop_last() =~= pre);
                assert(cur.last() == self.options@[i as int]);
            }
            if is_prefix_insensitive(query, self.options[i].0.as_str()) {
                let entry = DocEntry::OptionDoc(self.typ, self.options[i].1.clone());
                r.push(entry);
                proof {
                    assert(r@.map_values(|e: DocEntry| e@) =~= search_results(
                        cur,
                        self.typ,
                        query@,
                    ));
                }
            }
            i += 1;
        }
        proof {
            assert(self.options@.subrange(0, self.options@.len() as int) =~= self.options@);
        }
        r
    }

    /// Every record whose name holds the query somewhere, case-insensitively,
    /// each paired with this store's kind, in the mapping's own order.
    pub fn search_liberal(&self, query: &str) -> (r: Vec<DocEntry>)
        ensures
            r@.map_values(|e: DocEntry| e@) == liberal_results(self.options@, self.typ, query@),
    {
        let mut r: Vec<DocEntry> = Vec::new();
        let mut i: usize = 0;
        proof {
            assert(self.options@.subrange(0, 0) =~= Seq::<(String, OptionDocumentation)>::empty());
            assert(r@.map_values(|e: DocEntry| e@) =~= liberal_results(
                self.options@.subrange(0, 0),
                self.typ,
                query@,
            ));
        }
        while i < self.options.len()
            invariant
                0 <= i <= self.options@.len(),
                r@.map_values(|e: DocEntry| e@) == liberal_results(
                    self.options@.subrange(0, i as int),
                    self.typ,
                    query@,
                ),
            decreases self.options@.len() - i,
        {
            let ghost pre = self.options@.subrange(0, i as int);
            let ghost cur = self.options@.subrange(0, i + 1);
            proof {
                assert(cur.drop_last() =~= pre);
                assert(cur.last() == self.options@[i as int]);
            }
            if is_substring_insensitive(query, self.options[i].0.as_str()) {
                let entry = DocEntry::OptionDoc(self.typ, self.options[i].1.clone());
                r.push(entry);
                proof {
                    assert(r@.map_values(|e: DocEntry| e@) =~= liberal_results(
                        cur,
                        self.typ,
                        query@,
                    ));
                }
            }
            i += 1;
        }
        proof {
            assert(self.options@.subrange(0, self.options@.len() as int) =~= self.options@);
        }
        r
    }

    /// Replaces the whole mapping with what the bytes normalize to, and
    /// answers whether the set of keys is unchanged; on failure the error is
    /// passed on and the store is left exactly as it was.
    pub fn refresh_from_slice(&mut self, bytes: &[u8]) -> (r: Result<bool, Errors>)
        ensures
            final(self).typ == old(self).typ,
            match r {
                Ok(same) => {
                    &&& parsed_json(bytes@) matches Some(j)
                    &&& norm_doc(j) matches Some(s)
                    &&& final(self).options@.len() == s.len()
                    &&& forall|i: int|
                        0 <= i < s.len() ==> (#[trigger] final(self).options@[i]).0@ == s[i].0
                            && final(self).options@[i].1@ == s[i].1
                    &&& same == (key_set(old(self).options@) =~= key_set(final(self).options@))
                },
                Err(e) => {
                    &&& *final(self) == *old(self)
                    &&& e is ParseError
                    &&& match parsed_json(bytes@) {
                        Some(j) => norm_doc(j) is None,
                        None => true,
                    }
                },
            },
    {
        let opts = match try_from_slice(bytes) {
            Err(e) => {
                return Err(e);
            },
            Ok(opts) => opts,
        };
        let same = key_sets_equal(&self.options, &opts);
        self.options = opts;
        Ok(same)
    }
}

/// Whether the entries hold the key.
fn holds_key(opts: &Vec<(String, OptionDocumentation)>, key: &str) -> (r: bool)
    ensures
        r == key_set(opts@).contains(key@),
{
    let mut i: usize = 0;
    while i < opts.len()
        invariant
            0 <= i <= opts@.len(),
            forall|j: int| 0 <= j < i ==> (#[trigger] opts@[j]).0@ != key@,
        decreases opts@.len() - i,
    {
        if crate::strutil::str_eq(opts[i].0.as_str(), key) {
            return true;
        }
        i += 1;
    }
    false
}

/// Whether two entry sequences hold the same set of keys.
fn key_sets_equal(
    a: &Vec<(String, OptionDocumentation)>,
    b: &Vec<(String, OptionDocumentation)>,
) -> (r: bool)
    ensures
        r == (key_set(a@) =~= key_set(b@)),
{
    let mut i: usize = 0;
    while i < a.len()
        invariant
            0 <= i <= a@.len(),
            forall|j: int| 0 <= j < i ==> key_set(b@).contains((#[trigger] a@[j]).0@),
        decreases a@.len() - i,
    {
        if !holds_key(b, a[i].0.as_str()) {
            proof {
                assert(key_set(a@).contains(a@[i as int].0@));
            }
            return false;
        }
        i += 1;
    }
    let mut j: usize = 0;
    while j < b.len()
        invariant
            0 <= j <= b@.len(),
            forall|k: int| 0 <= k < a@.len() ==> key_set(b@).contains((#[trigger] a@[k]).0@),
            forall|k: int| 0 <= k < j ==> key_set(a@).contains((#[trigger] b@[k]).0@),
        decreases b@.len() - j,
    {
        if !holds_key(a, b[j].0.as_str()) {
            proof {
                assert(key_set(b@).contains(b@[j as int].0@));
            }
            return false;
        }
        j += 1;
    }
    proof {
        assert forall|k: Seq<char>| key_set(a@).contains(k) implies key_set(b@).contains(k) by {
            let i0 = choose|i0: int| 0 <= i0 < a@.len() && (#[trigger] a@[i0]).0@ == k;
            assert(key_set(b@).contains(a@[i0].0@));
        }
        assert forall|k: Seq<char>| key_set(b@).contains(k) implies key_set(a@).contains(k) by {
            let j0 = choose|j0: int| 0 <= j0 < b@.len() && (#[trigger] b@[j0]).0@ == k;
            assert(key_set(a@).contains(b@[j0].0@));
        }
    }
    true
}

} // verus!
