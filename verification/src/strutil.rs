//! Case-insensitive ASCII matching on character sequences, and joining of
//! path segments into a dotted option name.

use vstd::prelude::*;
use vstd::string::StrSliceExecFns;

verus! {

/// ASCII lower-casing of one character: `'A'..='Z'` map to `'a'..='z'`,
/// every other character is unchanged.
pub open spec fn lower_char(c: char) -> char {
    if 'A' <= c && c <= 'Z' {
        (((c as u8) + 32) as char)
    } else {
        c
    }
}

/// ASCII lower-casing of a whole character sequence.
pub open spec fn lower(s: Seq<char>) -> Seq<char> {
    s.map_values(|c: char| lower_char(c))
}

/// The query matches the key as a prefix: after ASCII-lowercasing both
/// sides, the query is a leading part of the key.
pub open spec fn prefix_matches(query: Seq<char>, key: Seq<char>) -> bool {
    lower(query).is_prefix_of(lower(key))
}

/// The query matches the key as a substring: after ASCII-lowercasing both
/// sides, the query occurs somewhere in the key.
pub open spec fn substring_matches(query: Seq<char>, key: Seq<char>) -> bool {
    exists|i: int|
        0 <= i && i + query.len() <= key.len() && #[trigger] lower(key).subrange(
            i,
            i + query.len(),
        ) == lower(query)
}

/// A prefix match is in particular a substring match, at position zero.
pub proof fn lemma_prefix_implies_substring(query: Seq<char>, key: Seq<char>)
    ensures
        prefix_matches(query, key) ==> substring_matches(query, key),
{
    if prefix_matches(query, key) {
        assert(lower(query).len() == query.len());
        assert(lower(key).len() == key.len());
        let i: int = 0;
        assert(lower(key).subrange(i, i + query.len()) =~= lower(key).subrange(
            0,
            lower(query).len() as int,
        ));
        assert(lower(key).subrange(i, i + query.len()) == lower(query));
    }
}

/// Lowering a sequence twice is the same as lowering it once, so a query
/// already in lower case matches exactly as its original does.
pub proof fn lemma_lower_idempotent(s: Seq<char>)
    ensures
        lower(lower(s)) == lower(s),
{
    assert forall|i: int| 0 <= i < s.len() implies lower_char(lower_char(s[i])) == lower_char(
        s[i],
    ) by {}
    assert(lower(lower(s)) =~= lower(s));
}

/// Executable ASCII lower-casing of one character.
pub fn lower_char_exec(c: char) -> (r: char)
    ensures
        r == lower_char(c),
{
    if 'A' <= c && c <= 'Z' {
        ((c as u8) + 32) as char
    } else {
        c
    }
}

/// Whether two string slices hold the same characters.
pub fn str_eq(a: &str, b: &str) -> (r: bool)
    ensures
        r == (a@ == b@),
{
    let an = a.unicode_len();
    let bn = b.unicode_len();
    if an != bn {
        return false;
    }
    let mut i: usize = 0;
    while i < an
        invariant
            0 <= i <= an,
            an == a@.len(),
            an == b@.len(),
            forall|j: int| 0 <= j < i ==> a@[j] == b@[j],
        decreases an - i,
    {
        if a.get_char(i) != b.get_char(i) {
            return false;
        }
        i += 1;
    }
    proof {
        assert(a@ =~= b@);
    }
    true
}

/// Whether the query is a case-insensitive prefix of the key.
pub fn is_prefix_insensitive(query: &str, key: &str) -> (r: bool)
    ensures
        r == prefix_matches(query@, key@),
{
    let qn = query.unicode_len();
    let kn = key.unicode_len();
    if qn > kn {
        return false;
    }
    let mut i: usize = 0;
    while i < qn
        invariant
            0 <= i <= qn,
            qn == query@.len(),
            kn == key@.len(),
            qn <= kn,
            forall|j: int| 0 <= j < i ==> lower_char(query@[j]) == lower_char(key@[j]),
        decreases qn - i,
    {
        if lower_char_exec(query.get_char(i)) != lower_char_exec(key.get_char(i)) {
            proof {
                assert(lower(query@)[i as int] != lower(key@).subrange(0, qn as int)[i as int]);
            }
            return false;
        }
        i += 1;
    }
    proof {
        assert(lower(query@) =~= lower(key@).subrange(0, qn as int));
    }
    true
}

/// Whether the query matches at the given position of the key, after
/// ASCII-lowercasing both sides.
fn matches_at(query: &str, key: &str, at: usize) -> (r: bool)
    requires
        at + query@.len() <= key@.len(),
    ensures
        r == (lower(key@).subrange(at as int, at + query@.len()) == lower(query@)),
{
    let qn = query.unicode_len();
    let kn = key.unicode_len();
    let mut i: usize = 0;
    while i < qn
        invariant
            0 <= i <= qn,
            qn == query@.len(),
            kn == key@.len(),
            at + qn <= kn,
            forall|j: int| 0 <= j < i ==> lower_char(query@[j]) == lower_char(key@[at + j]),
        decreases qn - i,
    {
        if lower_char_exec(query.get_char(i)) != lower_char_exec(key.get_char(at + i)) {
            proof {
                assert(lower(key@).subrange(at as int, at + qn)[i as int] != lower(query@)[
                    i as int]);
            }
            return false;
        }
        i += 1;
    }
    proof {
        assert(lower(key@).subrange(at as int, at + qn) =~= lower(query@));
    }
    true
}

/// Whether the query is a case-insensitive substring of the key.
pub fn is_substring_insensitive(query: &str, key: &str) -> (r: bool)
    ensures
        r == substring_matches(query@, key@),
{
    let qn = query.unicode_len();
    let kn = key.unicode_len();
    if qn > kn {
        return false;
    }
    if qn == 0 {
        proof {
            let i: int = 0;
            assert(lower(key@).subrange(i, i + query@.len()) =~= lower(query@));
        }
        return true;
    }
    let mut at: usize = 0;
    while at <= kn - qn
        invariant
            0 <= at <= kn - qn + 1,
            1 <= qn <= kn,
            qn == query@.len(),
            kn == key@.len(),
            forall|i: int|
                0 <= i < at ==> #[trigger] lower(key@).subrange(i, i + query@.len()) != lower(
                    query@,
                ),
        decreases kn - qn + 1 - at,
    {
        if matches_at(query, key, at) {
            return true;
        }
        at += 1;
    }
    false
}

/// The segments joined with a dot between each two neighbours.
pub open spec fn joined(segs: Seq<Seq<char>>) -> Seq<char>
    decreases segs.len(),
{
    if segs.len() == 0 {
        Seq::empty()
    } else if segs.len() == 1 {
        segs[0]
    } else {
        joined(segs.drop_last()) + seq!['.'] + segs.last()
    }
}

/// Joins the segments with `"."`, as `location` segments form a dotted
/// option name.
pub fn join_dotted(segs: &Vec<String>) -> (r: String)
    ensures
        r@ == joined(segs.deep_view()),
{
    let mut out = String::new();
    let mut i: usize = 0;
    proof {
        reveal_strlit(".");
        assert(segs.deep_view().subrange(0, 0) =~= Seq::<Seq<char>>::empty());
    }
    while i < segs.len()
        invariant
            0 <= i <= segs@.len(),
            segs.deep_view().len() == segs@.len(),
            forall|j: int| 0 <= j < segs@.len() ==> segs.deep_view()[j] == segs@[j]@,
            "."@ == seq!['.'],
            out@ == joined(segs.deep_view().subrange(0, i as int)),
        decreases segs@.len() - i,
    {
        if i > 0 {
            out.append(".");
        }
        out.append(segs[i].as_str());
        proof {
            let pre = segs.deep_view().subrange(0, i as int);
            let cur = segs.deep_view().subrange(0, i + 1);
            assert(cur.drop_last() =~= pre);
            assert(cur.last() == segs.deep_view()[i as int]);
        }
        i += 1;
    }
    proof {
        assert(segs.deep_view().subrange(0, segs@.len() as int) =~= segs.deep_view());
    }
    out
}

} // verus!
