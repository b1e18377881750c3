//! The order in which a snapshot is stored: descending launch count, then
//! ascending title.
use vstd::multiset::Multiset;
use vstd::prelude::*;
use vstd::utf8::encode_utf8;

use crate::record::CachedAppDescriptor;

verus! {

broadcast use {
    vstd::seq_lib::group_to_multiset_ensures,
    vstd::multiset::group_multiset_axioms,
    vstd::multiset::lemma_multiset_empty_len,
};

/// Lexicographic order on byte strings, a prefix first.
pub open spec fn bytes_le(a: Seq<u8>, b: Seq<u8>) -> bool
    decreases a.len(),
{
    if a.len() == 0 {
        true
    } else if b.len() == 0 {
        false
    } else if a[0] != b[0] {
        a[0] < b[0]
    } else {
        bytes_le(a.drop_first(), b.drop_first())
    }
}

/// Titles are ordered as `str` orders them: by their UTF-8 bytes.
pub open spec fn title_le(a: Seq<char>, b: Seq<char>) -> bool {
    bytes_le(encode_utf8(a), encode_utf8(b))
}

/// `a` may be stored before `b`: it was launched more often, or as often with
/// a title that does not sort after `b`'s.
pub open spec fn precedes(a: CachedAppDescriptor, b: CachedAppDescriptor) -> bool {
    a.exec_count > b.exec_count || (a.exec_count == b.exec_count && title_le(a.title@, b.title@))
}

/// A snapshot in stored order.
pub open spec fn is_ranked(s: Seq<CachedAppDescriptor>) -> bool {
    forall|i: int, j: int| 0 <= i < j < s.len() ==> precedes(#[trigger] s[i], #[trigger] s[j])
}

proof fn lemma_bytes_le_total(a: Seq<u8>, b: Seq<u8>)
    ensures
        bytes_le(a, b) || bytes_le(b, a),
    decreases a.len(),
{
    if a.len() > 0 && b.len() > 0 && a[0] == b[0] {
        lemma_bytes_le_total(a.drop_first(), b.drop_first());
    }
}

proof fn lemma_bytes_le_transitive(a: Seq<u8>, b: Seq<u8>, c: Seq<u8>)
    requires
        bytes_le(a, b),
        bytes_le(b, c),
    ensures
        bytes_le(a, c),
    decreases a.len(),
{
    if a.len() > 0 && b.len() > 0 && c.len() > 0 && a[0] == b[0] && b[0] == c[0] {
        lemma_bytes_le_transitive(a.drop_first(), b.drop_first(), c.drop_first());
    }
}

proof fn lemma_precedes_total(a: CachedAppDescriptor, b: CachedAppDescriptor)
    ensures
        precedes(a, b) || precedes(b, a),
{
    lemma_bytes_le_total(encode_utf8(a.title@), encode_utf8(b.title@));
}

proof fn lemma_precedes_transitive(a: CachedAppDescriptor, b: CachedAppDescriptor, c: CachedAppDescriptor)
    requires
        precedes(a, b),
        precedes(b, c),
    ensures
        precedes(a, c),
{
    if a.exec_count == b.exec_count && b.exec_count == c.exec_count {
        lemma_bytes_le_transitive(
            encode_utf8(a.title@),
            encode_utf8(b.title@),
            encode_utf8(c.title@),
        );
    }
}

fn title_le_exec(a: &String, b: &String) -> (r: bool)
    ensures
        r == title_le(a@, b@),
{
    let x = a.as_str().as_bytes();
    let y = b.as_str().as_bytes();
    let mut i: usize = 0;
    assert(x@.skip(0) =~= x@);
    assert(y@.skip(0) =~= y@);
    while i < x.len() && i < y.len()
        invariant
            x@ == encode_utf8(a@),
            y@ == encode_utf8(b@),
            0 <= i <= x@.len(),
            i <= y@.len(),
            bytes_le(x@, y@) == bytes_le(x@.skip(i as int), y@.skip(i as int)),
        decreases x@.len() - i,
    {
        if x[i] != y[i] {
            return x[i] < y[i];
        }
        assert(x@.skip(i as int).drop_first() =~= x@.skip(i + 1));
        assert(y@.skip(i as int).drop_first() =~= y@.skip(i + 1));
        i = i + 1;
    }
    i == x.len()
}

fn precedes_exec(a: &CachedAppDescriptor, b: &CachedAppDescriptor) -> (r: bool)
    ensures
        r == precedes(*a, *b),
{
    a.exec_count > b.exec_count || (a.exec_count == b.exec_count && title_le_exec(
        &a.title,
        &b.title,
    ))
}

/// Puts a snapshot in stored order: descending launch count, then ascending title.
pub fn sort_snapshot(records: Vec<CachedAppDescriptor>) -> (r: Vec<CachedAppDescriptor>)
    ensures
        is_ranked(r@),
        r@.to_multiset() == records@.to_multiset(),
{
    let mut rest = records;
    let mut out: Vec<CachedAppDescriptor> = Vec::new();
    assert(out@.to_multiset() =~= Multiset::empty());
    while rest.len() > 0
        invariant
            is_ranked(out@),
            out@.to_multiset().add(rest@.to_multiset()) == records@.to_multiset(),
        decreases rest.len(),
    {
        let ghost before = rest@;
        let x = rest.pop().unwrap();
        assert(before =~= rest@.push(x));
        let mut j: usize = 0;
        while j < out.len() && precedes_exec(&out[j], &x)
            invariant
                0 <= j <= out@.len(),
                forall|k: int| 0 <= k < j ==> precedes(#[trigger] out@[k], x),
            decreases out@.len() - j,
        {
            j = j + 1;
        }
        let ghost prev = out@;
        proof {
            if j < prev.len() {
                lemma_precedes_total(prev[j as int], x);
                assert forall|k: int| j <= k < prev.len() implies precedes(x, #[trigger] prev[k]) by {
                    if k > j {
                        lemma_precedes_transitive(x, prev[j as int], prev[k]);
                    }
                }
            }
        }
        out.insert(j, x);
        assert(out@ == prev.insert(j as int, x));
        assert forall|a: int, b: int| 0 <= a < b < out@.len() implies precedes(
            #[trigger] out@[a],
            #[trigger] out@[b],
        ) by {
            if b < j {
            } else if a < j && b == j {
            } else if a < j {
                assert(precedes(prev[a], x));
                assert(precedes(x, prev[b - 1]));
                lemma_precedes_transitive(prev[a], x, prev[b - 1]);
            } else if a == j {
            } else {
            }
        }
    }
    assert(rest@.to_multiset() =~= Multiset::empty());
    out
}


/// In a snapshot in stored order, each record is followed by one launched
/// less often, or as often with a title that does not sort before its own.
pub proof fn lemma_ranked_neighbours(s: Seq<CachedAppDescriptor>)
    requires
        is_ranked(s),
    ensures
        forall|i: int|
            0 <= i < s.len() - 1 ==> #[trigger] s[i].exec_count > s[i + 1].exec_count || (
            s[i].exec_count == s[i + 1].exec_count && title_le(s[i].title@, s[i + 1].title@)),
{
    assert forall|i: int| 0 <= i < s.len() - 1 implies #[trigger] s[i].exec_count > s[i
        + 1].exec_count || (s[i].exec_count == s[i + 1].exec_count && title_le(
        s[i].title@,
        s[i + 1].title@,
    )) by {
        assert(precedes(s[i], s[i + 1]));
    }
}

} // verus!
