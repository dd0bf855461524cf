//! The order in which identifiers sort: byte by byte over their UTF-8 encoding.

use vstd::prelude::*;
use vstd::utf8::encode_utf8;

verus! {

/// How one identifier stands to another in the sort order.
#[derive(Debug, Clone, Copy, PartialEq, Eq, Structural)]
pub enum Rank {
    Before,
    Same,
    After,
}

/// Whether `a` sorts strictly before `b`, looking only at positions from `from` on.
pub open spec fn bytes_less_from(a: Seq<u8>, b: Seq<u8>, from: int) -> bool
    decreases a.len() - from,
{
    if from >= b.len() {
        false
    } else if from >= a.len() {
        true
    } else if a[from] != b[from] {
        a[from] < b[from]
    } else {
        bytes_less_from(a, b, from + 1)
    }
}

/// Lexicographic order on byte strings.
pub open spec fn bytes_less(a: Seq<u8>, b: Seq<u8>) -> bool {
    bytes_less_from(a, b, 0)
}

/// Whether identifier `a` sorts strictly before identifier `b`.
pub open spec fn id_less(a: Seq<char>, b: Seq<char>) -> bool {
    bytes_less(encode_utf8(a), encode_utf8(b))
}

/// The rank of `a` relative to `b`.
pub open spec fn id_rank(a: Seq<char>, b: Seq<char>) -> Rank {
    if id_less(a, b) {
        Rank::Before
    } else if id_less(b, a) {
        Rank::After
    } else {
        Rank::Same
    }
}

pub proof fn lemma_bytes_less_irreflexive(a: Seq<u8>, from: int)
    requires
        0 <= from,
    ensures
        !bytes_less_from(a, a, from),
    decreases a.len() - from,
{
    if from < a.len() {
        lemma_bytes_less_irreflexive(a, from + 1);
    }
}

pub proof fn lemma_bytes_less_asymmetric(a: Seq<u8>, b: Seq<u8>, from: int)
    requires
        0 <= from,
        bytes_less_from(a, b, from),
    ensures
        !bytes_less_from(b, a, from),
    decreases a.len() - from,
{
    if from < a.len() && from < b.len() && a[from] == b[from] {
        lemma_bytes_less_asymmetric(a, b, from + 1);
    }
}

pub proof fn lemma_bytes_less_transitive(a: Seq<u8>, b: Seq<u8>, c: Seq<u8>, from: int)
    requires
        0 <= from,
        bytes_less_from(a, b, from),
        bytes_less_from(b, c, from),
    ensures
        bytes_less_from(a, c, from),
    decreases a.len() - from,
{
    if from < a.len() && from < b.len() && from < c.len() && a[from] == b[from] && b[from]
        == c[from] {
        lemma_bytes_less_transitive(a, b, c, from + 1);
    }
}

/// Two byte strings that agree before `from` and of which neither sorts before
/// the other from there on are the same string.
pub proof fn lemma_bytes_less_total(a: Seq<u8>, b: Seq<u8>, from: int)
    requires
        0 <= from <= a.len(),
        from <= b.len(),
        forall|k: int| 0 <= k < from ==> a[k] == b[k],
        !bytes_less_from(a, b, from),
        !bytes_less_from(b, a, from),
    ensures
        a == b,
    decreases a.len() - from,
{
    if from < a.len() && from < b.len() {
        lemma_bytes_less_total(a, b, from + 1);
    } else {
        assert(a =~= b);
    }
}

/// The order is transitive.
pub proof fn lemma_id_less_transitive(a: Seq<char>, b: Seq<char>, c: Seq<char>)
    requires
        id_less(a, b),
        id_less(b, c),
    ensures
        id_less(a, c),
{
    lemma_bytes_less_transitive(encode_utf8(a), encode_utf8(b), encode_utf8(c), 0);
}

/// Of two identifiers exactly one sorts first, unless they are the same identifier.
pub proof fn lemma_id_less_trichotomy(a: Seq<char>, b: Seq<char>)
    ensures
        id_less(a, b) ==> !id_less(b, a) && a != b,
        id_less(b, a) ==> a != b,
        !id_less(a, b) && !id_less(b, a) ==> a == b,
{
    let x = encode_utf8(a);
    let y = encode_utf8(b);
    lemma_bytes_less_irreflexive(x, 0);
    if bytes_less_from(x, y, 0) {
        lemma_bytes_less_asymmetric(x, y, 0);
    }
    if !bytes_less_from(x, y, 0) && !bytes_less_from(y, x, 0) {
        lemma_bytes_less_total(x, y, 0);
        vstd::utf8::encode_utf8_decode_utf8(a);
        vstd::utf8::encode_utf8_decode_utf8(b);
    }
}

/// Ranks two identifiers as sorting them would.
pub fn rank_ids(a: &str, b: &str) -> (r: Rank)
    ensures
        r == id_rank(a@, b@),
        r == Rank::Same <==> a@ == b@,
{
    let x = a.as_bytes();
    let y = b.as_bytes();
    let ghost xs = encode_utf8(a@);
    let ghost ys = encode_utf8(b@);
    let mut i: usize = 0;
    while i < x.len() && i < y.len()
        invariant
            x@ == xs,
            y@ == ys,
            xs == encode_utf8(a@),
            ys == encode_utf8(b@),
            i <= xs.len(),
            i <= ys.len(),
            forall|k: int| 0 <= k < i ==> xs[k] == ys[k],
            bytes_less_from(xs, ys, 0) == bytes_less_from(xs, ys, i as int),
            bytes_less_from(ys, xs, 0) == bytes_less_from(ys, xs, i as int),
        decreases xs.len() - i,
    {
        if x[i] < y[i] {
            proof {
                lemma_id_less_trichotomy(a@, b@);
            }
            return Rank::Before;
        }
        if y[i] < x[i] {
            proof {
                lemma_id_less_trichotomy(a@, b@);
            }
            return Rank::After;
        }
        i += 1;
    }
    proof {
        lemma_id_less_trichotomy(a@, b@);
    }
    if i < y.len() {
        Rank::Before
    } else if i < x.len() {
        Rank::After
    } else {
        Rank::Same
    }
}

} // verus!
