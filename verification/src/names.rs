//! Particle names: equality, the lexicographic order on their UTF-8 bytes,
//! and the canonical order of the name tuples that identify an interaction.

use vstd::prelude::*;
use vstd::string::*;
use vstd::utf8::*;

verus! {

/// `a` and `b` agree on their first `k` bytes.
pub open spec fn common_prefix(a: Seq<u8>, b: Seq<u8>, k: int) -> bool {
    &&& 0 <= k <= a.len()
    &&& k <= b.len()
    &&& forall|i: int| 0 <= i < k ==> a[i] == b[i]
}

/// `a` comes strictly before `b` because of what happens at position `k`:
/// both agree before `k`, and there either `a` ends while `b` goes on, or
/// `a` holds the smaller byte.
pub open spec fn precedes_at(a: Seq<u8>, b: Seq<u8>, k: int) -> bool {
    &&& common_prefix(a, b, k)
    &&& k < b.len()
    &&& (k == a.len() || a[k] < b[k])
}

/// Strict lexicographic order on byte strings.
pub open spec fn bytes_lt(a: Seq<u8>, b: Seq<u8>) -> bool {
    exists|k: int| precedes_at(a, b, k)
}

/// Strict order on names: the lexicographic order of their UTF-8 encodings.
pub open spec fn name_lt(a: Seq<char>, b: Seq<char>) -> bool {
    bytes_lt(encode_utf8(a), encode_utf8(b))
}

/// The byte order is irreflexive and asymmetric.
pub proof fn lemma_bytes_lt_asymmetric(a: Seq<u8>, b: Seq<u8>)
    requires
        bytes_lt(a, b),
    ensures
        !bytes_lt(b, a),
        a != b,
{
    let k = choose|k: int| precedes_at(a, b, k);
    assert forall|m: int| !precedes_at(b, a, m) by {
        if precedes_at(b, a, m) {
            if m < k {
                assert(a[m] == b[m]);
            } else if m > k {
                assert(b[k] == a[k]);
            }
        }
    }
}

/// The byte order is total: two byte strings that are not ordered are equal.
pub proof fn lemma_bytes_lt_total(a: Seq<u8>, b: Seq<u8>)
    requires
        !bytes_lt(a, b),
        !bytes_lt(b, a),
    ensures
        a == b,
{
    lemma_agree_up_to(a, b, if a.len() <= b.len() { a.len() as int } else { b.len() as int });
    let n = if a.len() <= b.len() { a.len() as int } else { b.len() as int };
    if a.len() < b.len() {
        assert(precedes_at(a, b, n));
    } else if b.len() < a.len() {
        assert(precedes_at(b, a, n));
    }
    assert(a =~= b);
}

/// Two unordered byte strings agree on every prefix that both have.
proof fn lemma_agree_up_to(a: Seq<u8>, b: Seq<u8>, k: int)
    requires
        !bytes_lt(a, b),
        !bytes_lt(b, a),
        0 <= k <= a.len(),
        k <= b.len(),
    ensures
        common_prefix(a, b, k),
        common_prefix(b, a, k),
    decreases k,
{
    if k > 0 {
        lemma_agree_up_to(a, b, k - 1);
        if a[k - 1] < b[k - 1] {
            assert(precedes_at(a, b, k - 1));
        } else if b[k - 1] < a[k - 1] {
            assert(precedes_at(b, a, k - 1));
        }
    }
}

/// The byte order is transitive.
pub proof fn lemma_bytes_lt_transitive(a: Seq<u8>, b: Seq<u8>, c: Seq<u8>)
    requires
        bytes_lt(a, b),
        bytes_lt(b, c),
    ensures
        bytes_lt(a, c),
{
    let k = choose|k: int| precedes_at(a, b, k);
    let m = choose|m: int| precedes_at(b, c, m);
    if k <= m {
        assert(precedes_at(a, c, k));
    } else {
        assert(precedes_at(a, c, m));
    }
}

/// The order on names is a strict total order: of two names exactly one
/// comes first, unless they are the same name.
pub proof fn lemma_name_order(a: Seq<char>, b: Seq<char>)
    ensures
        name_lt(a, b) ==> !name_lt(b, a) && a != b,
        !name_lt(a, b) && !name_lt(b, a) ==> a == b,
{
    if name_lt(a, b) {
        lemma_bytes_lt_asymmetric(encode_utf8(a), encode_utf8(b));
    }
    if !name_lt(a, b) && !name_lt(b, a) {
        lemma_bytes_lt_total(encode_utf8(a), encode_utf8(b));
        encode_utf8_decode_utf8(a);
        encode_utf8_decode_utf8(b);
    }
}

/// Whether two byte slices hold the same bytes.
pub fn bytes_equal(a: &[u8], b: &[u8]) -> (same: bool)
    ensures
        same == (a@ == b@),
{
    if a.len() != b.len() {
        return false;
    }
    let mut i: usize = 0;
    while i < a.len()
        invariant
            a.len() == b.len(),
            common_prefix(a@, b@, i as int),
        decreases a.len() - i,
    {
        if a[i] != b[i] {
            return false;
        }
        i += 1;
    }
    assert(a@ =~= b@);
    true
}

/// Whether the bytes of `a` come strictly before those of `b`.
pub fn bytes_before(a: &[u8], b: &[u8]) -> (before: bool)
    ensures
        before == bytes_lt(a@, b@),
{
    let mut i: usize = 0;
    while i < a.len() && i < b.len()
        invariant
            common_prefix(a@, b@, i as int),
        decreases a.len() - i,
    {
        if a[i] != b[i] {
            proof {
                if a[i as int] < b[i as int] {
                    assert(precedes_at(a@, b@, i as int));
                } else {
                    assert(precedes_at(b@, a@, i as int));
                    lemma_bytes_lt_asymmetric(b@, a@);
                }
            }
            return a[i] < b[i];
        }
        i += 1;
    }
    proof {
        if a.len() < b.len() {
            assert(precedes_at(a@, b@, i as int));
        } else if b.len() < a.len() {
            assert(precedes_at(b@, a@, i as int));
            lemma_bytes_lt_asymmetric(b@, a@);
        } else {
            assert(a@ =~= b@);
            if bytes_lt(a@, b@) {
                lemma_bytes_lt_asymmetric(a@, b@);
            }
        }
    }
    a.len() < b.len()
}

/// Whether two names are the same.
pub fn same_name(a: &str, b: &str) -> (same: bool)
    ensures
        same == (a@ == b@),
{
    proof {
        encode_utf8_decode_utf8(a@);
        encode_utf8_decode_utf8(b@);
    }
    bytes_equal(a.as_bytes(), b.as_bytes())
}

/// Whether the name `a` comes strictly before the name `b`.
pub fn name_before(a: &str, b: &str) -> (before: bool)
    ensures
        before == name_lt(a@, b@),
{
    bytes_before(a.as_bytes(), b.as_bytes())
}

} // verus!
