//! The order of instance names: byte by byte over their UTF-8 encoding.

use vstd::prelude::*;
use vstd::string::*;
use vstd::utf8::encode_utf8;

verus! {

/// `a` and `b` agree on their first `i` bytes, and at position `i` either `a`
/// has ended and `b` has not, or `a` holds the smaller byte: position `i`
/// puts `a` before `b`.
pub open spec fn diverge_at(a: Seq<u8>, b: Seq<u8>, i: int) -> bool {
    &&& 0 <= i <= a.len()
    &&& i <= b.len()
    &&& forall|k: int| 0 <= k < i ==> a[k] == b[k]
    &&& i < b.len()
    &&& i < a.len() ==> a[i] < b[i]
}

/// `a` comes strictly before `b` in lexicographic order.
pub open spec fn bytes_before(a: Seq<u8>, b: Seq<u8>) -> bool {
    exists|i: int| diverge_at(a, b, i)
}

/// The name `a` comes strictly before the name `b`: their UTF-8 encodings are
/// compared byte by byte.
pub open spec fn name_before(a: Seq<char>, b: Seq<char>) -> bool {
    bytes_before(encode_utf8(a), encode_utf8(b))
}

/// No sequence comes before itself.
pub proof fn lemma_bytes_before_irreflexive(a: Seq<u8>)
    ensures
        !bytes_before(a, a),
{
}

/// The order is transitive.
pub proof fn lemma_bytes_before_transitive(a: Seq<u8>, b: Seq<u8>, c: Seq<u8>)
    requires
        bytes_before(a, b),
        bytes_before(b, c),
    ensures
        bytes_before(a, c),
{
    let i = choose|i: int| diverge_at(a, b, i);
    let j = choose|j: int| diverge_at(b, c, j);
    let m = if i <= j { i } else { j };
    assert(diverge_at(a, c, m));
}

/// Of two different sequences one comes before the other.
pub proof fn lemma_bytes_before_total(a: Seq<u8>, b: Seq<u8>)
    ensures
        bytes_before(a, b) || bytes_before(b, a) || a == b,
{
    if a =~= b {
    } else {
        let i = first_mismatch(a, b, 0);
        if i < a.len() && i < b.len() {
            if a[i] < b[i] {
                assert(diverge_at(a, b, i));
            } else {
                assert(diverge_at(b, a, i));
            }
        } else if i == a.len() && i < b.len() {
            assert(diverge_at(a, b, i));
        } else if i == b.len() && i < a.len() {
            assert(diverge_at(b, a, i));
        } else {
            assert(a =~= b);
        }
    }
}

/// The first position from `from` on at which `a` and `b` differ, or at which
/// one of them ends.
proof fn first_mismatch(a: Seq<u8>, b: Seq<u8>, from: int) -> (i: int)
    requires
        0 <= from <= a.len(),
        from <= b.len(),
        forall|k: int| 0 <= k < from ==> a[k] == b[k],
    ensures
        from <= i <= a.len(),
        i <= b.len(),
        forall|k: int| 0 <= k < i ==> a[k] == b[k],
        i < a.len() && i < b.len() ==> a[i] != b[i],
    decreases a.len() - from,
{
    if from < a.len() && from < b.len() && a[from] == b[from] {
        first_mismatch(a, b, from + 1)
    } else {
        from
    }
}

/// Whether the name `a` comes strictly before the name `b`.
pub fn comes_before(a: &str, b: &str) -> (r: bool)
    ensures
        r == name_before(a@, b@),
{
    let x = a.as_bytes();
    let y = b.as_bytes();
    let mut i: usize = 0;
    while i < x.len() && i < y.len()
        invariant
            i <= x.len(),
            i <= y.len(),
            x@ == encode_utf8(a@),
            y@ == encode_utf8(b@),
            forall|k: int| 0 <= k < i ==> x@[k] == y@[k],
        decreases x.len() - i,
    {
        if x[i] != y[i] {
            let r = x[i] < y[i];
            proof {
                if r {
                    assert(diverge_at(x@, y@, i as int));
                } else {
                    assert forall|j: int| !diverge_at(x@, y@, j) by {
                        if diverge_at(x@, y@, j) {
                            if j > i {
                                assert(x@[i as int] == y@[i as int]);
                            }
                        }
                    }
                }
            }
            return r;
        }
        i += 1;
    }
    let r = x.len() < y.len();
    proof {
        if r {
            assert(diverge_at(x@, y@, i as int));
        } else {
            assert forall|j: int| !diverge_at(x@, y@, j) by {
            }
        }
    }
    r
}

} // verus!
