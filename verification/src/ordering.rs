//! The order of committed receipts: by parachain first, by head data second.
//!
//! The order looks at nothing else, so two receipts that differ elsewhere can
//! stand at the same place in it.

use vstd::prelude::*;
use std::cmp::Ordering;
use crate::receipt::{CommittedCandidateReceiptV2, CommittedReceiptView};

verus! {

/// How two byte strings compare when the first byte that differs decides and a
/// string stands before every longer string that starts with it: -1 where `a`
/// comes first, 1 where `b` does, 0 where they are equal.
pub open spec fn bytes_order(a: Seq<u8>, b: Seq<u8>) -> int
    decreases a.len(),
{
    if a.len() == 0 && b.len() == 0 {
        0
    } else if a.len() == 0 {
        -1
    } else if b.len() == 0 {
        1
    } else if a[0] < b[0] {
        -1
    } else if a[0] > b[0] {
        1
    } else {
        bytes_order(a.skip(1), b.skip(1))
    }
}

/// How two receipts compare: by the number of the parachain, and for the same
/// parachain by the bytes of the head data.
pub open spec fn receipt_order(a: CommittedReceiptView, b: CommittedReceiptView) -> int {
    if a.descriptor.para_id.0 < b.descriptor.para_id.0 {
        -1
    } else if a.descriptor.para_id.0 > b.descriptor.para_id.0 {
        1
    } else {
        bytes_order(a.commitments.head_data, b.commitments.head_data)
    }
}

/// Byte strings compare as equal exactly when they are the same.
pub proof fn lemma_bytes_order_equal(a: Seq<u8>, b: Seq<u8>)
    ensures
        -1 <= bytes_order(a, b) <= 1,
        bytes_order(a, b) == 0 <==> a == b,
    decreases a.len(),
{
    if a.len() > 0 && b.len() > 0 && a[0] == b[0] {
        lemma_bytes_order_equal(a.skip(1), b.skip(1));
        if a.skip(1) == b.skip(1) {
            assert forall|i: int| 0 <= i < a.len() implies a[i] == b[i] by {
                if i > 0 {
                    assert(a.skip(1)[i - 1] == b.skip(1)[i - 1]);
                }
            }
            assert(a.len() == b.len()) by {
                assert(a.skip(1).len() == b.skip(1).len());
            }
            assert(a =~= b);
        }
    } else if a.len() == 0 && b.len() == 0 {
        assert(a =~= b);
    }
}

/// Turning two byte strings round turns their order round.
pub proof fn lemma_bytes_order_antisymmetric(a: Seq<u8>, b: Seq<u8>)
    ensures
        bytes_order(b, a) == -bytes_order(a, b),
    decreases a.len(),
{
    if a.len() > 0 && b.len() > 0 && a[0] == b[0] {
        lemma_bytes_order_antisymmetric(a.skip(1), b.skip(1));
    }
}

/// Where `a` does not come behind `b` and `b` not behind `c`, `a` does not come
/// behind `c`, and it comes before `c` where one of the two steps is strict.
pub proof fn lemma_bytes_order_transitive(a: Seq<u8>, b: Seq<u8>, c: Seq<u8>)
    requires
        bytes_order(a, b) <= 0,
        bytes_order(b, c) <= 0,
    ensures
        bytes_order(a, c) <= 0,
        bytes_order(a, b) < 0 || bytes_order(b, c) < 0 ==> bytes_order(a, c) < 0,
    decreases a.len(),
{
    if a.len() > 0 && b.len() > 0 && c.len() > 0 && a[0] == b[0] && b[0] == c[0] {
        lemma_bytes_order_transitive(a.skip(1), b.skip(1), c.skip(1));
    }
}

/// The order of receipts is transitive.
pub proof fn lemma_receipt_order_transitive(
    a: CommittedReceiptView,
    b: CommittedReceiptView,
    c: CommittedReceiptView,
)
    requires
        receipt_order(a, b) <= 0,
        receipt_order(b, c) <= 0,
    ensures
        receipt_order(a, c) <= 0,
        receipt_order(a, b) < 0 || receipt_order(b, c) < 0 ==> receipt_order(a, c) < 0,
{
    if a.descriptor.para_id.0 == b.descriptor.para_id.0 && b.descriptor.para_id.0
        == c.descriptor.para_id.0 {
        lemma_bytes_order_transitive(
            a.commitments.head_data,
            b.commitments.head_data,
            c.commitments.head_data,
        );
    }
}

/// Two receipts stand at the same place in the order exactly when they are of
/// the same parachain and have the same head data.
pub proof fn lemma_receipt_order_equal(a: CommittedReceiptView, b: CommittedReceiptView)
    ensures
        -1 <= receipt_order(a, b) <= 1,
        receipt_order(a, b) == 0 <==> a.descriptor.para_id == b.descriptor.para_id
            && a.commitments.head_data == b.commitments.head_data,
{
    lemma_bytes_order_equal(a.commitments.head_data, b.commitments.head_data);
}

/// Turning two receipts round turns their order round.
pub proof fn lemma_receipt_order_antisymmetric(a: CommittedReceiptView, b: CommittedReceiptView)
    ensures
        receipt_order(b, a) == -receipt_order(a, b),
{
    lemma_bytes_order_antisymmetric(a.commitments.head_data, b.commitments.head_data);
}

/// Compares two byte strings. Gives -1, 0 or 1.
pub fn compare_bytes(a: &[u8], b: &[u8]) -> (order: i8)
    ensures
        order == bytes_order(a@, b@),
{
    let n: usize = a.len();
    let m: usize = b.len();
    let mut i: usize = 0;
    assert(a@.skip(0) =~= a@ && b@.skip(0) =~= b@);
    while i < n && i < m
        invariant
            i <= n,
            i <= m,
            n == a@.len(),
            m == b@.len(),
            bytes_order(a@, b@) == bytes_order(a@.skip(i as int), b@.skip(i as int)),
        decreases n - i,
    {
        let x: u8 = a[i];
        let y: u8 = b[i];
        proof {
            assert(a@.skip(i as int)[0] == x);
            assert(b@.skip(i as int)[0] == y);
            assert(a@.skip(i as int).skip(1) =~= a@.skip(i + 1));
            assert(b@.skip(i as int).skip(1) =~= b@.skip(i + 1));
        }
        if x < y {
            return -1;
        }
        if x > y {
            return 1;
        }
        i += 1;
    }
    if n == m {
        0
    } else if i == n {
        -1
    } else {
        1
    }
}

/// The order that a number stands for: below 0 less, 0 equal, above 0 greater.
pub open spec fn ordering_of(order: int) -> Ordering {
    if order < 0 {
        Ordering::Less
    } else if order == 0 {
        Ordering::Equal
    } else {
        Ordering::Greater
    }
}

/// Compares two receipts. Gives -1, 0 or 1.
fn compare_receipts(a: &CommittedCandidateReceiptV2, b: &CommittedCandidateReceiptV2) -> (order:
    i8)
    ensures
        order == receipt_order(a@, b@),
{
    let x: u32 = a.descriptor.para_id().0;
    let y: u32 = b.descriptor.para_id().0;
    if x < y {
        -1
    } else if x > y {
        1
    } else {
        compare_bytes(a.commitments.head_data.0.as_slice(), b.commitments.head_data.0.as_slice())
    }
}

impl CommittedCandidateReceiptV2 {
    /// Compares two receipts by parachain and head data.
    pub fn cmp(&self, other: &Self) -> (order: Ordering)
        ensures
            order == ordering_of(receipt_order(self@, other@)),
    {
        let order: i8 = compare_receipts(self, other);
        if order < 0 {
            Ordering::Less
        } else if order == 0 {
            Ordering::Equal
        } else {
            Ordering::Greater
        }
    }
}

impl PartialOrd for CommittedCandidateReceiptV2 {
    fn partial_cmp(&self, other: &Self) -> (order: Option<Ordering>) {
        Some(self.cmp(other))
    }
}

impl vstd::std_specs::cmp::PartialOrdSpecImpl for CommittedCandidateReceiptV2 {
    open spec fn obeys_partial_cmp_spec() -> bool {
        true
    }

    open spec fn partial_cmp_spec(&self, other: &Self) -> Option<Ordering> {
        Some(ordering_of(receipt_order(self@, other@)))
    }
}

} // verus!
