//! Byte-by-byte comparison of two byte sequences.

use vstd::prelude::*;

verus! {

/// How two byte sequences compare at one position.
#[derive(Debug, Clone, Copy, PartialEq, Eq, Structural)]
pub enum ByteMatch {
    /// Both sequences hold this byte.
    Same(u8),
    /// The sequences differ, or one of them has ended.
    Diff { left: Option<u8>, right: Option<u8> },
}

/// The byte at position `i` of a sequence, if it reaches that far.
pub open spec fn byte_at(bytes: Seq<u8>, i: int) -> Option<u8> {
    if 0 <= i < bytes.len() {
        Some(bytes[i])
    } else {
        None
    }
}

/// How `a` and `b` compare at position `i`.
pub open spec fn matched(a: Seq<u8>, b: Seq<u8>, i: int) -> ByteMatch {
    if 0 <= i < a.len() && i < b.len() && a[i] == b[i] {
        ByteMatch::Same(a[i])
    } else {
        ByteMatch::Diff { left: byte_at(a, i), right: byte_at(b, i) }
    }
}

/// The length of the longer of two sequences.
pub open spec fn longer(a: Seq<u8>, b: Seq<u8>) -> nat {
    if a.len() >= b.len() {
        a.len()
    } else {
        b.len()
    }
}

/// Compares two byte sequences position by position, up to the end of the
/// longer one.
pub fn check_sameness(a: &[u8], b: &[u8]) -> (r: Vec<ByteMatch>)
    ensures
        r@ == Seq::new(longer(a@, b@), |i: int| matched(a@, b@, i)),
{
    let len: usize = if a.len() >= b.len() {
        a.len()
    } else {
        b.len()
    };
    let mut result: Vec<ByteMatch> = Vec::new();
    let mut i: usize = 0;
    while i < len
        invariant
            i <= len == longer(a@, b@),
            result@.len() == i,
            forall|j: int| 0 <= j < i ==> result@[j] == matched(a@, b@, j),
        decreases len - i,
    {
        let left: Option<u8> = if a.len() <= i {
            None
        } else {
            Some(a[i])
        };
        let right: Option<u8> = if b.len() <= i {
            None
        } else {
            Some(b[i])
        };
        let item = match (left, right) {
            (Some(l), Some(r)) => if l == r {
                ByteMatch::Same(l)
            } else {
                ByteMatch::Diff { left, right }
            },
            _ => ByteMatch::Diff { left, right },
        };
        result.push(item);
        i += 1;
    }
    assert(result@ =~= Seq::new(longer(a@, b@), |i: int| matched(a@, b@, i)));
    result
}

/// Tells whether a comparison found the same byte at every position.
pub fn all_same(result: &[ByteMatch]) -> (r: bool)
    ensures
        r == forall|i: int| 0 <= i < result@.len() ==> result@[i] is Same,
{
    let mut i: usize = 0;
    while i < result.len()
        invariant
            i <= result@.len(),
            forall|j: int| 0 <= j < i ==> result@[j] is Same,
        decreases result@.len() - i,
    {
        match result[i] {
            ByteMatch::Same(_) => {},
            _ => {
                return false;
            },
        }
        i += 1;
    }
    true
}

/// Two sequences compare the same at every position exactly where they are equal.
pub proof fn lemma_all_same_iff_equal(a: Seq<u8>, b: Seq<u8>)
    ensures
        (forall|i: int| 0 <= i < longer(a, b) ==> matched(a, b, i) is Same) <==> a == b,
{
    if forall|i: int| 0 <= i < longer(a, b) ==> matched(a, b, i) is Same {
        if a.len() != b.len() {
            let last = longer(a, b) - 1;
            assert(matched(a, b, last) is Same);
        }
        assert forall|i: int| 0 <= i < a.len() implies a[i] == b[i] by {
            assert(matched(a, b, i) is Same);
        }
        assert(a =~= b);
    }
}

} // verus!
