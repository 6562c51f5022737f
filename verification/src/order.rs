//! The total orders that the keys are compared by.
//!
//! Counters are ordered as numbers. Text is ordered as strings are: byte by
//! byte over its UTF-8 encoding, a proper prefix before what extends it.
//! Tuples are ordered by their first component, then by the rest.

use vstd::prelude::*;
use vstd::utf8::*;

verus! {

/// How one value stands to another in a total order.
#[derive(Debug, Clone, Copy, PartialEq, Eq, Structural)]
pub enum KeyOrder {
    Less,
    Equal,
    Greater,
}

impl KeyOrder {
    /// The order of two tuples whose first components compare as `self` and
    /// whose remaining components compare as `rest`.
    pub open spec fn spec_and_then(self, rest: KeyOrder) -> KeyOrder {
        if self == KeyOrder::Equal {
            rest
        } else {
            self
        }
    }

    /// The order of two tuples whose first components compare as `self` and
    /// whose remaining components compare as `rest`.
    #[verifier::when_used_as_spec(spec_and_then)]
    pub fn and_then(self, rest: KeyOrder) -> (order: KeyOrder)
        ensures
            order == self.spec_and_then(rest),
    {
        match self {
            KeyOrder::Equal => rest,
            _ => self,
        }
    }

    /// The order of the same two values taken the other way round.
    pub open spec fn reverse(self) -> KeyOrder {
        match self {
            KeyOrder::Less => KeyOrder::Greater,
            KeyOrder::Equal => KeyOrder::Equal,
            KeyOrder::Greater => KeyOrder::Less,
        }
    }
}

/// The order of two counters.
pub open spec fn nat_order(a: nat, b: nat) -> KeyOrder {
    if a < b {
        KeyOrder::Less
    } else if a == b {
        KeyOrder::Equal
    } else {
        KeyOrder::Greater
    }
}

/// The lexicographic order of two byte strings.
pub open spec fn bytes_order(a: Seq<u8>, b: Seq<u8>) -> KeyOrder
    decreases a.len(),
{
    if a.len() == 0 {
        if b.len() == 0 {
            KeyOrder::Equal
        } else {
            KeyOrder::Less
        }
    } else if b.len() == 0 {
        KeyOrder::Greater
    } else if a[0] < b[0] {
        KeyOrder::Less
    } else if a[0] > b[0] {
        KeyOrder::Greater
    } else {
        bytes_order(a.drop_first(), b.drop_first())
    }
}

/// The order of two texts: that of their UTF-8 encodings.
pub open spec fn text_order(a: Seq<char>, b: Seq<char>) -> KeyOrder {
    bytes_order(encode_utf8(a), encode_utf8(b))
}

/// Compares two counters.
pub fn compare_u64(a: u64, b: u64) -> (order: KeyOrder)
    ensures
        order == nat_order(a as nat, b as nat),
{
    if a < b {
        KeyOrder::Less
    } else if a == b {
        KeyOrder::Equal
    } else {
        KeyOrder::Greater
    }
}

/// Compares two byte strings lexicographically.
pub fn compare_bytes(a: &[u8], b: &[u8]) -> (order: KeyOrder)
    ensures
        order == bytes_order(a@, b@),
{
    let mut i: usize = 0;
    assert(a@.skip(0) =~= a@ && b@.skip(0) =~= b@);
    while i < a.len() && i < b.len()
        invariant
            i <= a.len(),
            i <= b.len(),
            bytes_order(a@, b@) == bytes_order(a@.skip(i as int), b@.skip(i as int)),
        decreases a.len() - i,
    {
        proof {
            assert(a@.skip(i as int).drop_first() =~= a@.skip(i + 1));
            assert(b@.skip(i as int).drop_first() =~= b@.skip(i + 1));
        }
        if a[i] < b[i] {
            return KeyOrder::Less;
        }
        if a[i] > b[i] {
            return KeyOrder::Greater;
        }
        i += 1;
    }
    if a.len() < b.len() {
        KeyOrder::Less
    } else if a.len() > b.len() {
        KeyOrder::Greater
    } else {
        KeyOrder::Equal
    }
}

/// Compares two texts as strings are compared.
pub fn compare_text(a: &str, b: &str) -> (order: KeyOrder)
    ensures
        order == text_order(a@, b@),
{
    compare_bytes(a.as_bytes(), b.as_bytes())
}

/// Two byte strings compare as equal exactly when they are the same.
pub proof fn lemma_bytes_order_equal(a: Seq<u8>, b: Seq<u8>)
    ensures
        bytes_order(a, b) == KeyOrder::Equal <==> a == b,
    decreases a.len(),
{
    if a.len() == 0 || b.len() == 0 {
        if a.len() == 0 && b.len() == 0 {
            assert(a =~= b);
        }
    } else if a[0] == b[0] {
        lemma_bytes_order_equal(a.drop_first(), b.drop_first());
        if a.drop_first() == b.drop_first() {
            assert forall|i: int| 0 <= i < a.len() implies a[i] == b[i] by {
                if i > 0 {
                    assert(b[i] == b.drop_first()[i - 1]);
                }
            }
            assert(a =~= b);
        }
    }
}

/// Swapping the two byte strings reverses their order.
pub proof fn lemma_bytes_order_reverse(a: Seq<u8>, b: Seq<u8>)
    ensures
        bytes_order(b, a) == bytes_order(a, b).reverse(),
    decreases a.len(),
{
    if a.len() > 0 && b.len() > 0 && a[0] == b[0] {
        lemma_bytes_order_reverse(a.drop_first(), b.drop_first());
    }
}

/// The order of byte strings is transitive.
pub proof fn lemma_bytes_order_transitive(a: Seq<u8>, b: Seq<u8>, c: Seq<u8>)
    requires
        bytes_order(a, b) == KeyOrder::Less,
        bytes_order(b, c) == KeyOrder::Less,
    ensures
        bytes_order(a, c) == KeyOrder::Less,
    decreases a.len(),
{
    if a.len() > 0 && b.len() > 0 && c.len() > 0 && a[0] == b[0] && b[0] == c[0] {
        lemma_bytes_order_transitive(a.drop_first(), b.drop_first(), c.drop_first());
    }
}

/// Two texts compare as equal exactly when they are the same.
pub proof fn lemma_text_order_equal(a: Seq<char>, b: Seq<char>)
    ensures
        text_order(a, b) == KeyOrder::Equal <==> a == b,
{
    lemma_bytes_order_equal(encode_utf8(a), encode_utf8(b));
    encode_utf8_decode_utf8(a);
    encode_utf8_decode_utf8(b);
}

/// Swapping the two texts reverses their order.
pub proof fn lemma_text_order_reverse(a: Seq<char>, b: Seq<char>)
    ensures
        text_order(b, a) == text_order(a, b).reverse(),
{
    lemma_bytes_order_reverse(encode_utf8(a), encode_utf8(b));
}

/// The order of texts is transitive.
pub proof fn lemma_text_order_transitive(a: Seq<char>, b: Seq<char>, c: Seq<char>)
    requires
        text_order(a, b) == KeyOrder::Less,
        text_order(b, c) == KeyOrder::Less,
    ensures
        text_order(a, c) == KeyOrder::Less,
{
    lemma_bytes_order_transitive(encode_utf8(a), encode_utf8(b), encode_utf8(c));
}

} // verus!
