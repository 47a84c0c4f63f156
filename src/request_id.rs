//! Correlation tokens and their fixed-width lowercase hexadecimal wire form.

use vstd::prelude::*;

verus! {

/// Token that ties an outbound request to its response frame.
pub type RequestId = u32;

/// Number of bytes in the wire form of a [`RequestId`].
pub const ID_TEXT_LEN: usize = 8;

/// ASCII byte of the lowercase hexadecimal digit for `n` (meaningful for `n < 16`).
pub open spec fn hex_digit(n: u32) -> u8 {
    if n < 10 {
        (48 + n) as u8
    } else {
        (87 + n) as u8
    }
}

/// Value of a lowercase hexadecimal digit, if `c` is one.
pub open spec fn hex_value(c: u8) -> Option<u32> {
    if 48 <= c <= 57 {
        Some((c - 48) as u32)
    } else if 97 <= c <= 102 {
        Some((c - 87) as u32)
    } else {
        None
    }
}

/// The eight-digit lowercase hexadecimal text of `id`, most significant digit first.
pub open spec fn id_text(id: RequestId) -> Seq<u8> {
    seq![
        hex_digit((id >> 28u32) & 15u32),
        hex_digit((id >> 24u32) & 15u32),
        hex_digit((id >> 20u32) & 15u32),
        hex_digit((id >> 16u32) & 15u32),
        hex_digit((id >> 12u32) & 15u32),
        hex_digit((id >> 8u32) & 15u32),
        hex_digit((id >> 4u32) & 15u32),
        hex_digit(id & 15u32),
    ]
}

/// Whether `s` is the wire form of some request id.
pub open spec fn is_id_text(s: Seq<u8>) -> bool {
    exists|id: RequestId| s == #[trigger] id_text(id)
}

proof fn lemma_hex_digit_value(n: u32)
    requires
        n < 16,
    ensures
        hex_value(hex_digit(n)) == Some(n),
{
}

proof fn lemma_hex_value_digit(c: u8)
    requires
        hex_value(c) is Some,
    ensures
        hex_value(c).unwrap() < 16,
        hex_digit(hex_value(c).unwrap()) == c,
{
}

/// Every byte of an id's wire form is a hexadecimal digit, so none is the field separator.
pub proof fn lemma_id_text_digits(id: RequestId)
    ensures
        id_text(id).len() == ID_TEXT_LEN,
        forall|i: int| 0 <= i < 8 ==> #[trigger] hex_value(id_text(id)[i]) is Some,
        forall|i: int| 0 <= i < 8 ==> #[trigger] id_text(id)[i] != 58u8,
{
    assert(((id >> 28u32) & 15u32) < 16 && ((id >> 24u32) & 15u32) < 16 && ((id >> 20u32) & 15u32)
        < 16 && ((id >> 16u32) & 15u32) < 16 && ((id >> 12u32) & 15u32) < 16 && ((id >> 8u32)
        & 15u32) < 16 && ((id >> 4u32) & 15u32) < 16 && (id & 15u32) < 16) by (bit_vector);
}

/// Distinct ids have distinct wire forms.
pub proof fn lemma_id_text_injective(a: RequestId, b: RequestId)
    requires
        id_text(a) == id_text(b),
    ensures
        a == b,
{
    digits_determine(a, b);
}

proof fn digits_determine(a: RequestId, b: RequestId)
    requires
        id_text(a) =~= id_text(b),
    ensures
        a == b,
{
    let ta = id_text(a);
    let tb = id_text(b);
    let ghost pa = seq![
        (a >> 28u32) & 15u32, (a >> 24u32) & 15u32, (a >> 20u32) & 15u32, (a >> 16u32) & 15u32,
        (a >> 12u32) & 15u32, (a >> 8u32) & 15u32, (a >> 4u32) & 15u32, a & 15u32,
    ];
    let ghost pb = seq![
        (b >> 28u32) & 15u32, (b >> 24u32) & 15u32, (b >> 20u32) & 15u32, (b >> 16u32) & 15u32,
        (b >> 12u32) & 15u32, (b >> 8u32) & 15u32, (b >> 4u32) & 15u32, b & 15u32,
    ];
    assert forall|i: int| 0 <= i < 8 implies pa[i] == pb[i] by {
        assert(ta[i] == tb[i]);
        assert(pa[i] < 16 && pb[i] < 16) by {
            lemma_nibbles_small(a);
            lemma_nibbles_small(b);
        }
        lemma_hex_digit_value(pa[i]);
        lemma_hex_digit_value(pb[i]);
    }
    assert(pa[0] == pb[0] && pa[1] == pb[1] && pa[2] == pb[2] && pa[3] == pb[3]);
    assert(pa[4] == pb[4] && pa[5] == pb[5] && pa[6] == pb[6] && pa[7] == pb[7]);
    lemma_nibbles_determine(a, b);
}

proof fn lemma_nibbles_small(a: u32)
    ensures
        ((a >> 28u32) & 15u32) < 16 && ((a >> 24u32) & 15u32) < 16 && ((a >> 20u32) & 15u32) < 16
            && ((a >> 16u32) & 15u32) < 16 && ((a >> 12u32) & 15u32) < 16 && ((a >> 8u32) & 15u32)
            < 16 && ((a >> 4u32) & 15u32) < 16 && (a & 15u32) < 16,
{
    assert(((a >> 28u32) & 15u32) < 16 && ((a >> 24u32) & 15u32) < 16 && ((a >> 20u32) & 15u32)
        < 16 && ((a >> 16u32) & 15u32) < 16 && ((a >> 12u32) & 15u32) < 16 && ((a >> 8u32)
        & 15u32) < 16 && ((a >> 4u32) & 15u32) < 16 && (a & 15u32) < 16) by (bit_vector);
}

proof fn lemma_nibbles_determine(a: u32, b: u32)
    requires
        (a >> 28u32) & 15u32 == (b >> 28u32) & 15u32,
        (a >> 24u32) & 15u32 == (b >> 24u32) & 15u32,
        (a >> 20u32) & 15u32 == (b >> 20u32) & 15u32,
        (a >> 16u32) & 15u32 == (b >> 16u32) & 15u32,
        (a >> 12u32) & 15u32 == (b >> 12u32) & 15u32,
        (a >> 8u32) & 15u32 == (b >> 8u32) & 15u32,
        (a >> 4u32) & 15u32 == (b >> 4u32) & 15u32,
        a & 15u32 == b & 15u32,
    ensures
        a == b,
{
    assert(a == b) by (bit_vector)
        requires
            (a >> 28u32) & 15u32 == (b >> 28u32) & 15u32,
            (a >> 24u32) & 15u32 == (b >> 24u32) & 15u32,
            (a >> 20u32) & 15u32 == (b >> 20u32) & 15u32,
            (a >> 16u32) & 15u32 == (b >> 16u32) & 15u32,
            (a >> 12u32) & 15u32 == (b >> 12u32) & 15u32,
            (a >> 8u32) & 15u32 == (b >> 8u32) & 15u32,
            (a >> 4u32) & 15u32 == (b >> 4u32) & 15u32,
            a & 15u32 == b & 15u32,
    ;
}

proof fn lemma_combine_nibbles(d0: u32, d1: u32, d2: u32, d3: u32, d4: u32, d5: u32, d6: u32, d7: u32)
    requires
        d0 < 16, d1 < 16, d2 < 16, d3 < 16, d4 < 16, d5 < 16, d6 < 16, d7 < 16,
    ensures
        ({
            let v = (d0 << 28u32) | (d1 << 24u32) | (d2 << 20u32) | (d3 << 16u32) | (d4 << 12u32)
                | (d5 << 8u32) | (d6 << 4u32) | d7;
            &&& (v >> 28u32) & 15u32 == d0
            &&& (v >> 24u32) & 15u32 == d1
            &&& (v >> 20u32) & 15u32 == d2
            &&& (v >> 16u32) & 15u32 == d3
            &&& (v >> 12u32) & 15u32 == d4
            &&& (v >> 8u32) & 15u32 == d5
            &&& (v >> 4u32) & 15u32 == d6
            &&& v & 15u32 == d7
        }),
{
    assert({
        let v = (d0 << 28u32) | (d1 << 24u32) | (d2 << 20u32) | (d3 << 16u32) | (d4 << 12u32) | (d5
            << 8u32) | (d6 << 4u32) | d7;
        &&& (v >> 28u32) & 15u32 == d0
        &&& (v >> 24u32) & 15u32 == d1
        &&& (v >> 20u32) & 15u32 == d2
        &&& (v >> 16u32) & 15u32 == d3
        &&& (v >> 12u32) & 15u32 == d4
        &&& (v >> 8u32) & 15u32 == d5
        &&& (v >> 4u32) & 15u32 == d6
        &&& v & 15u32 == d7
    }) by (bit_vector)
        requires
            d0 < 16, d1 < 16, d2 < 16, d3 < 16, d4 < 16, d5 < 16, d6 < 16, d7 < 16,
    ;
}

/// The lowercase hexadecimal digit for `n`.
fn hex_char(n: u32) -> (c: u8)
    requires
        n < 16,
    ensures
        c == hex_digit(n),
{
    if n < 10 {
        (48 + n) as u8
    } else {
        (87 + n) as u8
    }
}

/// The value of `c` as a lowercase hexadecimal digit.
fn hex_char_value(c: u8) -> (r: Option<u32>)
    ensures
        r == hex_value(c),
{
    if 48 <= c && c <= 57 {
        Some((c - 48) as u32)
    } else if 97 <= c && c <= 102 {
        Some((c - 87) as u32)
    } else {
        None
    }
}

/// The wire form of `id`: eight lowercase hexadecimal digits.
pub fn id_to_text(id: RequestId) -> (r: Vec<u8>)
    ensures
        r@ == id_text(id),
{
    proof {
        lemma_nibbles_small(id);
    }
    let mut r: Vec<u8> = Vec::new();
    r.push(hex_char((id >> 28u32) & 15u32));
    r.push(hex_char((id >> 24u32) & 15u32));
    r.push(hex_char((id >> 20u32) & 15u32));
    r.push(hex_char((id >> 16u32) & 15u32));
    r.push(hex_char((id >> 12u32) & 15u32));
    r.push(hex_char((id >> 8u32) & 15u32));
    r.push(hex_char((id >> 4u32) & 15u32));
    r.push(hex_char(id & 15u32));
    assert(r@ =~= id_text(id));
    r
}

/// Reads a request id from its wire form; `None` unless `text` is exactly eight
/// lowercase hexadecimal digits.
pub fn parse_id(text: &[u8]) -> (r: Option<RequestId>)
    ensures
        match r {
            Some(id) => text@ == id_text(id),
            None => !is_id_text(text@),
        },
{
    if text.len() != ID_TEXT_LEN {
        proof {
            if is_id_text(text@) {
                let id = choose|id: RequestId| text@ == #[trigger] id_text(id);
                lemma_id_text_digits(id);
            }
        }
        return None;
    }
    let mut digits: Vec<u32> = Vec::new();
    let mut i: usize = 0;
    while i < ID_TEXT_LEN
        invariant
            text@.len() == ID_TEXT_LEN,
            i <= ID_TEXT_LEN,
            digits@.len() == i,
            forall|j: int| 0 <= j < i ==> hex_value(#[trigger] text@[j]) == Some(digits@[j]),
        decreases ID_TEXT_LEN - i,
    {
        match hex_char_value(text[i]) {
            Some(d) => digits.push(d),
            None => {
                proof {
                    if is_id_text(text@) {
                        let id = choose|id: RequestId| text@ == #[trigger] id_text(id);
                        lemma_id_text_digits(id);
                        assert(hex_value(id_text(id)[i as int]) is Some);
                    }
                }
                return None;
            },
        }
        i = i + 1;
    }
    proof {
        assert forall|j: int| 0 <= j < 8 implies #[trigger] digits@[j] < 16 && hex_digit(digits@[j])
            == text@[j] by {
            assert(hex_value(text@[j]) == Some(digits@[j]));
            lemma_hex_value_digit(text@[j]);
        }
        assert(digits@[0] < 16 && digits@[1] < 16 && digits@[2] < 16 && digits@[3] < 16);
        assert(digits@[4] < 16 && digits@[5] < 16 && digits@[6] < 16 && digits@[7] < 16);
        lemma_combine_nibbles(
            digits@[0], digits@[1], digits@[2], digits@[3],
            digits@[4], digits@[5], digits@[6], digits@[7],
        );
    }
    let id = (digits[0] << 28u32) | (digits[1] << 24u32) | (digits[2] << 20u32) | (digits[3]
        << 16u32) | (digits[4] << 12u32) | (digits[5] << 8u32) | (digits[6] << 4u32) | digits[7];
    assert(text@ =~= id_text(id));
    Some(id)
}

/// Relies on uuid's `Uuid::new_v4` for a random version-4 UUID, and on
/// `Uuid::as_fields` for its leading 32 bits (the first eight digits of its text form).
#[verifier::external_body]
fn random_uuid_prefix() -> (r: u32) {
    uuid::Uuid::new_v4().as_fields().0
}

/// A fresh, high-entropy request id. Nothing is promised of its value: uniqueness among
/// outstanding requests is checked when the id is registered.
pub fn fresh_request_id() -> (r: RequestId) {
    random_uuid_prefix()
}

} // verus!
