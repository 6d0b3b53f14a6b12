//! Turning hex-encoded program text into the raw bytes the machine loads.
//!
//! The text may hold whitespace or any other bytes between digits: everything
//! that is not an ASCII hex digit is skipped, exactly as a hand-typed ROM
//! listing would want. The remaining digits are paired up big-endian, two
//! digits per byte; an odd number of digits cannot form whole bytes and is
//! rejected.

use vstd::prelude::*;

verus! {

/// An ASCII hex digit: `0..=9`, `a..=f` or `A..=F`.
pub open spec fn is_hex_digit(b: u8) -> bool {
    (0x30 <= b && b <= 0x39) || (0x61 <= b && b <= 0x66) || (0x41 <= b && b <= 0x46)
}

/// The value of one ASCII hex digit.
pub open spec fn hex_val(b: u8) -> u8 {
    if 0x30 <= b && b <= 0x39 {
        (b - 0x30) as u8
    } else if 0x61 <= b && b <= 0x66 {
        (b - 0x61 + 10) as u8
    } else if 0x41 <= b && b <= 0x46 {
        (b - 0x41 + 10) as u8
    } else {
        0
    }
}

/// The predicate under which digits are kept, as a single value so that
/// every use of the filter names the same function.
pub open spec fn hex_digit_pred() -> spec_fn(u8) -> bool {
    |b: u8| is_hex_digit(b)
}

/// The hex digits of `s`, in order, with everything else dropped.
pub open spec fn hex_digits_of(s: Seq<u8>) -> Seq<u8> {
    s.filter(hex_digit_pred())
}

/// The bytes spelled by a sequence of hex digits: one byte per digit pair,
/// high nibble first.
pub open spec fn hex_bytes(ds: Seq<u8>) -> Seq<u8> {
    Seq::new(ds.len() / 2, |i: int| (hex_val(ds[2 * i]) * 16 + hex_val(ds[2 * i + 1])) as u8)
}

/// Relies on `hex::decode`: an input of ASCII hex digits decodes to one byte
/// per digit pair, high nibble first (`val(hi) << 4 | val(lo)`); it returns
/// an error exactly when the input's length is odd or some byte is not a hex
/// digit.
#[verifier::external_body]
fn hex_decode_digits(digits: &Vec<u8>) -> (r: Result<Vec<u8>, hex::FromHexError>)
    ensures
        r is Ok <==> (digits@.len() % 2 == 0 && (forall|i: int|
            0 <= i < digits@.len() ==> is_hex_digit(digits@[i]))),
        r is Ok ==> (r->Ok_0)@ == hex_bytes(digits@),
{
    hex::decode(digits)
}

/// The error type of the `hex` crate, carried through the trusted wrapper.
#[verifier::external_type_specification]
#[verifier::external_body]
pub struct ExFromHexError(hex::FromHexError);

/// Parse hex-encoded program text into raw program bytes.
///
/// Every byte of `text` that is not an ASCII hex digit is skipped. The
/// digits that remain are decoded two at a time, high nibble first. The
/// result is `Some` exactly when the number of digits is even; an odd count
/// cannot form whole bytes and yields `None`.
pub fn parse_hex_program(text: &[u8]) -> (r: Option<Vec<u8>>)
    ensures
        r is Some <==> hex_digits_of(text@).len() % 2 == 0,
        r is Some ==> (r->0)@ == hex_bytes(hex_digits_of(text@)),
{
    let mut digits: Vec<u8> = Vec::new();
    let mut i: usize = 0;
    proof {
        reveal(Seq::filter);
        assert(digits@ =~= hex_digits_of(text@.take(0)));
    }
    while i < text.len()
        invariant
            i <= text@.len(),
            digits@ == hex_digits_of(text@.take(i as int)),
        decreases text@.len() - i,
    {
        let b = text[i];
        proof {
            reveal(Seq::filter);
            assert(text@.take(i as int + 1).drop_last() =~= text@.take(i as int));
            assert(text@.take(i as int + 1).last() == text@[i as int]);
        }
        if (0x30 <= b && b <= 0x39) || (0x61 <= b && b <= 0x66) || (0x41 <= b && b <= 0x46) {
            digits.push(b);
        }
        i += 1;
    }
    proof {
        assert(text@.take(text@.len() as int) =~= text@);
    }
    if digits.len() % 2 != 0 {
        return None;
    }
    proof {
        assert forall|j: int| 0 <= j < digits@.len() implies is_hex_digit(digits@[j]) by {
            text@.lemma_filter_pred(hex_digit_pred(), j);
        }
    }
    match hex_decode_digits(&digits) {
        Ok(bytes) => Some(bytes),
        Err(_) => None,
    }
}

} // verus!
