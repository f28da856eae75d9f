//! Certificate fingerprints and their hexadecimal form.
use crate::digest::{sha256, sha256_digest};
use crate::error::{DcError, DcErrorView};
use vstd::prelude::*;
use vstd::utf8::{encode_utf8, is_ascii_chars, is_ascii_chars_encode_utf8};

verus! {

/// The SHA-256 fingerprint of a certificate.
pub fn certificate_fingerprint(certificate: &[u8]) -> (fingerprint: [u8; 32])
    ensures
        fingerprint@ == sha256(certificate@),
{
    sha256_digest(certificate)
}

/// The lower-case hexadecimal digit of a number below sixteen.
pub open spec fn hex_digit(value: nat) -> char {
    if value < 10 {
        ('0' as nat + value) as char
    } else {
        ('a' as nat + (value - 10)) as char
    }
}

/// The hexadecimal form of a byte string, two lower-case digits for each byte.
pub open spec fn hex_text(bytes: Seq<u8>) -> Seq<char> {
    Seq::new(
        2 * bytes.len(),
        |i: int|
            if i % 2 == 0 {
                hex_digit((bytes[i / 2] / 16) as nat)
            } else {
                hex_digit((bytes[i / 2] % 16) as nat)
            },
    )
}

/// The number that a hexadecimal digit of either case stands for.
pub open spec fn hex_value(digit: u8) -> Option<u8> {
    if 0x30 <= digit <= 0x39 {
        Some((digit - 0x30) as u8)
    } else if 0x61 <= digit <= 0x66 {
        Some((digit - 0x61 + 10) as u8)
    } else if 0x41 <= digit <= 0x46 {
        Some((digit - 0x41 + 10) as u8)
    } else {
        None
    }
}

/// The number that two digits stand for.
pub open spec fn pair_value(high: u8, low: u8) -> Option<u8> {
    match (hex_value(high), hex_value(low)) {
        (Some(h), Some(l)) => Some((h * 16 + l) as u8),
        _ => None,
    }
}

/// The number that a pair of bytes of a text stands for.
pub open spec fn pair_at(text: Seq<u8>, index: int) -> Option<u8> {
    pair_value(text[2 * index], text[2 * index + 1])
}

/// The fingerprint that a text stands for, or why it stands for none.
pub open spec fn parsed_fingerprint(text: Seq<char>) -> Result<Seq<u8>, DcErrorView> {
    let bytes = encode_utf8(text);
    if bytes.len() != 64 {
        Err(
            DcErrorView::InvalidInput(
                "certificate fingerprint must contain 64 hex characters"@,
            ),
        )
    } else if exists|i: int| 0 <= i < 32 && #[trigger] pair_at(bytes, i) is None {
        Err(DcErrorView::InvalidInput("certificate fingerprint is not valid hex"@))
    } else {
        Ok(Seq::new(32, |i: int| pair_at(bytes, i)->Some_0))
    }
}

fn hex_char(value: u8) -> (c: char)
    requires
        value < 16,
    ensures
        c == hex_digit(value as nat),
{
    if value < 10 {
        (0x30 + value) as char
    } else {
        (0x57 + value) as char
    }
}

/// The hexadecimal form of a byte string.
pub(crate) fn hex_string(bytes: &[u8]) -> (text: String)
    ensures
        text@ == hex_text(bytes@),
{
    let mut text = String::new();
    let mut index: usize = 0;
    while index < bytes.len()
        invariant
            index <= bytes@.len(),
            text@ == hex_text(bytes@.take(index as int)),
        decreases bytes@.len() - index,
    {
        text.push(hex_char(bytes[index] / 16));
        text.push(hex_char(bytes[index] % 16));
        index = index + 1;
        assert(text@ =~= hex_text(bytes@.take(index as int)));
    }
    assert(bytes@.take(index as int) =~= bytes@);
    text
}

/// The hexadecimal form of a fingerprint: 64 lower-case digits.
pub fn format_fingerprint(value: [u8; 32]) -> (text: String)
    ensures
        text@ == hex_text(value@),
        text@.len() == 64,
{
    hex_string(value.as_slice())
}

fn digit_value(digit: u8) -> (value: Option<u8>)
    ensures
        value == hex_value(digit),
{
    if 0x30 <= digit && digit <= 0x39 {
        Some(digit - 0x30)
    } else if 0x61 <= digit && digit <= 0x66 {
        Some(digit - 0x61 + 10)
    } else if 0x41 <= digit && digit <= 0x46 {
        Some(digit - 0x41 + 10)
    } else {
        None
    }
}

fn byte_of_pair(high: u8, low: u8) -> (value: Option<u8>)
    ensures
        value == pair_value(high, low),
{
    match (digit_value(high), digit_value(low)) {
        (Some(h), Some(l)) => Some(h * 16 + l),
        _ => None,
    }
}

/// The fingerprint that a text of 64 hexadecimal characters stands for.
pub fn parse_fingerprint(value: &str) -> (result: Result<[u8; 32], DcError>)
    ensures
        match result {
            Ok(fingerprint) => parsed_fingerprint(value@) == Ok::<Seq<u8>, DcErrorView>(
                fingerprint@,
            ),
            Err(error) => parsed_fingerprint(value@) == Err::<Seq<u8>, DcErrorView>(error@),
        },
{
    let bytes = value.as_bytes();
    if bytes.len() != 64 {
        return Err(
            DcError::invalid_input("certificate fingerprint must contain 64 hex characters"),
        );
    }
    let mut output: [u8; 32] = [0u8; 32];
    let mut index: usize = 0;
    while index < 32
        invariant
            index <= 32,
            bytes@ == encode_utf8(value@),
            bytes@.len() == 64,
            forall|i: int| 0 <= i < index ==> #[trigger] pair_at(bytes@, i) == Some(output@[i]),
        decreases 32 - index,
    {
        match byte_of_pair(bytes[index * 2], bytes[index * 2 + 1]) {
            Some(byte) => {
                output[index] = byte;
                assert(pair_at(bytes@, index as int) == Some(byte));
            },
            None => {
                assert(pair_at(bytes@, index as int) is None);
                return Err(DcError::invalid_input("certificate fingerprint is not valid hex"));
            },
        }
        index = index + 1;
    }
    assert(output@ =~= Seq::new(32, |i: int| pair_at(bytes@, i)->Some_0));
    Ok(output)
}

pub proof fn lemma_hex_digit(value: nat)
    requires
        value < 16,
    ensures
        hex_digit(value) as nat <= 0x66,
        hex_digit(value) as nat >= 0x30,
        hex_value(hex_digit(value) as u8) == Some(value as u8),
{
}

pub proof fn lemma_hex_text(bytes: Seq<u8>)
    ensures
        hex_text(bytes).len() == 2 * bytes.len(),
        forall|i: int|
            0 <= i < 2 * bytes.len() ==> 0x30 <= (#[trigger] hex_text(bytes)[i]) as nat <= 0x66,
        encode_utf8(hex_text(bytes)) == Seq::new(
            2 * bytes.len(),
            |i: int| hex_text(bytes)[i] as u8,
        ),
{
    let text = hex_text(bytes);
    assert forall|i: int| 0 <= i < 2 * bytes.len() implies 0x30 <= (#[trigger] text[i]) as nat
        <= 0x66 by {
        lemma_hex_digit((bytes[i / 2] / 16) as nat);
        lemma_hex_digit((bytes[i / 2] % 16) as nat);
    }
    assert(is_ascii_chars(text)) by {
        assert forall|i: int| 0 <= i < text.len() implies '\0' <= #[trigger] text[i] <= '\u{7f}' by {
            assert(0x30 <= text[i] as nat <= 0x66);
        }
    }
    is_ascii_chars_encode_utf8(text);
}

/// The text that a fingerprint is written as is read back as that fingerprint.
pub proof fn law_fingerprint_reads_back(value: Seq<u8>)
    requires
        value.len() == 32,
    ensures
        parsed_fingerprint(hex_text(value)) == Ok::<Seq<u8>, DcErrorView>(value),
{
    let bytes = encode_utf8(hex_text(value));
    lemma_hex_text(value);
    assert forall|i: int| 0 <= i < 32 implies #[trigger] pair_at(bytes, i) == Some(value[i]) by {
        lemma_hex_digit((value[i] / 16) as nat);
        lemma_hex_digit((value[i] % 16) as nat);
        assert((2 * i) / 2 == i && (2 * i) % 2 == 0 && (2 * i + 1) / 2 == i && (2 * i + 1) % 2 == 1);
    }
    assert(Seq::new(32, |i: int| pair_at(bytes, i)->Some_0) =~= value);
}

/// The value of a hexadecimal digit, small or capital.
pub open spec fn digit_worth(c: char) -> int {
    if '0' <= c <= '9' {
        c as int - 48
    } else if 'a' <= c <= 'f' {
        c as int - 87
    } else if 'A' <= c <= 'F' {
        c as int - 55
    } else {
        -1
    }
}

/// Each byte is told by two small digits, the higher half first.
pub proof fn law_bytes_are_told_in_two_digits(bytes: Seq<u8>, index: int)
    requires
        0 <= index < bytes.len(),
    ensures
        ({
            let high = hex_text(bytes)[2 * index];
            let low = hex_text(bytes)[2 * index + 1];
            &&& hex_text(bytes).len() == 2 * bytes.len()
            &&& bytes[index] == 16 * digit_worth(high) + digit_worth(low)
            &&& 0 <= digit_worth(high) < 16
            &&& 0 <= digit_worth(low) < 16
            &&& !('A' <= high <= 'F')
            &&& !('A' <= low <= 'F')
        }),
{
    assert((2 * index) / 2 == index && (2 * index) % 2 == 0);
    assert((2 * index + 1) / 2 == index && (2 * index + 1) % 2 == 1);
}

/// A fingerprint is read exactly from sixty-four hexadecimal digits, small or capital, two for each
/// byte.
pub proof fn law_fingerprints_have_sixty_four_digits(text: Seq<char>)
    requires
        is_ascii_chars(text),
    ensures
        parsed_fingerprint(text) is Ok <==> text.len() == 64 && forall|i: int|
            0 <= i < 64 ==> digit_worth(#[trigger] text[i]) >= 0,
        parsed_fingerprint(text) is Ok ==> parsed_fingerprint(text)->Ok_0.len() == 32
            && forall|i: int|
            0 <= i < 32 ==> #[trigger] parsed_fingerprint(text)->Ok_0[i] == 16 * digit_worth(
                text[2 * i],
            ) + digit_worth(text[2 * i + 1]),
{
    is_ascii_chars_encode_utf8(text);
    let bytes = encode_utf8(text);
    assert forall|i: int| 0 <= i < text.len() implies #[trigger] bytes[i] as int == text[i] as int by {}
    if text.len() == 64 {
        if forall|i: int| 0 <= i < 64 ==> digit_worth(#[trigger] text[i]) >= 0 {
            assert forall|i: int| 0 <= i < 32 implies #[trigger] pair_at(bytes, i) is Some by {
                assert(digit_worth(text[2 * i]) >= 0 && digit_worth(text[2 * i + 1]) >= 0);
                assert(bytes[2 * i] as int == text[2 * i] as int);
                assert(bytes[2 * i + 1] as int == text[2 * i + 1] as int);
            }
        } else {
            let i = choose|i: int| 0 <= i < 64 && digit_worth(#[trigger] text[i]) < 0;
            assert(bytes[i] as int == text[i] as int);
            assert(hex_value(bytes[i]) is None);
            assert(pair_at(bytes, i / 2) is None);
        }
        if parsed_fingerprint(text) is Ok {
            assert forall|i: int| 0 <= i < 32 implies #[trigger] parsed_fingerprint(text)->Ok_0[i]
                == 16 * digit_worth(text[2 * i]) + digit_worth(text[2 * i + 1]) by {
                assert(pair_at(bytes, i) is Some);
                assert(bytes[2 * i] as int == text[2 * i] as int);
                assert(bytes[2 * i + 1] as int == text[2 * i + 1] as int);
            }
        }
    }
}

} // verus!
