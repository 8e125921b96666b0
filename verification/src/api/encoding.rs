//! Text forms of a run of bytes: lowercase hex and standard base64.

use vstd::prelude::*;
use vstd::string::StringSliceAdditionalSpecFns;

verus! {

/// The ASCII code of the lowercase hex digit for `d`, `d` being below 16.
pub open spec fn hex_digit(d: int) -> u8 {
    if d < 10 {
        (0x30 + d) as u8
    } else {
        (0x57 + d) as u8
    }
}

/// The ASCII codes of the lowercase hex form of `data`: two digits for each
/// byte, the high half first, with nothing between them.
pub open spec fn hex_bytes(data: Seq<u8>) -> Seq<u8> {
    Seq::new(
        2 * data.len(),
        |i: int|
            if i % 2 == 0 {
                hex_digit(data[i / 2] as int / 16)
            } else {
                hex_digit(data[i / 2] as int % 16)
            },
    )
}

/// The lowercase hex form of `data`.
pub open spec fn hex_text(data: Seq<u8>) -> Seq<char> {
    Seq::new(2 * data.len(), |i: int| hex_bytes(data)[i] as char)
}

/// The standard base64 form of `data`, with padding. It is what the base64
/// crate's standard engine makes of `data`.
pub uninterp spec fn base64_text(data: Seq<u8>) -> Seq<char>;

/// Length of the padded base64 form of `len` bytes: four characters for
/// every three bytes or part of three.
pub open spec fn base64_len(len: nat) -> nat {
    4 * ((len + 2) / 3)
}

/// The value of the hex digit with ASCII code `c`, of either case.
pub open spec fn hex_digit_value(c: u8) -> Option<int> {
    if 0x30 <= c <= 0x39 {
        Some(c - 0x30)
    } else if 0x61 <= c <= 0x66 {
        Some(c - 0x57)
    } else if 0x41 <= c <= 0x46 {
        Some(c - 0x37)
    } else {
        None
    }
}

/// `text` is made of hex digits, an even number of them.
pub open spec fn is_hex(text: Seq<u8>) -> bool {
    &&& text.len() % 2 == 0
    &&& forall|i: int| 0 <= i < text.len() ==> (#[trigger] hex_digit_value(text[i])) is Some
}

/// The bytes that the hex digits `text` spell, where `text` is hex.
pub open spec fn hex_decoded(text: Seq<u8>) -> Option<Seq<u8>> {
    if is_hex(text) {
        Some(
            Seq::new(
                text.len() / 2,
                |i: int|
                    (16 * hex_digit_value(text[2 * i])->0 + hex_digit_value(
                        text[2 * i + 1],
                    )->0) as u8,
            ),
        )
    } else {
        None
    }
}

/// The hex form is twice as long as the data and holds only the characters
/// `0` to `9` and `a` to `f`.
pub proof fn lemma_hex_text_shape(data: Seq<u8>)
    ensures
        hex_text(data).len() == 2 * data.len(),
        forall|i: int|
            0 <= i < hex_text(data).len() ==> ('0' <= #[trigger] hex_text(data)[i] <= '9') || ('a'
                <= hex_text(data)[i] <= 'f'),
{
    assert forall|i: int| 0 <= i < hex_text(data).len() implies ('0' <= #[trigger] hex_text(
        data,
    )[i] <= '9') || ('a' <= hex_text(data)[i] <= 'f') by {
        let d = if i % 2 == 0 {
            data[i / 2] as int / 16
        } else {
            data[i / 2] as int % 16
        };
        assert(0 <= d < 16);
        assert(hex_bytes(data)[i] == hex_digit(d));
    }
}

/// Decoding the hex form of `data` gives `data` back, whatever `data` is.
pub proof fn lemma_hex_round_trip(data: Seq<u8>, text: &str)
    requires
        text@ == hex_text(data),
    ensures
        hex_decoded(text.spec_bytes()) == Some(data),
{
    lemma_hex_text_shape(data);
    assert(vstd::string::is_ascii(text));
    vstd::string::is_ascii_spec_bytes(text);
    let bytes = text.spec_bytes();
    assert(bytes =~= hex_bytes(data)) by {
        assert forall|i: int| 0 <= i < bytes.len() implies bytes[i] == hex_bytes(data)[i] by {
            assert(text@[i] == hex_bytes(data)[i] as char);
        }
    }
    assert forall|i: int| 0 <= i < data.len() implies hex_digit_value(bytes[2 * i]) == Some(
        data[i] as int / 16,
    ) && hex_digit_value(bytes[2 * i + 1]) == Some(data[i] as int % 16) by {
        assert(bytes[2 * i] == hex_digit(data[(2 * i) / 2] as int / 16));
        assert(bytes[2 * i + 1] == hex_digit(data[(2 * i + 1) / 2] as int % 16));
    }
    assert(is_hex(bytes)) by {
        assert forall|j: int| 0 <= j < bytes.len() implies (#[trigger] hex_digit_value(
            bytes[j],
        )) is Some by {
            let i = j / 2;
            if j % 2 == 0 {
                assert(j == 2 * i);
            } else {
                assert(j == 2 * i + 1);
            }
        }
    }
    assert(hex_decoded(bytes)->0 =~= data);
}

/// Calls `hex::encode`. The crate renders each byte as two characters of
/// `0123456789abcdef`, the one for the high four bits first, and joins them
/// without separators.
#[verifier::external_body]
pub(crate) fn hex_encode(data: &[u8]) -> (text: String)
    ensures
        text@ == hex_text(data@),
{
    hex::encode(data)
}

/// Calls the `encode` method of the base64 crate's `STANDARD` engine. The
/// result is named, not spelled out; its length is the one that the crate
/// computes before it encodes, and the crate fails where that length does not
/// fit a `usize`.
#[verifier::external_body]
pub(crate) fn base64_encode(data: &[u8]) -> (text: String)
    requires
        base64_len(data@.len()) <= usize::MAX,
    ensures
        text@ == base64_text(data@),
        text@.len() == base64_len(data@.len()),
{
    base64::Engine::encode(&base64::engine::general_purpose::STANDARD, data)
}

/// The lowercase hex form of `data`, without separators.
pub fn to_hex(data: &[u8]) -> (text: String)
    ensures
        text@ == hex_text(data@),
        text@.len() == 2 * data@.len(),
{
    hex_encode(data)
}

/// The standard base64 form of `data`, with padding, or `None` where that
/// form would be longer than a `usize` can say.
pub fn to_base64(data: &[u8]) -> (text: Option<String>)
    ensures
        text is Some <==> base64_len(data@.len()) <= usize::MAX,
        text is Some ==> text->0@ == base64_text(data@),
        text is Some ==> text->0@.len() == base64_len(data@.len()),
{
    let groups = data.len() / 3 + if data.len() % 3 == 0 {
        0
    } else {
        1
    };
    if groups > usize::MAX / 4 {
        None
    } else {
        Some(base64_encode(data))
    }
}

/// The value of the hex digit `c`, of either case.
fn digit_value(c: u8) -> (value: Option<u8>)
    ensures
        value is Some <==> hex_digit_value(c) is Some,
        value is Some ==> value->0 == hex_digit_value(c)->0,
{
    if 0x30 <= c && c <= 0x39 {
        Some(c - 0x30)
    } else if 0x61 <= c && c <= 0x66 {
        Some(c - 0x57)
    } else if 0x41 <= c && c <= 0x46 {
        Some(c - 0x37)
    } else {
        None
    }
}

/// The bytes that the hex text `text` spells: `None` unless `text` is an
/// even number of hex digits, of either case.
pub fn from_hex(text: &str) -> (data: Option<Vec<u8>>)
    ensures
        data is Some <==> is_hex(text.spec_bytes()),
        data is Some ==> Some(data->0@) == hex_decoded(text.spec_bytes()),
{
    let bytes = text.as_bytes();
    let len = bytes.len();
    if len % 2 != 0 {
        return None;
    }
    let mut data: Vec<u8> = Vec::new();
    let mut i: usize = 0;
    while i < len / 2
        invariant
            bytes@ == text.spec_bytes(),
            len == bytes@.len(),
            len % 2 == 0,
            i <= len / 2,
            data@.len() == i,
            forall|j: int| 0 <= j < 2 * i ==> (#[trigger] hex_digit_value(bytes@[j])) is Some,
            forall|k: int|
                0 <= k < i ==> #[trigger] data@[k] == (16 * hex_digit_value(bytes@[2 * k])->0
                    + hex_digit_value(bytes@[2 * k + 1])->0) as u8,
        decreases len / 2 - i,
    {
        let high = digit_value(bytes[2 * i]);
        let low = digit_value(bytes[2 * i + 1]);
        match (high, low) {
            (Some(h), Some(l)) => {
                data.push(16 * h + l);
            },
            _ => {
                assert(hex_digit_value(bytes@[2 * i]) is None || hex_digit_value(
                    bytes@[2 * i + 1],
                ) is None);
                return None;
            },
        }
        i = i + 1;
    }
    assert(data@ =~= hex_decoded(bytes@)->0);
    Some(data)
}

} // verus!
