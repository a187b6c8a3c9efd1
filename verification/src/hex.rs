//! Lower-case hexadecimal text for keys, fingerprints and digests.

use vstd::prelude::*;
use vstd::utf8::{encode_utf8, is_ascii_chars, is_ascii_chars_encode_utf8};

verus! {

/// The standard library's `String::push`: appends one character to the end of the string.
pub assume_specification[ String::push ](s: &mut String, c: char)
    ensures
        final(s)@ == old(s)@.push(c),
;

/// The lower-case hexadecimal digit of a number below sixteen.
pub open spec fn digit_char(d: int) -> char {
    if d < 10 {
        ('0' as int + d) as char
    } else {
        ('a' as int + (d - 10)) as char
    }
}

/// The hexadecimal text of `bytes`: two digits for each byte, the high four bits first.
pub open spec fn hex_text(bytes: Seq<u8>) -> Seq<char> {
    Seq::new(
        2 * bytes.len(),
        |i: int|
            digit_char(
                if i % 2 == 0 {
                    bytes[i / 2] as int / 16
                } else {
                    bytes[i / 2] as int % 16
                },
            ),
    )
}

/// The value of an ASCII hexadecimal digit of either case.
pub open spec fn digit_value(c: u8) -> Option<int> {
    if 0x30 <= c <= 0x39 {
        Some(c - 0x30)
    } else if 0x61 <= c <= 0x66 {
        Some(c - 0x61 + 10)
    } else if 0x41 <= c <= 0x46 {
        Some(c - 0x41 + 10)
    } else {
        None
    }
}

/// Whether `text` is an even number of hexadecimal digits.
pub open spec fn is_hex(text: Seq<u8>) -> bool {
    &&& text.len() % 2 == 0
    &&& forall|i: int| 0 <= i < text.len() ==> digit_value(#[trigger] text[i]) is Some
}

/// The bytes that hexadecimal text stands for, or `None` where it is not such text.
pub open spec fn hex_bytes(text: Seq<u8>) -> Option<Seq<u8>> {
    if is_hex(text) {
        Some(
            Seq::new(
                text.len() / 2,
                |i: int| (16 * digit_value(text[2 * i])->0 + digit_value(text[2 * i + 1])->0) as u8,
            ),
        )
    } else {
        None
    }
}

/// The digit of a four-bit number.
fn hex_digit(d: u8) -> (c: char)
    requires
        d < 16,
    ensures
        c == digit_char(d as int),
{
    if d < 10 {
        (0x30 + d) as char
    } else {
        (0x61 + (d - 10)) as char
    }
}

/// The value of a hexadecimal digit, upper or lower case.
fn hex_value(c: u8) -> (v: Option<u8>)
    ensures
        match v {
            Some(d) => d < 16 && digit_value(c) == Some(d as int),
            None => digit_value(c) is None,
        },
{
    if 0x30 <= c && c <= 0x39 {
        Some(c - 0x30)
    } else if 0x61 <= c && c <= 0x66 {
        Some(c - 0x61 + 10)
    } else if 0x41 <= c && c <= 0x46 {
        Some(c - 0x41 + 10)
    } else {
        None
    }
}

/// Writes `bytes` as lower-case hexadecimal text.
pub fn hex_encode(bytes: &[u8]) -> (s: String)
    ensures
        s@ == hex_text(bytes@),
{
    let mut s = String::new();
    let mut i: usize = 0;
    while i < bytes.len()
        invariant
            i <= bytes@.len(),
            s@ == hex_text(bytes@.take(i as int)),
        decreases bytes.len() - i,
    {
        let b: u8 = bytes[i];
        s.push(hex_digit(b / 16));
        s.push(hex_digit(b % 16));
        i = i + 1;
        assert(s@ =~= hex_text(bytes@.take(i as int)));
    }
    assert(bytes@.take(i as int) =~= bytes@);
    s
}

/// Reads hexadecimal text of either case. Text of odd length, or with anything but
/// hexadecimal digits in it, is refused.
pub fn hex_decode(s: &str) -> (r: Result<Vec<u8>, ()>)
    ensures
        match r {
            Ok(v) => hex_bytes(encode_utf8(s@)) == Some(v@),
            Err(_) => hex_bytes(encode_utf8(s@)) is None,
        },
{
    let bytes: &[u8] = s.as_bytes();
    if bytes.len() % 2 != 0 {
        return Err(());
    }
    let mut out: Vec<u8> = Vec::with_capacity(bytes.len() / 2);
    let mut i: usize = 0;
    while i < bytes.len()
        invariant
            bytes@.len() % 2 == 0,
            bytes@ == encode_utf8(s@),
            i % 2 == 0,
            i <= bytes@.len(),
            out@.len() == i / 2,
            forall|k: int| 0 <= k < i ==> digit_value(#[trigger] bytes@[k]) is Some,
            forall|k: int|
                0 <= k < out@.len() ==> #[trigger] out@[k] == (16 * digit_value(bytes@[2 * k])->0
                    + digit_value(bytes@[2 * k + 1])->0) as u8,
        decreases bytes.len() - i,
    {
        let hi: u8 = match hex_value(bytes[i]) {
            Some(v) => v,
            None => {
                return Err(());
            },
        };
        let lo: u8 = match hex_value(bytes[i + 1]) {
            Some(v) => v,
            None => {
                return Err(());
            },
        };
        out.push(hi * 16 + lo);
        i = i + 2;
    }
    assert(out@ =~= hex_bytes(bytes@)->0);
    Ok(out)
}

/// Hexadecimal text is plain ASCII, so its UTF-8 bytes are its digits one for one.
pub proof fn hex_text_is_ascii(bytes: Seq<u8>)
    ensures
        is_ascii_chars(hex_text(bytes)),
        encode_utf8(hex_text(bytes)).len() == 2 * bytes.len(),
        forall|i: int|
            0 <= i < 2 * bytes.len() ==> #[trigger] encode_utf8(hex_text(bytes))[i] == hex_text(
                bytes,
            )[i] as u8,
{
    let text = hex_text(bytes);
    assert forall|i: int| 0 <= i < text.len() implies (#[trigger] text[i] as nat) < 128 by {
        assert(0 <= i / 2 < bytes.len());
    }
    is_ascii_chars_encode_utf8(text);
}

/// Decoding undoes encoding: the text of any byte sequence reads back as those bytes.
pub proof fn hex_round_trip(bytes: Seq<u8>)
    ensures
        hex_bytes(encode_utf8(hex_text(bytes))) == Some(bytes),
{
    hex_text_is_ascii(bytes);
    let text = encode_utf8(hex_text(bytes));
    assert forall|i: int| 0 <= i < text.len() implies digit_value(#[trigger] text[i]) == Some(
        if i % 2 == 0 {
            bytes[i / 2] as int / 16
        } else {
            bytes[i / 2] as int % 16
        },
    ) by {
        assert(text[i] == hex_text(bytes)[i] as u8);
        assert(0 <= i / 2 < bytes.len());
    }
    assert(hex_bytes(text)->0 =~= bytes) by {
        assert forall|k: int| 0 <= k < bytes.len() implies hex_bytes(text)->0[k] == #[trigger] bytes[k] by {
            assert(digit_value(text[2 * k]) is Some);
            assert(digit_value(text[2 * k + 1]) is Some);
            assert((2 * k) / 2 == k && (2 * k + 1) / 2 == k);
        }
    }
}

/// Different byte sequences have different hexadecimal texts.
pub proof fn hex_text_injective(a: Seq<u8>, b: Seq<u8>)
    requires
        hex_text(a) == hex_text(b),
    ensures
        a == b,
{
    hex_round_trip(a);
    hex_round_trip(b);
}

/// Each byte stands in the text as two of the sixteen lower-case digits: the one at the
/// place of its high four bits, and then the one at the place of its low four bits.
pub proof fn hex_text_digits(bytes: Seq<u8>, i: int)
    requires
        0 <= i < bytes.len(),
    ensures
        hex_text(bytes).len() == 2 * bytes.len(),
        hex_text(bytes)[2 * i] == "0123456789abcdef"@[bytes[i] as int / 16],
        hex_text(bytes)[2 * i + 1] == "0123456789abcdef"@[bytes[i] as int % 16],
{
    reveal_strlit("0123456789abcdef");
    assert((2 * i) / 2 == i && (2 * i + 1) / 2 == i);
}

/// The digit of value `d` in either alphabet, and no other byte, reads as `d`.
proof fn digit_value_is_place(c: u8, d: int)
    requires
        0 <= d < 16,
    ensures
        digit_value(c) == Some(d) <==> c == "0123456789abcdef"@[d] as u8 || c
            == "0123456789ABCDEF"@[d] as u8,
{
    reveal_strlit("0123456789abcdef");
    reveal_strlit("0123456789ABCDEF");
}

/// Text reads as some bytes if and only if it is twice as long and holds, for each byte in
/// turn, the digit of its high and the digit of its low four bits, each in either case.
/// Text for which there are no such bytes is refused.
pub proof fn hex_bytes_digits(text: Seq<u8>, bytes: Seq<u8>)
    ensures
        hex_bytes(text) == Some(bytes) <==> text.len() == 2 * bytes.len() && forall|i: int|
            0 <= i < bytes.len() ==> {
                let hi = #[trigger] bytes[i] as int / 16;
                let lo = bytes[i] as int % 16;
                let (a, b) = (text[2 * i], text[2 * i + 1]);
                &&& a == "0123456789abcdef"@[hi] as u8 || a == "0123456789ABCDEF"@[hi] as u8
                &&& b == "0123456789abcdef"@[lo] as u8 || b == "0123456789ABCDEF"@[lo] as u8
            },
        hex_bytes(text) is Some ==> hex_bytes(text)->0.len() * 2 == text.len(),
{
    if hex_bytes(text) == Some(bytes) {
        assert forall|i: int| 0 <= i < bytes.len() implies {
            let hi = #[trigger] bytes[i] as int / 16;
            let lo = bytes[i] as int % 16;
            digit_value(text[2 * i]) == Some(hi) && digit_value(text[2 * i + 1]) == Some(lo)
        } by {
            assert(digit_value(text[2 * i]) is Some);
            assert(digit_value(text[2 * i + 1]) is Some);
        }
        assert forall|i: int| 0 <= i < bytes.len() implies {
            let hi = #[trigger] bytes[i] as int / 16;
            let lo = bytes[i] as int % 16;
            let (a, b) = (text[2 * i], text[2 * i + 1]);
            &&& a == "0123456789abcdef"@[hi] as u8 || a == "0123456789ABCDEF"@[hi] as u8
            &&& b == "0123456789abcdef"@[lo] as u8 || b == "0123456789ABCDEF"@[lo] as u8
        } by {
            digit_value_is_place(text[2 * i], bytes[i] as int / 16);
            digit_value_is_place(text[2 * i + 1], bytes[i] as int % 16);
        }
    }
    if text.len() == 2 * bytes.len() && forall|i: int|
        0 <= i < bytes.len() ==> {
            let hi = #[trigger] bytes[i] as int / 16;
            let lo = bytes[i] as int % 16;
            let (a, b) = (text[2 * i], text[2 * i + 1]);
            &&& a == "0123456789abcdef"@[hi] as u8 || a == "0123456789ABCDEF"@[hi] as u8
            &&& b == "0123456789abcdef"@[lo] as u8 || b == "0123456789ABCDEF"@[lo] as u8
        } {
        assert forall|j: int| 0 <= j < text.len() implies digit_value(#[trigger] text[j]) == Some(
            if j % 2 == 0 {
                bytes[j / 2] as int / 16
            } else {
                bytes[j / 2] as int % 16
            },
        ) by {
            let i = j / 2;
            let b = bytes[i];
            digit_value_is_place(text[2 * i], b as int / 16);
            digit_value_is_place(text[2 * i + 1], b as int % 16);
            assert(j == 2 * i || j == 2 * i + 1);
        }
        assert(hex_bytes(text)->0 =~= bytes) by {
            assert forall|k: int| 0 <= k < bytes.len() implies hex_bytes(text)->0[k]
                == #[trigger] bytes[k] by {
                assert(digit_value(text[2 * k]) is Some);
                assert(digit_value(text[2 * k + 1]) is Some);
                assert((2 * k) / 2 == k && (2 * k + 1) / 2 == k);
            }
        }
    }
}

} // verus!
