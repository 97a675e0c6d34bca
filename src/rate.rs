//! Target rates as text: a size per second, in bytes or, with a `bit`
//! suffix, in bits.
use bytesize::ByteSize;
use vstd::prelude::*;
use vstd::string::*;
use vstd::utf8::*;

verus! {

/// What `ByteSize::from_str` gives for the text with these bytes: the size,
/// or the text of its error message.
pub uninterp spec fn byte_size_parse(text: Seq<u8>) -> Result<u64, Seq<char>>;

/// Relies on bytesize's `FromStr for ByteSize`: the number of bytes the text
/// names, or an error message.
#[verifier::external_body]
fn parse_byte_size(text: &str) -> (r: Result<u64, String>)
    ensures
        match r {
            Ok(v) => byte_size_parse(text.spec_bytes()) == Ok::<u64, Seq<char>>(v),
            Err(e) => byte_size_parse(text.spec_bytes()) == Err::<u64, Seq<char>>(e@),
        },
{
    text.parse::<ByteSize>().map(|b| b.0)
}

/// ASCII codes of `/`, `s`, `b`, `i` and `t`.
pub const ASCII_SLASH: u8 = 0x2f;
pub const ASCII_S: u8 = 0x73;
pub const ASCII_B: u8 = 0x62;
pub const ASCII_I: u8 = 0x69;
pub const ASCII_T: u8 = 0x74;

pub open spec fn has_suffix(b: Seq<u8>, suffix: Seq<u8>) -> bool {
    suffix.len() <= b.len() && b.subrange(b.len() - suffix.len(), b.len() as int) == suffix
}

pub open spec fn without_suffix(b: Seq<u8>, suffix: Seq<u8>) -> Seq<u8> {
    if has_suffix(b, suffix) {
        b.subrange(0, b.len() - suffix.len())
    } else {
        b
    }
}

pub open spec fn per_second_suffix() -> Seq<u8> {
    seq![ASCII_SLASH, ASCII_S]
}

pub open spec fn bit_suffix() -> Seq<u8> {
    seq![ASCII_B, ASCII_I, ASCII_T]
}

/// The rate in bytes per second that a text names, or the size parser's
/// error message: an optional `/s` comes
/// off first; then a size with a `bit` suffix counts in bits, rounded down
/// to whole bytes, and any other size in bytes.
pub open spec fn rate_of(text: Seq<u8>) -> Result<u64, Seq<char>> {
    let body = without_suffix(text, per_second_suffix());
    if has_suffix(body, bit_suffix()) {
        match byte_size_parse(without_suffix(body, bit_suffix())) {
            Ok(bits) => Ok(in_bytes(bits, true)),
            Err(e) => Err(e),
        }
    } else {
        match byte_size_parse(body) {
            Ok(bytes) => Ok(in_bytes(bytes, false)),
            Err(e) => Err(e),
        }
    }
}

/// A size in bytes, given in bits or in bytes; bits round down to whole
/// bytes.
pub open spec fn in_bytes(size: u64, in_bits: bool) -> u64 {
    if in_bits {
        (size / 8) as u64
    } else {
        size
    }
}

pub fn size_in_bytes(size: u64, in_bits: bool) -> (r: u64)
    ensures
        r == in_bytes(size, in_bits),
{
    if in_bits {
        size / 8
    } else {
        size
    }
}

/// `text` without `suffix` at its end, and whether it was there.
fn strip_ascii_suffix<'a>(text: &'a str, suffix: &[u8]) -> (r: (&'a str, bool))
    requires
        suffix@.len() > 0,
        suffix@[0] < 0x80,
    ensures
        r.1 == has_suffix(text.spec_bytes(), suffix@),
        r.0.spec_bytes() == without_suffix(text.spec_bytes(), suffix@),
{
    let b = text.as_bytes();
    let n = b.len();
    let m = suffix.len();
    if m > n {
        return (text, false);
    }
    let start = n - m;
    let mut i: usize = 0;
    while i < m
        invariant
            b@ == text.spec_bytes(),
            n == b@.len(),
            m == suffix@.len(),
            start == n - m,
            i <= m,
            forall|j: int| 0 <= j < i ==> b@[start + j] == suffix@[j],
        decreases m - i,
    {
        if b[start + i] != suffix[i] {
            proof {
                let tail = b@.subrange(start as int, n as int);
                assert(tail[i as int] != suffix@[i as int]);
            }
            return (text, false);
        }
        i = i + 1;
    }
    proof {
        assert(b@.subrange(start as int, n as int) =~= suffix@);
        encode_utf8_valid_utf8(text@);
        is_char_boundary_iff_not_is_continuation_byte(text.spec_bytes(), start as int);
    }
    let (head, _) = text.split_at(start);
    (head, true)
}

/// Reads a target rate in bytes per second: "1 MiB", "8 Mbit/s", "1000".
pub fn parse_rate(full: &str) -> (r: Result<u64, String>)
    ensures
        r is Ok <==> rate_of(full.spec_bytes()) is Ok,
        r matches Ok(v) ==> rate_of(full.spec_bytes()) == Ok::<u64, Seq<char>>(v),
        r matches Err(e) ==> rate_of(full.spec_bytes()) == Err::<u64, Seq<char>>(e@),
{
    let per_second: [u8; 2] = [ASCII_SLASH, ASCII_S];
    let bit: [u8; 3] = [ASCII_B, ASCII_I, ASCII_T];
    assert(per_second@ =~= per_second_suffix());
    assert(bit@ =~= bit_suffix());
    let (without_second, _) = strip_ascii_suffix(full, per_second.as_slice());
    let (bits, is_bits) = strip_ascii_suffix(without_second, bit.as_slice());
    let text = if is_bits {
        bits
    } else {
        without_second
    };
    match parse_byte_size(text) {
        Ok(v) => Ok(size_in_bytes(v, is_bits)),
        Err(e) => Err(e),
    }
}

} // verus!
