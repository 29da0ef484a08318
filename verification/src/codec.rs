//! Building blocks of the wire formats: little-endian integers, fixed 32-byte
//! identities and length-prefixed UTF-8 strings.
//!
//! The layouts are spec functions over `Seq<u8>`, for the contracts of the whole crate.
//! The readers and writers are the crate's own tools: a reader takes the whole buffer
//! and a position that its caller has checked, and says which bytes it looked at.
use crate::error::TransferError;
use vstd::prelude::*;
use vstd::string::StringSliceAdditionalSpecFns;
use vstd::utf8::*;

verus! {

/// The number that `bytes` spell in little-endian order: the first byte counts least.
pub open spec fn le_value(bytes: Seq<u8>) -> nat
    decreases bytes.len(),
{
    if bytes.len() == 0 {
        0
    } else {
        bytes[0] as nat + 256 * le_value(bytes.drop_first())
    }
}

/// The `width` lowest base-256 digits of `value`, least significant first.
pub open spec fn le_bytes(value: nat, width: nat) -> Seq<u8>
    decreases width,
{
    if width == 0 {
        Seq::empty()
    } else {
        seq![(value % 256) as u8] + le_bytes(value / 256, (width - 1) as nat)
    }
}

/// One more than the largest number that `width` bytes can spell.
pub open spec fn le_bound(width: nat) -> nat
    decreases width,
{
    if width == 0 {
        1
    } else {
        256 * le_bound((width - 1) as nat)
    }
}

/// `count` zero bytes.
pub open spec fn zeros(count: nat) -> Seq<u8> {
    Seq::new(count, |i: int| 0u8)
}

/// `width` digits are `width` bytes.
pub proof fn lemma_le_bytes_len(value: nat, width: nat)
    ensures
        le_bytes(value, width).len() == width,
    decreases width,
{
    if width > 0 {
        lemma_le_bytes_len(value / 256, (width - 1) as nat);
    }
}

/// What bytes spell stays below the bound of their number.
pub proof fn lemma_le_value_bound(bytes: Seq<u8>)
    ensures
        le_value(bytes) < le_bound(bytes.len()),
    decreases bytes.len(),
{
    if bytes.len() > 0 {
        lemma_le_value_bound(bytes.drop_first());
    }
}

/// Spelling out the number that some bytes spell gives the same bytes back.
pub proof fn lemma_le_bytes_of_value(bytes: Seq<u8>)
    ensures
        le_bytes(le_value(bytes), bytes.len()) == bytes,
    decreases bytes.len(),
{
    if bytes.len() > 0 {
        let rest = bytes.drop_first();
        lemma_le_bytes_of_value(rest);
        let v = le_value(bytes);
        assert(v % 256 == bytes[0] as nat);
        assert(v / 256 == le_value(rest));
        assert(le_bytes(v, bytes.len()) =~= bytes);
    } else {
        assert(le_bytes(le_value(bytes), bytes.len()) =~= bytes);
    }
}

/// Reading back the digits of a number that fits in `width` bytes gives the number.
pub proof fn lemma_le_value_of_bytes(value: nat, width: nat)
    requires
        value < le_bound(width),
    ensures
        le_value(le_bytes(value, width)) == value,
    decreases width,
{
    if width > 0 {
        let rest = le_bytes(value / 256, (width - 1) as nat);
        lemma_le_value_of_bytes(value / 256, (width - 1) as nat);
        assert(le_bytes(value, width).drop_first() =~= rest);
    }
}

/// The bounds of four and of eight bytes: those of `u32` and of `u64`.
pub proof fn lemma_le_bounds()
    ensures
        le_bound(4) == 0x1_0000_0000,
        le_bound(8) == 0x1_0000_0000_0000_0000,
{
    reveal_with_fuel(le_bound, 9);
}

/// The zero of any width is spelt by zero bytes, and zero bytes spell zero.
pub proof fn lemma_le_zero(width: nat)
    ensures
        le_value(zeros(width)) == 0,
        le_bytes(0, width) == zeros(width),
    decreases width,
{
    if width > 0 {
        lemma_le_zero((width - 1) as nat);
        assert(zeros(width).drop_first() =~= zeros((width - 1) as nat));
        assert(le_bytes(0, width) =~= zeros(width));
    } else {
        assert(le_bytes(0, width) =~= zeros(width));
    }
}

/// Four bytes, spelt out.
proof fn lemma_le_value_4(s: Seq<u8>)
    requires
        s.len() == 4,
    ensures
        le_value(s) == s[0] + 0x100 * s[1] + 0x1_0000 * s[2] + 0x100_0000 * s[3],
{
    let s1 = s.drop_first();
    let s2 = s1.drop_first();
    let s3 = s2.drop_first();
    assert(le_value(s3.drop_first()) == 0);
    assert(le_value(s3) == s[3] as nat);
    assert(le_value(s2) == s[2] as nat + 256 * le_value(s3));
    assert(le_value(s1) == s[1] as nat + 256 * le_value(s2));
}

/// Eight bytes are a low and a high half.
proof fn lemma_le_value_8(s: Seq<u8>)
    requires
        s.len() == 8,
    ensures
        le_value(s) == le_value(s.subrange(0, 4)) + 0x1_0000_0000 * le_value(s.subrange(4, 8)),
{
    let lo = s.subrange(0, 4);
    let hi = s.subrange(4, 8);
    lemma_le_value_4(lo);
    lemma_le_value_4(hi);
    let s1 = s.drop_first();
    let s2 = s1.drop_first();
    let s3 = s2.drop_first();
    let s4 = s3.drop_first();
    assert(s4 =~= hi);
    assert(le_value(s3) == s[3] as nat + 256 * le_value(s4));
    assert(le_value(s2) == s[2] as nat + 256 * le_value(s3));
    assert(le_value(s1) == s[1] as nat + 256 * le_value(s2));
}

/// Reads the four bytes at `at` as a little-endian number.
pub(crate) fn read_u32_le(data: &[u8], at: usize) -> (value: u32)
    requires
        at + 4 <= data.len(),
    ensures
        value as nat == le_value(data@.subrange(at as int, at + 4)),
{
    proof {
        lemma_le_value_4(data@.subrange(at as int, at + 4));
    }
    let b0: u32 = data[at] as u32;
    let b1: u32 = data[at + 1] as u32;
    let b2: u32 = data[at + 2] as u32;
    let b3: u32 = data[at + 3] as u32;
    b0 + 0x100 * b1 + 0x1_0000 * b2 + 0x100_0000 * b3
}

/// Reads the eight bytes at `at` as a little-endian number.
pub(crate) fn read_u64_le(data: &[u8], at: usize) -> (value: u64)
    requires
        at + 8 <= data.len(),
    ensures
        value as nat == le_value(data@.subrange(at as int, at + 8)),
{
    let low: u64 = read_u32_le(data, at) as u64;
    let high: u64 = read_u32_le(data, at + 4) as u64;
    proof {
        let s = data@.subrange(at as int, at + 8);
        lemma_le_value_8(s);
        assert(s.subrange(0, 4) =~= data@.subrange(at as int, at + 4));
        assert(s.subrange(4, 8) =~= data@.subrange(at + 4, at + 8));
    }
    low + 0x1_0000_0000 * high
}

/// Appends the `width` low bytes of `value`, least significant first.
fn write_le(out: &mut Vec<u8>, value: u64, width: usize)
    ensures
        final(out)@ == old(out)@ + le_bytes(value as nat, width as nat),
{
    let mut rest: u64 = value;
    let mut done: usize = 0;
    assert(out@ =~= old(out)@ + Seq::<u8>::empty());
    while done < width
        invariant
            done <= width,
            old(out)@ + le_bytes(value as nat, width as nat) == out@ + le_bytes(
                rest as nat,
                (width - done) as nat,
            ),
        decreases width - done,
    {
        let ghost before = out@;
        let digit: u8 = (rest % 256) as u8;
        out.push(digit);
        proof {
            let tail = le_bytes((rest / 256) as nat, (width - done - 1) as nat);
            assert(le_bytes(rest as nat, (width - done) as nat) == seq![digit] + tail);
            assert(before + (seq![digit] + tail) =~= out@ + tail);
        }
        rest = rest / 256;
        done = done + 1;
    }
    assert(out@ + le_bytes(rest as nat, 0) =~= out@);
}

/// Appends `value` as four little-endian bytes.
pub(crate) fn write_u32_le(out: &mut Vec<u8>, value: u32)
    ensures
        final(out)@ == old(out)@ + le_bytes(value as nat, 4),
{
    write_le(out, value as u64, 4);
}

/// Appends `value` as eight little-endian bytes.
pub(crate) fn write_u64_le(out: &mut Vec<u8>, value: u64)
    ensures
        final(out)@ == old(out)@ + le_bytes(value as nat, 8),
{
    write_le(out, value, 8);
}

/// Copies the 32 bytes at `at` out of `data`.
pub(crate) fn read_bytes32(data: &[u8], at: usize) -> (value: [u8; 32])
    requires
        at + 32 <= data.len(),
    ensures
        value@ == data@.subrange(at as int, at + 32),
{
    let mut value: [u8; 32] = [0u8; 32];
    let mut i: usize = 0;
    while i < 32
        invariant
            i <= 32,
            at + 32 <= data.len(),
            forall|j: int| 0 <= j < i ==> value@[j] == data@[at + j],
        decreases 32 - i,
    {
        value[i] = data[at + i];
        i = i + 1;
    }
    assert(value@ =~= data@.subrange(at as int, at + 32));
    value
}

/// Appends all of `bytes`.
pub(crate) fn write_bytes(out: &mut Vec<u8>, bytes: &[u8])
    ensures
        final(out)@ == old(out)@ + bytes@,
{
    let mut i: usize = 0;
    assert(out@ =~= old(out)@ + bytes@.subrange(0, 0));
    while i < bytes.len()
        invariant
            i <= bytes@.len(),
            out@ == old(out)@ + bytes@.subrange(0, i as int),
        decreases bytes@.len() - i,
    {
        out.push(bytes[i]);
        assert(out@ =~= old(out)@ + bytes@.subrange(0, i + 1));
        i = i + 1;
    }
    assert(bytes@.subrange(0, i as int) =~= bytes@);
}

/// Whether two identities are the same 32 bytes.
pub(crate) fn bytes32_eq(a: &[u8; 32], b: &[u8; 32]) -> (same: bool)
    ensures
        same == (a@ == b@),
{
    let mut i: usize = 0;
    while i < 32
        invariant
            i <= 32,
            forall|j: int| 0 <= j < i ==> a@[j] == b@[j],
        decreases 32 - i,
    {
        if a[i] != b[i] {
            return false;
        }
        i = i + 1;
    }
    assert(a@ =~= b@);
    true
}

/// `std::string::String::from_utf8`, with the error reduced to `None`.
///
/// Trusted: the standard library accepts exactly the byte sequences that are well-formed
/// UTF-8, which is what `valid_utf8` says, and the string it builds holds the characters
/// that those bytes encode.
#[verifier::external_body]
fn string_from_utf8(bytes: Vec<u8>) -> (text: Option<String>)
    ensures
        match text {
            Some(s) => valid_utf8(bytes@) && s@ == decode_utf8(bytes@),
            None => !valid_utf8(bytes@),
        },
{
    String::from_utf8(bytes).ok()
}

/// Reads the bytes from `start` up to `end` as UTF-8 text; `None` where they are not.
pub(crate) fn read_utf8(data: &[u8], start: usize, end: usize) -> (text: Option<String>)
    requires
        start <= end <= data.len(),
    ensures
        match text {
            Some(s) => valid_utf8(data@.subrange(start as int, end as int)) && s@ == decode_utf8(
                data@.subrange(start as int, end as int),
            ),
            None => !valid_utf8(data@.subrange(start as int, end as int)),
        },
{
    let mut utf8: Vec<u8> = Vec::new();
    write_bytes(&mut utf8, vstd::slice::slice_subrange(data, start, end));
    assert(utf8@ =~= data@.subrange(start as int, end as int));
    string_from_utf8(utf8)
}

/// A string on the wire: its length in bytes as four little-endian bytes, then its UTF-8.
pub open spec fn string_bytes(text: Seq<char>) -> Seq<u8> {
    le_bytes(encode_utf8(text).len(), 4) + encode_utf8(text)
}

/// Whether the length of `text` in bytes can be written in the four-byte prefix.
pub open spec fn string_fits(text: Seq<char>) -> bool {
    encode_utf8(text).len() <= u32::MAX
}

/// What a length-prefixed string at the front of `bytes` holds, and how many bytes it
/// takes. Bytes behind it are not looked at.
pub open spec fn parse_string(bytes: Seq<u8>) -> Result<(Seq<char>, int), TransferError> {
    if bytes.len() < 4 {
        Err(TransferError::InsufficientPayloadLength)
    } else {
        let len = le_value(bytes.subrange(0, 4)) as int;
        if bytes.len() < 4 + len {
            Err(TransferError::InsufficientPayloadLength)
        } else if !valid_utf8(bytes.subrange(4, 4 + len)) {
            Err(TransferError::InvalidEncoding)
        } else {
            Ok((decode_utf8(bytes.subrange(4, 4 + len)), 4 + len))
        }
    }
}

/// A string that was written is read back, whatever follows it.
pub proof fn lemma_parse_string_of_bytes(text: Seq<char>, rest: Seq<u8>)
    requires
        string_fits(text),
    ensures
        parse_string(string_bytes(text) + rest) == Ok::<(Seq<char>, int), TransferError>(
            (text, string_bytes(text).len() as int),
        ),
        string_bytes(text).len() == 4 + encode_utf8(text).len(),
{
    let utf8 = encode_utf8(text);
    let all = string_bytes(text) + rest;
    lemma_le_bytes_len(utf8.len(), 4);
    lemma_le_bounds();
    lemma_le_value_of_bytes(utf8.len(), 4);
    assert(all.subrange(0, 4) =~= le_bytes(utf8.len(), 4));
    assert(all.subrange(4, 4 + utf8.len() as int) =~= utf8);
    encode_utf8_valid_utf8(text);
    encode_utf8_decode_utf8(text);
}

/// Bytes that read as a string start with exactly what writing that string gives.
pub proof fn lemma_string_bytes_of_parse(bytes: Seq<u8>)
    requires
        parse_string(bytes) is Ok,
    ensures
        ({
            let (text, used) = parse_string(bytes)->Ok_0;
            &&& 4 <= used <= bytes.len()
            &&& string_fits(text)
            &&& string_bytes(text) == bytes.subrange(0, used)
        }),
{
    let (text, used) = parse_string(bytes)->Ok_0;
    let prefix = bytes.subrange(0, 4);
    let utf8 = bytes.subrange(4, used);
    lemma_le_value_bound(prefix);
    lemma_le_bounds();
    lemma_le_bytes_of_value(prefix);
    decode_utf8_encode_utf8(utf8);
    assert(string_bytes(text) =~= bytes.subrange(0, used));
}

/// Reads the length-prefixed string at `at`: the string and the position behind it.
pub(crate) fn read_string(data: &[u8], at: usize) -> (r: Result<(String, usize), TransferError>)
    requires
        at <= data.len(),
    ensures
        match r {
            Ok((text, next)) => parse_string(data@.skip(at as int)) == Ok::<
                (Seq<char>, int),
                TransferError,
            >((text@, next - at)) && at + 4 <= next <= data@.len(),
            Err(e) => parse_string(data@.skip(at as int)) == Err::<
                (Seq<char>, int),
                TransferError,
            >(e),
        },
{
    let ghost tail = data@.skip(at as int);
    if data.len() - at < 4 {
        return Err(TransferError::InsufficientPayloadLength);
    }
    let len: usize = read_u32_le(data, at) as usize;
    assert(tail.subrange(0, 4) =~= data@.subrange(at as int, at + 4));
    if data.len() - at - 4 < len {
        return Err(TransferError::InsufficientPayloadLength);
    }
    let start: usize = at + 4;
    let end: usize = start + len;
    assert(data@.subrange(start as int, end as int) =~= tail.subrange(4, 4 + len));
    match read_utf8(data, start, end) {
        Some(text) => Ok((text, end)),
        None => Err(TransferError::InvalidEncoding),
    }
}

/// Appends `text` as a length-prefixed string, or leaves `out` alone and returns `false`
/// where its length does not fit the prefix.
pub(crate) fn write_string(out: &mut Vec<u8>, text: &String) -> (written: bool)
    ensures
        written == string_fits(text@),
        written ==> final(out)@ == old(out)@ + string_bytes(text@),
        !written ==> final(out)@ == old(out)@,
{
    let utf8: &[u8] = text.as_str().as_bytes();
    if utf8.len() > 0xffff_ffff {
        return false;
    }
    write_u32_le(out, utf8.len() as u32);
    write_bytes(out, utf8);
    assert(out@ =~= old(out)@ + string_bytes(text@));
    true
}

} // verus!
