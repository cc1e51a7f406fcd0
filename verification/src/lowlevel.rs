//! Scalar and array decoders: each reads fixed-width values from the front of
//! a byte slice, interpreting multi-byte integers under an explicit
//! endianness flag (`le == true` for little-endian).

use crate::rational::IRational;
use crate::rational::URational;
use vstd::arithmetic::div_mod::lemma_fundamental_div_mod_converse;
use vstd::prelude::*;
use vstd::slice::slice_subrange;

verus! {

/// The unsigned 16-bit value held by the first two bytes of `s`:
/// the byte-weighted sum with the most significant byte at index 0
/// (big-endian) or index 1 (little-endian).
pub open spec fn u16_val(le: bool, s: Seq<u8>) -> int
    recommends
        s.len() >= 2,
{
    if le {
        s[1] * 0x100 + s[0]
    } else {
        s[0] * 0x100 + s[1]
    }
}

/// The signed 16-bit value held by the first two bytes of `s`:
/// the unsigned decode reinterpreted by two's complement.
pub open spec fn i16_val(le: bool, s: Seq<u8>) -> int
    recommends
        s.len() >= 2,
{
    if u16_val(le, s) >= 0x8000 {
        u16_val(le, s) - 0x10000
    } else {
        u16_val(le, s)
    }
}

/// The unsigned 32-bit value held by the first four bytes of `s`:
/// each byte weighted by 256^k, k its position from the least
/// significant end under the chosen endianness.
pub open spec fn u32_val(le: bool, s: Seq<u8>) -> int
    recommends
        s.len() >= 4,
{
    if le {
        s[3] * 0x100_0000 + s[2] * 0x1_0000 + s[1] * 0x100 + s[0]
    } else {
        s[0] * 0x100_0000 + s[1] * 0x1_0000 + s[2] * 0x100 + s[3]
    }
}

/// The signed 32-bit value held by the first four bytes of `s`:
/// the unsigned decode reinterpreted by two's complement.
pub open spec fn i32_val(le: bool, s: Seq<u8>) -> int
    recommends
        s.len() >= 4,
{
    if u32_val(le, s) >= 0x8000_0000 {
        u32_val(le, s) - 0x1_0000_0000
    } else {
        u32_val(le, s)
    }
}

/// The signed 8-bit value held by one byte: its two's-complement
/// reinterpretation.
pub open spec fn i8_val(b: u8) -> int {
    if b >= 0x80 {
        b - 0x100
    } else {
        b as int
    }
}

/// The two bytes that encode an unsigned 16-bit value under the given
/// endianness: least significant byte first when `le`, most significant
/// byte first otherwise.
pub open spec fn u16_bytes(le: bool, v: int) -> Seq<u8>
    recommends
        0 <= v < 0x10000,
{
    if le {
        seq![(v % 0x100) as u8, (v / 0x100) as u8]
    } else {
        seq![(v / 0x100) as u8, (v % 0x100) as u8]
    }
}

/// Round trip: decoding any two-byte span as unsigned 16-bit and
/// re-deriving the bytes under the same endianness reproduces the span.
pub proof fn lemma_u16_round_trip(le: bool, s: Seq<u8>)
    requires
        s.len() == 2,
    ensures
        u16_bytes(le, u16_val(le, s)) == s,
{
    let v = u16_val(le, s);
    let hi = if le { s[1] } else { s[0] };
    let lo = if le { s[0] } else { s[1] };
    lemma_fundamental_div_mod_converse(v, 0x100, hi as int, lo as int);
    assert(u16_bytes(le, v) =~= s);
}

/// The signed 16-bit decode is the two's-complement reinterpretation of
/// the unsigned decode of the same span: it subtracts 0x10000 exactly
/// when the unsigned value is at least 0x8000, and is the unsigned
/// value otherwise.
pub proof fn lemma_i16_sign_extension(le: bool, s: Seq<u8>)
    requires
        s.len() >= 2,
    ensures
        u16_val(le, s) >= 0x8000 ==> i16_val(le, s) == u16_val(le, s) - 0x10000,
        u16_val(le, s) < 0x8000 ==> i16_val(le, s) == u16_val(le, s),
{
}

/// The signed 32-bit decode is the two's-complement reinterpretation of
/// the unsigned decode of the same span: it subtracts 0x1_0000_0000
/// exactly when the unsigned value is at least 0x8000_0000, and is the
/// unsigned value otherwise.
pub proof fn lemma_i32_sign_extension(le: bool, s: Seq<u8>)
    requires
        s.len() >= 4,
    ensures
        u32_val(le, s) >= 0x8000_0000 ==> i32_val(le, s) == u32_val(le, s) - 0x1_0000_0000,
        u32_val(le, s) < 0x8000_0000 ==> i32_val(le, s) == u32_val(le, s),
{
}

/// Read an unsigned 16-bit value from the front of a byte slice.
pub fn read_u16(le: bool, raw: &[u8]) -> (r: u16)
    requires
        raw@.len() >= 2,
    ensures
        r == u16_val(le, raw@),
{
    if le {
        (raw[1] as u16) * 0x100 + (raw[0] as u16)
    } else {
        (raw[0] as u16) * 0x100 + (raw[1] as u16)
    }
}

/// Read a signed 16-bit value from the front of a byte slice.
pub fn read_i16(le: bool, raw: &[u8]) -> (r: i16)
    requires
        raw@.len() >= 2,
    ensures
        r == i16_val(le, raw@),
{
    let u: i32 = read_u16(le, raw) as i32;
    if u >= 0x8000 {
        (u - 0x10000) as i16
    } else {
        u as i16
    }
}

/// Read an unsigned 32-bit value from the front of a byte slice.
pub fn read_u32(le: bool, raw: &[u8]) -> (r: u32)
    requires
        raw@.len() >= 4,
    ensures
        r == u32_val(le, raw@),
{
    if le {
        (raw[3] as u32) * 0x100_0000 + (raw[2] as u32) * 0x1_0000 + (raw[1] as u32) * 0x100
            + (raw[0] as u32)
    } else {
        (raw[0] as u32) * 0x100_0000 + (raw[1] as u32) * 0x1_0000 + (raw[2] as u32) * 0x100
            + (raw[3] as u32)
    }
}

/// Read a signed 32-bit value from the front of a byte slice.
pub fn read_i32(le: bool, raw: &[u8]) -> (r: i32)
    requires
        raw@.len() >= 4,
    ensures
        r == i32_val(le, raw@),
{
    let u: i64 = read_u32(le, raw) as i64;
    if u >= 0x8000_0000 {
        (u - 0x1_0000_0000) as i32
    } else {
        u as i32
    }
}

/// Read an unsigned rational from the front of a byte slice: the
/// numerator from the first four bytes, the denominator from the next
/// four, both under the same endianness.
pub fn read_urational(le: bool, raw: &[u8]) -> (r: URational)
    requires
        raw@.len() >= 8,
    ensures
        r.numerator == u32_val(le, raw@.subrange(0, 4)),
        r.denominator == u32_val(le, raw@.subrange(4, 8)),
{
    let n = read_u32(le, slice_subrange(raw, 0, 4));
    let d = read_u32(le, slice_subrange(raw, 4, 8));
    URational { numerator: n, denominator: d }
}

/// Read a signed rational from the front of a byte slice: the
/// numerator from the first four bytes, the denominator from the next
/// four, both under the same endianness.
pub fn read_irational(le: bool, raw: &[u8]) -> (r: IRational)
    requires
        raw@.len() >= 8,
    ensures
        r.numerator == i32_val(le, raw@.subrange(0, 4)),
        r.denominator == i32_val(le, raw@.subrange(4, 8)),
{
    let n = read_i32(le, slice_subrange(raw, 0, 4));
    let d = read_i32(le, slice_subrange(raw, 4, 8));
    IRational { numerator: n, denominator: d }
}

/// Read `count` signed 8-bit values, one per byte, in buffer order.
pub fn read_i8_array(count: u32, raw: &[u8]) -> (r: Vec<i8>)
    requires
        raw@.len() >= count,
    ensures
        r@.len() == count,
        forall|j: int| 0 <= j < count ==> r@[j] == i8_val(raw@[j]),
{
    let mut a = Vec::<i8>::new();
    let mut i: u32 = 0;
    while i < count
        invariant
            i <= count,
            raw@.len() >= count,
            a@.len() == i,
            forall|j: int| 0 <= j < i ==> a@[j] == i8_val(raw@[j]),
        decreases count - i,
    {
        let b = raw[i as usize];
        if b >= 0x80 {
            a.push((b as i16 - 0x100) as i8);
        } else {
            a.push(b as i8);
        }
        i = i + 1;
    }
    a
}

/// Read `count` unsigned 16-bit values, two bytes each, in buffer
/// order, starting at offset 0 and advancing two bytes per element.
pub fn read_u16_array(le: bool, count: u32, raw: &[u8]) -> (r: Vec<u16>)
    requires
        raw@.len() >= 2 * count,
    ensures
        r@.len() == count,
        forall|j: int| 0 <= j < count ==> r@[j] == u16_val(le, raw@.subrange(2 * j, 2 * j + 2)),
{
    let mut a = Vec::<u16>::new();
    let n: usize = raw.len();
    let mut offset: usize = 0;
    let mut i: u32 = 0;
    while i < count
        invariant
            i <= count,
            offset == 2 * i,
            n == raw@.len(),
            n >= 2 * count,
            a@.len() == i,
            forall|j: int| 0 <= j < i ==> a@[j] == u16_val(le, raw@.subrange(2 * j, 2 * j + 2)),
        decreases count - i,
    {
        a.push(read_u16(le, slice_subrange(raw, offset, offset + 2)));
        offset = offset + 2;
        i = i + 1;
    }
    a
}

/// Read `count` signed 16-bit values, two bytes each, in buffer order,
/// starting at offset 0 and advancing two bytes per element.
pub fn read_i16_array(le: bool, count: u32, raw: &[u8]) -> (r: Vec<i16>)
    requires
        raw@.len() >= 2 * count,
    ensures
        r@.len() == count,
        forall|j: int| 0 <= j < count ==> r@[j] == i16_val(le, raw@.subrange(2 * j, 2 * j + 2)),
{
    let mut a = Vec::<i16>::new();
    let n: usize = raw.len();
    let mut offset: usize = 0;
    let mut i: u32 = 0;
    while i < count
        invariant
            i <= count,
            offset == 2 * i,
            n == raw@.len(),
            n >= 2 * count,
            a@.len() == i,
            forall|j: int| 0 <= j < i ==> a@[j] == i16_val(le, raw@.subrange(2 * j, 2 * j + 2)),
        decreases count - i,
    {
        a.push(read_i16(le, slice_subrange(raw, offset, offset + 2)));
        offset = offset + 2;
        i = i + 1;
    }
    a
}

/// Read `count` unsigned 32-bit values, four bytes each, in buffer
/// order, starting at offset 0 and advancing four bytes per element.
pub fn read_u32_array(le: bool, count: u32, raw: &[u8]) -> (r: Vec<u32>)
    requires
        raw@.len() >= 4 * count,
    ensures
        r@.len() == count,
        forall|j: int| 0 <= j < count ==> r@[j] == u32_val(le, raw@.subrange(4 * j, 4 * j + 4)),
{
    let mut a = Vec::<u32>::new();
    let n: usize = raw.len();
    let mut offset: usize = 0;
    let mut i: u32 = 0;
    while i < count
        invariant
            i <= count,
            offset == 4 * i,
            n == raw@.len(),
            n >= 4 * count,
            a@.len() == i,
            forall|j: int| 0 <= j < i ==> a@[j] == u32_val(le, raw@.subrange(4 * j, 4 * j + 4)),
        decreases count - i,
    {
        a.push(read_u32(le, slice_subrange(raw, offset, offset + 4)));
        offset = offset + 4;
        i = i + 1;
    }
    a
}

/// Read `count` signed 32-bit values, four bytes each, in buffer order,
/// starting at offset 0 and advancing four bytes per element.
pub fn read_i32_array(le: bool, count: u32, raw: &[u8]) -> (r: Vec<i32>)
    requires
        raw@.len() >= 4 * count,
    ensures
        r@.len() == count,
        forall|j: int| 0 <= j < count ==> r@[j] == i32_val(le, raw@.subrange(4 * j, 4 * j + 4)),
{
    let mut a = Vec::<i32>::new();
    let n: usize = raw.len();
    let mut offset: usize = 0;
    let mut i: u32 = 0;
    while i < count
        invariant
            i <= count,
            offset == 4 * i,
            n == raw@.len(),
            n >= 4 * count,
            a@.len() == i,
            forall|j: int| 0 <= j < i ==> a@[j] == i32_val(le, raw@.subrange(4 * j, 4 * j + 4)),
        decreases count - i,
    {
        a.push(read_i32(le, slice_subrange(raw, offset, offset + 4)));
        offset = offset + 4;
        i = i + 1;
    }
    a
}

/// Read `count` unsigned rationals, eight bytes each, in buffer order,
/// starting at offset 0 and advancing eight bytes per element.
pub fn read_urational_array(le: bool, count: u32, raw: &[u8]) -> (r: Vec<URational>)
    requires
        raw@.len() >= 8 * count,
    ensures
        r@.len() == count,
        forall|j: int|
            0 <= j < count ==> r@[j].numerator == u32_val(le, raw@.subrange(8 * j, 8 * j + 4))
                && r@[j].denominator == u32_val(le, raw@.subrange(8 * j + 4, 8 * j + 8)),
{
    let mut a = Vec::<URational>::new();
    let n: usize = raw.len();
    let mut offset: usize = 0;
    let mut i: u32 = 0;
    while i < count
        invariant
            i <= count,
            offset == 8 * i,
            n == raw@.len(),
            n >= 8 * count,
            a@.len() == i,
            forall|j: int|
                0 <= j < i ==> a@[j].numerator == u32_val(le, raw@.subrange(8 * j, 8 * j + 4))
                    && a@[j].denominator == u32_val(le, raw@.subrange(8 * j + 4, 8 * j + 8)),
        decreases count - i,
    {
        let chunk = slice_subrange(raw, offset, offset + 8);
        proof {
            assert(chunk@.subrange(0, 4) =~= raw@.subrange(8 * i, 8 * i + 4));
            assert(chunk@.subrange(4, 8) =~= raw@.subrange(8 * i + 4, 8 * i + 8));
        }
        a.push(read_urational(le, chunk));
        offset = offset + 8;
        i = i + 1;
    }
    a
}

/// Read `count` signed rationals, eight bytes each, in buffer order,
/// starting at offset 0 and advancing eight bytes per element.
pub fn read_irational_array(le: bool, count: u32, raw: &[u8]) -> (r: Vec<IRational>)
    requires
        raw@.len() >= 8 * count,
    ensures
        r@.len() == count,
        forall|j: int|
            0 <= j < count ==> r@[j].numerator == i32_val(le, raw@.subrange(8 * j, 8 * j + 4))
                && r@[j].denominator == i32_val(le, raw@.subrange(8 * j + 4, 8 * j + 8)),
{
    let mut a = Vec::<IRational>::new();
    let n: usize = raw.len();
    let mut offset: usize = 0;
    let mut i: u32 = 0;
    while i < count
        invariant
            i <= count,
            offset == 8 * i,
            n == raw@.len(),
            n >= 8 * count,
            a@.len() == i,
            forall|j: int|
                0 <= j < i ==> a@[j].numerator == i32_val(le, raw@.subrange(8 * j, 8 * j + 4))
                    && a@[j].denominator == i32_val(le, raw@.subrange(8 * j + 4, 8 * j + 8)),
        decreases count - i,
    {
        let chunk = slice_subrange(raw, offset, offset + 8);
        proof {
            assert(chunk@.subrange(0, 4) =~= raw@.subrange(8 * i, 8 * i + 4));
            assert(chunk@.subrange(4, 8) =~= raw@.subrange(8 * i + 4, 8 * i + 8));
        }
        a.push(read_irational(le, chunk));
        offset = offset + 8;
        i = i + 1;
    }
    a
}

} // verus!

