use tiffdec::lowlevel::read_i16;
use tiffdec::lowlevel::read_i16_array;
use tiffdec::lowlevel::read_i32;
use tiffdec::lowlevel::read_i32_array;
use tiffdec::lowlevel::read_i8_array;
use tiffdec::lowlevel::read_irational;
use tiffdec::lowlevel::read_irational_array;
use tiffdec::lowlevel::read_u16;
use tiffdec::lowlevel::read_u16_array;
use tiffdec::lowlevel::read_u32;
use tiffdec::lowlevel::read_u32_array;
use tiffdec::lowlevel::read_urational;
use tiffdec::lowlevel::read_urational_array;
use tiffdec::rational::IRational;
use tiffdec::rational::URational;

#[test]
fn u16_one_and_two_fifty_six() {
    let raw = [0x01u8, 0x00];
    assert_eq!(read_u16(true, &raw), 1);
    assert_eq!(read_u16(false, &raw), 256);
}

#[test]
fn u16_all_ones_either_endianness() {
    let raw = [0xFFu8, 0xFF];
    assert_eq!(read_u16(true, &raw), 65535);
    assert_eq!(read_u16(false, &raw), 65535);
    assert_eq!(read_i16(true, &raw), -1);
    assert_eq!(read_i16(false, &raw), -1);
}

#[test]
fn u16_round_trip_bytes() {
    let raw = [0xCDu8, 0xAB];
    let v = read_u16(true, &raw);
    assert_eq!(v, 0xABCD);
    assert_eq!([(v % 0x100) as u8, (v / 0x100) as u8], raw);
    let w = read_u16(false, &raw);
    assert_eq!(w, 0xCDAB);
    assert_eq!([(w / 0x100) as u8, (w % 0x100) as u8], raw);
}

#[test]
fn i16_sign_boundary() {
    assert_eq!(read_i16(false, &[0x7F, 0xFF]), 0x7FFF);
    assert_eq!(read_i16(false, &[0x80, 0x00]), -0x8000);
    assert_eq!(read_i16(true, &[0x00, 0x80]), -0x8000);
    assert_eq!(read_i16(false, &[0x00, 0x2A]), 42);
}

#[test]
fn u32_both_endiannesses() {
    let raw = [0x12u8, 0x34, 0x56, 0x78];
    assert_eq!(read_u32(false, &raw), 0x1234_5678);
    assert_eq!(read_u32(true, &raw), 0x7856_3412);
}

#[test]
fn i32_sign_boundary() {
    assert_eq!(read_i32(false, &[0xFF, 0xFF, 0xFF, 0xF6]), -10);
    assert_eq!(read_i32(false, &[0x80, 0x00, 0x00, 0x00]), i32::MIN);
    assert_eq!(read_i32(false, &[0x7F, 0xFF, 0xFF, 0xFF]), i32::MAX);
    assert_eq!(read_i32(true, &[0xF6, 0xFF, 0xFF, 0xFF]), -10);
    assert_eq!(read_i32(true, &[0x05, 0x00, 0x00, 0x00]), 5);
}

#[test]
fn urational_big_endian() {
    let raw = [0x00u8, 0x00, 0x00, 0x0A, 0x00, 0x00, 0x00, 0x02];
    let r = read_urational(false, &raw);
    assert_eq!(
        r,
        URational {
            numerator: 10,
            denominator: 2
        }
    );
}

#[test]
fn irational_big_endian_negative() {
    let raw = [0xFFu8, 0xFF, 0xFF, 0xF6, 0x00, 0x00, 0x00, 0x02];
    let r = read_irational(false, &raw);
    assert_eq!(
        r,
        IRational {
            numerator: -10,
            denominator: 2
        }
    );
}

#[test]
fn urational_zero_denominator() {
    let raw = [0x00u8, 0x00, 0x00, 0x07, 0x00, 0x00, 0x00, 0x00];
    let r = read_urational(false, &raw);
    assert_eq!(r.numerator, 7);
    assert_eq!(r.denominator, 0);
}

#[test]
fn urational_little_endian() {
    let raw = [0x0Au8, 0x00, 0x00, 0x00, 0x02, 0x00, 0x00, 0x00];
    let r = read_urational(true, &raw);
    assert_eq!(r.numerator, 10);
    assert_eq!(r.denominator, 2);
}

#[test]
fn u32_array_three_elements() {
    let raw = [0u8, 0, 0, 1, 0, 0, 0, 2, 0, 0, 0, 3];
    assert_eq!(read_u32_array(false, 3, &raw), vec![1, 2, 3]);
}

#[test]
fn u32_array_count_zero() {
    let raw = [0u8, 0, 0, 1];
    assert_eq!(read_u32_array(false, 0, &raw), Vec::<u32>::new());
    assert_eq!(read_u16_array(false, 0, &raw), Vec::<u16>::new());
    assert_eq!(read_i8_array(0, &raw), Vec::<i8>::new());
}

#[test]
fn i8_array_reinterprets_each_byte() {
    let raw = [0x00u8, 0x7F, 0x80, 0xFF, 0x2A];
    assert_eq!(read_i8_array(5, &raw), vec![0, 127, -128, -1, 42]);
}

#[test]
fn u16_array_little_endian() {
    let raw = [0x01u8, 0x00, 0x00, 0x01, 0xFF, 0xFF];
    assert_eq!(read_u16_array(true, 3, &raw), vec![1, 256, 65535]);
}

#[test]
fn i16_array_big_endian() {
    let raw = [0xFFu8, 0xFF, 0x00, 0x05, 0x80, 0x00];
    assert_eq!(read_i16_array(false, 3, &raw), vec![-1, 5, -0x8000]);
}

#[test]
fn i32_array_mixed_signs() {
    let raw = [0xFFu8, 0xFF, 0xFF, 0xF6, 0x00, 0x00, 0x00, 0x0A];
    assert_eq!(read_i32_array(false, 2, &raw), vec![-10, 10]);
}

#[test]
fn urational_array_two_elements() {
    let raw = [
        0x00u8, 0x00, 0x00, 0x01, 0x00, 0x00, 0x00, 0x02, 0x00, 0x00, 0x00, 0x03, 0x00, 0x00,
        0x00, 0x04,
    ];
    let a = read_urational_array(false, 2, &raw);
    assert_eq!(a.len(), 2);
    assert_eq!(a[0].numerator, 1);
    assert_eq!(a[0].denominator, 2);
    assert_eq!(a[1].numerator, 3);
    assert_eq!(a[1].denominator, 4);
}

#[test]
fn irational_array_little_endian() {
    let raw = [
        0xF6u8, 0xFF, 0xFF, 0xFF, 0x02, 0x00, 0x00, 0x00, 0x05, 0x00, 0x00, 0x00, 0x01, 0x00,
        0x00, 0x00,
    ];
    let a = read_irational_array(true, 2, &raw);
    assert_eq!(a.len(), 2);
    assert_eq!(a[0].numerator, -10);
    assert_eq!(a[0].denominator, 2);
    assert_eq!(a[1].numerator, 5);
    assert_eq!(a[1].denominator, 1);
}

#[test]
fn array_reads_prefix_only() {
    let short = [0x00u8, 0x01, 0x00, 0x02];
    let long = [0x00u8, 0x01, 0x00, 0x02, 0xAA, 0xBB];
    assert_eq!(read_u16_array(false, 2, &short), read_u16_array(false, 2, &long));
}
