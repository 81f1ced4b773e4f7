use tls_oracle::bn254::{decimal_to_le_bytes, G1Point, G2Point, Scalar};

const Q_DEC: &str = "21888242871839275222246405745257275088696311157297823662689037894645226208583";
const Q_LE: [u8; 32] = [
    0x47, 0xFD, 0x7C, 0xD8, 0x16, 0x8C, 0x20, 0x3C, 0x8d, 0xca, 0x71, 0x68, 0x91, 0x6a, 0x81, 0x97,
    0x5d, 0x58, 0x81, 0x81, 0xb6, 0x45, 0x50, 0xb8, 0x29, 0xa0, 0x31, 0xe1, 0x72, 0x4e, 0x64, 0x30,
];

fn le_of_u128(v: u128) -> [u8; 32] {
    let mut out = [0u8; 32];
    out[..16].copy_from_slice(&v.to_le_bytes());
    out
}

#[test]
fn decimal_small_values() {
    assert_eq!(decimal_to_le_bytes("0"), [0u8; 32]);
    assert_eq!(decimal_to_le_bytes("1"), le_of_u128(1));
    assert_eq!(decimal_to_le_bytes("255"), le_of_u128(255));
    assert_eq!(decimal_to_le_bytes("256"), le_of_u128(256));
    assert_eq!(decimal_to_le_bytes("1234567890123"), le_of_u128(1234567890123));
}

#[test]
fn decimal_empty_is_zero() {
    assert_eq!(decimal_to_le_bytes(""), [0u8; 32]);
}

#[test]
fn decimal_skips_non_digits() {
    assert_eq!(decimal_to_le_bytes("1,000"), le_of_u128(1000));
    assert_eq!(decimal_to_le_bytes(" 4_2 "), le_of_u128(42));
    assert_eq!(decimal_to_le_bytes("ab\u{0663}7"), le_of_u128(7));
}

#[test]
fn decimal_of_modulus() {
    assert_eq!(decimal_to_le_bytes(Q_DEC), Q_LE);
}

#[test]
fn decimal_wraps_past_256_bits() {
    let two_256 = "115792089237316195423570985008687907853269984665640564039457584007913129639936";
    let two_256_plus_5 = "115792089237316195423570985008687907853269984665640564039457584007913129639941";
    assert_eq!(decimal_to_le_bytes(two_256), [0u8; 32]);
    assert_eq!(decimal_to_le_bytes(two_256_plus_5), le_of_u128(5));
}

#[test]
fn decimal_round_trip() {
    for v in [0u128, 9, 10, 99, 65535, 18446744073709551616, u128::MAX] {
        let text = v.to_string();
        assert_eq!(decimal_to_le_bytes(&text), le_of_u128(v));
    }
}

#[test]
fn neg_of_zero_is_modulus() {
    let p = G1Point { x: le_of_u128(3), y: [0u8; 32] };
    let n = p.neg();
    assert_eq!(n.x, le_of_u128(3));
    assert_eq!(n.y, Q_LE);
}

#[test]
fn neg_of_small_value() {
    let p = G1Point { x: le_of_u128(1), y: le_of_u128(2) };
    let n = p.neg();
    let expected = decimal_to_le_bytes(
        "21888242871839275222246405745257275088696311157297823662689037894645226208581",
    );
    assert_eq!(n.y, expected);
}

#[test]
fn neg_twice_gives_back_y() {
    let p = G1Point::from_decimal("5", "123456789012345678901234567890");
    let twice = p.neg().neg();
    assert_eq!(twice.x, p.x);
    assert_eq!(twice.y, p.y);
}

#[test]
fn neg_of_modulus_is_zero() {
    let p = G1Point { x: [0u8; 32], y: Q_LE };
    assert_eq!(p.neg().y, [0u8; 32]);
}

#[test]
fn neg_above_modulus_wraps() {
    let q_plus_1 = decimal_to_le_bytes(
        "21888242871839275222246405745257275088696311157297823662689037894645226208584",
    );
    let p = G1Point { x: [0u8; 32], y: q_plus_1 };
    assert_eq!(p.neg().y, [0xffu8; 32]);
}

#[test]
fn g1_to_bytes_is_x_then_y() {
    let p = G1Point { x: [1u8; 32], y: [2u8; 32] };
    let b = p.to_bytes();
    assert_eq!(&b[..32], &[1u8; 32]);
    assert_eq!(&b[32..], &[2u8; 32]);
}

#[test]
fn g2_to_bytes_puts_imaginary_first() {
    let p = G2Point { x_im: [1u8; 32], x_re: [2u8; 32], y_im: [3u8; 32], y_re: [4u8; 32] };
    let b = p.to_bytes();
    assert_eq!(&b[..32], &[1u8; 32]);
    assert_eq!(&b[32..64], &[2u8; 32]);
    assert_eq!(&b[64..96], &[3u8; 32]);
    assert_eq!(&b[96..], &[4u8; 32]);
}

#[test]
fn scalar_from_decimal_and_bytes() {
    let s = Scalar::from_decimal("513");
    assert_eq!(s.to_bytes(), le_of_u128(513));
    assert_eq!(s.0, le_of_u128(513));
}
