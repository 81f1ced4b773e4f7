//! BN254 (alt_bn128) points and scalars as the host curve primitives take them.
//!
//! - G1: 64 bytes, `x ‖ y`, each coordinate 32 bytes little-endian.
//! - G2: 128 bytes, `x_im ‖ x_re ‖ y_im ‖ y_re`: the host wants the imaginary
//!   part of each coordinate first.
//! - Scalar (Fr): 32 bytes little-endian.
use vstd::prelude::*;
use vstd::string::StringSliceAdditionalSpecFns;

verus! {

/// `256^n`.
pub open spec fn pow256(n: nat) -> nat
    decreases n,
{
    if n == 0 {
        1
    } else {
        256 * pow256((n - 1) as nat)
    }
}

/// Value of a little-endian byte sequence.
pub open spec fn le_value(b: Seq<u8>) -> nat
    decreases b.len(),
{
    if b.len() == 0 {
        0
    } else {
        b[0] as nat + 256 * le_value(b.drop_first())
    }
}

/// The `len` low bytes of `n`, little-endian.
pub open spec fn le_bytes(n: nat, len: nat) -> Seq<u8>
    decreases len,
{
    if len == 0 {
        Seq::empty()
    } else {
        seq![(n % 256) as u8] + le_bytes(n / 256, (len - 1) as nat)
    }
}

/// An ASCII decimal digit.
pub open spec fn is_digit(c: u8) -> bool {
    48 <= c <= 57
}

/// The number that the decimal digits of `s` spell, read in order; every
/// byte that is not a digit is skipped.
pub open spec fn decimal_value(s: Seq<u8>) -> nat
    decreases s.len(),
{
    if s.len() == 0 {
        0
    } else if is_digit(s.last()) {
        decimal_value(s.drop_last()) * 10 + (s.last() - 48) as nat
    } else {
        decimal_value(s.drop_last())
    }
}

/// The shortest decimal spelling of `n`, as ASCII bytes.
pub open spec fn decimal_digits(n: nat) -> Seq<u8>
    decreases n,
{
    if n < 10 {
        seq![(48 + n) as u8]
    } else {
        decimal_digits(n / 10).push((48 + n % 10) as u8)
    }
}

pub proof fn lemma_pow256_pos(n: nat)
    ensures
        pow256(n) > 0,
    decreases n,
{
    if n > 0 {
        lemma_pow256_pos((n - 1) as nat);
    }
}

pub proof fn lemma_le_value_bound(b: Seq<u8>)
    ensures
        le_value(b) < pow256(b.len()),
    decreases b.len(),
{
    if b.len() > 0 {
        lemma_le_value_bound(b.drop_first());
        assert(pow256(b.len()) == 256 * pow256(b.drop_first().len()));
    }
}

pub proof fn lemma_le_value_push(s: Seq<u8>, x: u8)
    ensures
        le_value(s.push(x)) == le_value(s) + x as nat * pow256(s.len()),
    decreases s.len(),
{
    if s.len() == 0 {
        assert(s.push(x).drop_first() =~= Seq::<u8>::empty());
        assert(pow256(0) == 1);
        assert(le_value(s.push(x)) == x as nat + 256 * le_value(s.push(x).drop_first()));
    } else {
        assert(s.push(x).drop_first() =~= s.drop_first().push(x));
        lemma_le_value_push(s.drop_first(), x);
        assert(pow256(s.len()) == 256 * pow256(s.drop_first().len()));
        assert(s.push(x)[0] == s[0]);
        assert(256 * (x as nat * pow256(s.drop_first().len())) == x as nat * pow256(s.len()))
            by (nonlinear_arith)
            requires
                pow256(s.len()) == 256 * pow256(s.drop_first().len()),
        ;
    }
}

/// A byte sequence is the little-endian spelling of its own value.
pub proof fn lemma_le_bytes_of_value(b: Seq<u8>)
    ensures
        le_bytes(le_value(b), b.len()) == b,
    decreases b.len(),
{
    if b.len() > 0 {
        let t = b.drop_first();
        lemma_le_bytes_of_value(t);
        let v = le_value(b);
        assert(v % 256 == b[0] as nat && v / 256 == le_value(t)) by {
            vstd::arithmetic::div_mod::lemma_fundamental_div_mod_converse(
                v as int,
                256,
                le_value(t) as int,
                b[0] as int,
            );
        }
        assert(le_bytes(v, b.len()) =~= b);
    }
}

/// Two byte sequences of one length with one value are equal.
pub proof fn lemma_le_value_injective(a: Seq<u8>, b: Seq<u8>)
    requires
        a.len() == b.len(),
        le_value(a) == le_value(b),
    ensures
        a == b,
{
    lemma_le_bytes_of_value(a);
    lemma_le_bytes_of_value(b);
}

/// The BN254 base-field prime
/// q = 21888242871839275222246405745257275088696311157297823662689037894645226208583,
/// written as its high and low 128-bit halves.
pub open spec fn fq_modulus() -> nat {
    0x30644e72e131a029b85045b68181585d * pow256(16) + 0x97816a916871ca8d3c208c16d87cfd47
}

/// The BN254 scalar-field prime
/// r = 21888242871839275222246405745257275088548364400416034343698204186575808495617,
/// written as its high and low 128-bit halves.
pub open spec fn fr_modulus() -> nat {
    0x30644e72e131a029b85045b68181585d * pow256(16) + 0x2833e84879b9709143e1f593f0000001
}

/// The little-endian bytes of q.
pub const FQ_MODULUS_LE: [u8; 32] = [
    0x47, 0xFD, 0x7C, 0xD8, 0x16, 0x8C, 0x20, 0x3C, 0x8d, 0xca, 0x71, 0x68, 0x91, 0x6a, 0x81, 0x97,
    0x5d, 0x58, 0x81, 0x81, 0xb6, 0x45, 0x50, 0xb8, 0x29, 0xa0, 0x31, 0xe1, 0x72, 0x4e, 0x64, 0x30,
];

/// The little-endian bytes of r.
pub const FR_MODULUS_LE: [u8; 32] = [
    0x01, 0x00, 0x00, 0xf0, 0x93, 0xf5, 0xe1, 0x43, 0x91, 0x70, 0xb9, 0x79, 0x48, 0xe8, 0x33, 0x28,
    0x5d, 0x58, 0x81, 0x81, 0xb6, 0x45, 0x50, 0xb8, 0x29, 0xa0, 0x31, 0xe1, 0x72, 0x4e, 0x64, 0x30,
];

/// `q - y` taken modulo `2^256`, for `y < 2^256`.
pub open spec fn neg_value(y: nat) -> nat {
    if y <= fq_modulus() {
        (fq_modulus() - y) as nat
    } else {
        (fq_modulus() + pow256(32) - y) as nat
    }
}

/// A point of G1: two base-field coordinates.
#[derive(Clone, Copy, Debug)]
pub struct G1Point {
    pub x: [u8; 32],
    pub y: [u8; 32],
}

/// A point of G2: each coordinate in Fq², kept as real and imaginary parts.
#[derive(Clone, Copy, Debug)]
pub struct G2Point {
    pub x_im: [u8; 32],
    pub x_re: [u8; 32],
    pub y_im: [u8; 32],
    pub y_re: [u8; 32],
}

/// An element of the scalar field Fr, 32 bytes little-endian.
#[derive(Clone, Copy, Debug)]
pub struct Scalar(pub [u8; 32]);

/// The 64 bytes that the host takes for a G1 point.
pub open spec fn g1_bytes(p: G1Point) -> Seq<u8> {
    p.x@ + p.y@
}

/// The 128 bytes that the host takes for a G2 point, imaginary part first.
pub open spec fn g2_bytes(p: G2Point) -> Seq<u8> {
    p.x_im@ + p.x_re@ + p.y_im@ + p.y_re@
}

/// The 32-byte value that a decimal string decodes to.
pub open spec fn decimal_field_bytes(s: Seq<u8>) -> nat {
    decimal_value(s) % pow256(32)
}

/// The 32 bytes that a decimal string decodes to.
pub open spec fn decoded_field(s: Seq<u8>) -> [u8; 32] {
    choose|a: [u8; 32]| le_value(a@) == decimal_field_bytes(s)
}

/// Parses the decimal digits of `s` into 32 bytes little-endian.
///
/// Every byte that is not an ASCII digit is skipped; digits beyond what 32 bytes
/// hold wrap around modulo `2^256`.
pub fn decimal_to_le_bytes(s: &str) -> (r: [u8; 32])
    ensures
        le_value(r@) == decimal_field_bytes(s.spec_bytes()),
        r == decoded_field(s.spec_bytes()),
{
    let bytes = s.as_bytes();
    let mut temp = [0u8; 32];
    let mut k: usize = 0;
    proof {
        assert(bytes@.subrange(0, 0) =~= Seq::<u8>::empty());
        assert(le_value(temp@) == 0) by {
            assert(temp@ =~= Seq::new(32, |j: int| 0u8));
            lemma_zero_value(temp@);
        }
        lemma_pow256_pos(32);
        vstd::arithmetic::div_mod::lemma_small_mod(0, pow256(32));
    }
    while k < bytes.len()
        invariant
            0 <= k <= bytes@.len(),
            bytes@ == s.spec_bytes(),
            le_value(temp@) == decimal_value(bytes@.subrange(0, k as int)) % pow256(32),
        decreases bytes@.len() - k,
    {
        let c = bytes[k];
        let ghost prev = bytes@.subrange(0, k as int);
        proof {
            assert(bytes@.subrange(0, k + 1).drop_last() =~= prev);
            assert(bytes@.subrange(0, k + 1).last() == c);
        }
        if c >= 48 && c <= 57 {
            mul10_add(&mut temp, c - 48);
            proof {
                lemma_pow256_pos(32);
                let m = pow256(32) as int;
                let d = decimal_value(prev) as int;
                vstd::arithmetic::div_mod::lemma_mul_mod_noop_left(d, 10, m);
                vstd::arithmetic::div_mod::lemma_add_mod_noop(d * 10, (c - 48) as int, m);
                vstd::arithmetic::div_mod::lemma_add_mod_noop(
                    (d % m) * 10,
                    (c - 48) as int,
                    m,
                );
                vstd::arithmetic::div_mod::lemma_mod_twice((c - 48) as int, m);
                vstd::arithmetic::div_mod::lemma_mod_twice(d * 10, m);
            }
        }
        k = k + 1;
    }
    proof {
        assert(bytes@.subrange(0, bytes@.len() as int) =~= bytes@);
        let other = decoded_field(s.spec_bytes());
        assert(le_value(other@) == decimal_field_bytes(s.spec_bytes()));
        lemma_le_value_injective(other@, temp@);
        assert(temp =~= other);
    }
    temp
}

/// The little-endian bytes of q spell q.
proof fn lemma_fq_bytes(q: Seq<u8>)
    requires
        q =~= seq![
            0x47u8, 0xFD, 0x7C, 0xD8, 0x16, 0x8C, 0x20, 0x3C, 0x8d, 0xca, 0x71, 0x68, 0x91, 0x6a,
            0x81, 0x97, 0x5d, 0x58, 0x81, 0x81, 0xb6, 0x45, 0x50, 0xb8, 0x29, 0xa0, 0x31, 0xe1,
            0x72, 0x4e, 0x64, 0x30,
        ],
    ensures
        le_value(q) == fq_modulus(),
{
    reveal_with_fuel(le_value, 33);
    reveal_with_fuel(pow256, 17);
}

/// The little-endian bytes of r spell r.
proof fn lemma_fr_bytes(r: Seq<u8>)
    requires
        r =~= seq![
            0x01u8, 0x00, 0x00, 0xf0, 0x93, 0xf5, 0xe1, 0x43, 0x91, 0x70, 0xb9, 0x79, 0x48, 0xe8,
            0x33, 0x28, 0x5d, 0x58, 0x81, 0x81, 0xb6, 0x45, 0x50, 0xb8, 0x29, 0xa0, 0x31, 0xe1,
            0x72, 0x4e, 0x64, 0x30,
        ],
    ensures
        le_value(r) == fr_modulus(),
{
    reveal_with_fuel(le_value, 33);
    reveal_with_fuel(pow256, 17);
}

proof fn lemma_lt_step(x: int, y: int, u: int, v: int, p: int)
    requires
        0 <= x < p,
        0 <= y < p,
        0 <= u,
        0 <= v,
    ensures
        (x + u * p < y + v * p) == (u < v || (u == v && x < y)),
{
    if u < v {
        assert(x + u * p < y + v * p) by (nonlinear_arith)
            requires
                0 <= x < p,
                0 <= y,
                u + 1 <= v,
        ;
    } else if u > v {
        assert(y + v * p < x + u * p) by (nonlinear_arith)
            requires
                0 <= y < p,
                0 <= x,
                v + 1 <= u,
        ;
    }
}

/// Whether `le_value(a) < le_value(b)`.
pub fn le_less_than(a: &[u8; 32], b: &[u8; 32]) -> (r: bool)
    ensures
        r == (le_value(a@) < le_value(b@)),
{
    let mut less: bool = false;
    let mut i: usize = 0;
    proof {
        assert(a@.subrange(0, 0) =~= Seq::<u8>::empty());
        assert(b@.subrange(0, 0) =~= Seq::<u8>::empty());
    }
    while i < 32
        invariant
            0 <= i <= 32,
            less == (le_value(a@.subrange(0, i as int)) < le_value(b@.subrange(0, i as int))),
        decreases 32 - i,
    {
        let ai = a[i];
        let bi = b[i];
        let ghost pa = a@.subrange(0, i as int);
        let ghost pb = b@.subrange(0, i as int);
        less = ai < bi || (ai == bi && less);
        proof {
            assert(a@.subrange(0, i + 1) =~= pa.push(ai));
            assert(b@.subrange(0, i + 1) =~= pb.push(bi));
            lemma_le_value_push(pa, ai);
            lemma_le_value_push(pb, bi);
            lemma_le_value_bound(pa);
            lemma_le_value_bound(pb);
            lemma_lt_step(
                le_value(pa) as int,
                le_value(pb) as int,
                ai as int,
                bi as int,
                pow256(i as nat) as int,
            );
        }
        i = i + 1;
    }
    proof {
        assert(a@.subrange(0, 32) =~= a@);
        assert(b@.subrange(0, 32) =~= b@);
    }
    less
}

/// Whether a 32-byte little-endian value is below q.
pub fn below_fq(a: &[u8; 32]) -> (r: bool)
    ensures
        r == (le_value(a@) < fq_modulus()),
{
    let q = FQ_MODULUS_LE;
    proof {
        lemma_fq_bytes(q@);
    }
    le_less_than(a, &q)
}

/// Whether a 32-byte little-endian value is below r.
pub fn below_fr(a: &[u8; 32]) -> (r: bool)
    ensures
        r == (le_value(a@) < fr_modulus()),
{
    let m = FR_MODULUS_LE;
    proof {
        lemma_fr_bytes(m@);
    }
    le_less_than(a, &m)
}

/// The 32 bytes of `d` from `start` on.
pub fn window32(d: &[u8], start: usize) -> (r: [u8; 32])
    requires
        start + 32 <= d@.len(),
    ensures
        r@ == d@.subrange(start as int, start + 32),
{
    let mut out = [0u8; 32];
    let n = d.len();
    let mut i: usize = 0;
    while i < 32
        invariant
            0 <= i <= 32,
            n == d@.len(),
            start + 32 <= d@.len(),
            forall|k: int| 0 <= k < i ==> out@[k] == d@[start + k],
        decreases 32 - i,
    {
        out[i] = d[start + i];
        i = i + 1;
    }
    assert(out@ =~= d@.subrange(start as int, start + 32));
    out
}

proof fn lemma_fq_below_pow256()
    ensures
        fq_modulus() < pow256(32),
{
    reveal_with_fuel(pow256, 33);
}

proof fn lemma_borrow_out(out: int, y: int, q: int, b: int, m: int)
    requires
        out + y == q + b * m,
        0 <= out < m,
        0 <= y < m,
        0 <= q < m,
        b == 0 || b == 1,
    ensures
        out == if y <= q {
            q - y
        } else {
            q + m - y
        },
{
}

proof fn lemma_zero_value(b: Seq<u8>)
    requires
        forall|j: int| 0 <= j < b.len() ==> b[j] == 0,
    ensures
        le_value(b) == 0,
    decreases b.len(),
{
    if b.len() > 0 {
        lemma_zero_value(b.drop_first());
    }
}

impl G1Point {
    /// The G1 point whose coordinates the two decimal strings spell.
    pub fn from_decimal(x: &str, y: &str) -> (r: Self)
        ensures
            le_value(r.x@) == decimal_field_bytes(x.spec_bytes()),
            le_value(r.y@) == decimal_field_bytes(y.spec_bytes()),
            r == (G1Point { x: decoded_field(x.spec_bytes()), y: decoded_field(y.spec_bytes()) }),
    {
        G1Point { x: decimal_to_le_bytes(x), y: decimal_to_le_bytes(y) }
    }

    /// The inverse point `(x, q - y)`; the subtraction is plain 256-bit
    /// arithmetic, so a `y` at or above q gives a value the host rejects.
    pub fn neg(&self) -> (r: Self)
        ensures
            r.x == self.x,
            le_value(r.y@) == neg_value(le_value(self.y@)),
    {
        let q = FQ_MODULUS_LE;
        proof {
            lemma_fq_bytes(q@);
        }
        let mut neg_y = [0u8; 32];
        let mut borrow: i16 = 0;
        let mut i: usize = 0;
        let ghost y = self.y@;
        proof {
            assert(neg_y@.subrange(0, 0) =~= Seq::<u8>::empty());
            assert(y.subrange(0, 0) =~= Seq::<u8>::empty());
            assert(q@.subrange(0, 0) =~= Seq::<u8>::empty());
            assert(le_value(Seq::<u8>::empty()) == 0);
            assert(pow256(0) == 1);
        }
        while i < 32
            invariant
                0 <= i <= 32,
                neg_y@.len() == 32,
                y == self.y@,
                borrow == 0 || borrow == 1,
                le_value(neg_y@.subrange(0, i as int)) + le_value(y.subrange(0, i as int))
                    == le_value(q@.subrange(0, i as int)) + borrow as nat * pow256(i as nat),
            decreases 32 - i,
        {
            let ghost pre = neg_y@;
            let ghost b_old = borrow;
            let val: i16 = q[i] as i16 - self.y[i] as i16 - borrow;
            if val < 0 {
                neg_y[i] = (val + 256) as u8;
                borrow = 1;
            } else {
                neg_y[i] = val as u8;
                borrow = 0;
            }
            proof {
                let o = neg_y@[i as int];
                assert(o as int == q@[i as int] as int - y[i as int] as int - b_old as int + 256
                    * borrow as int);
                assert(neg_y@.subrange(0, i + 1) =~= pre.subrange(0, i as int).push(o));
                assert(y.subrange(0, i + 1) =~= y.subrange(0, i as int).push(y[i as int]));
                assert(q@.subrange(0, i + 1) =~= q@.subrange(0, i as int).push(q@[i as int]));
                lemma_le_value_push(pre.subrange(0, i as int), o);
                lemma_le_value_push(y.subrange(0, i as int), y[i as int]);
                lemma_le_value_push(q@.subrange(0, i as int), q@[i as int]);
                let p = pow256(i as nat);
                assert(pow256((i + 1) as nat) == 256 * p);
                assert(o as int * p + y[i as int] as int * p == q@[i as int] as int * p - b_old as int
                    * p + borrow as int * (256 * p)) by (nonlinear_arith)
                    requires
                        o as int == q@[i as int] as int - y[i as int] as int - b_old as int + 256
                            * borrow as int,
                ;
            }
            i = i + 1;
        }
        proof {
            assert(neg_y@.subrange(0, 32) =~= neg_y@);
            assert(y.subrange(0, 32) =~= y);
            assert(q@.subrange(0, 32) =~= q@);
            assert(neg_y@.len() == 32 && y.len() == 32);
            lemma_le_value_bound(neg_y@);
            lemma_le_value_bound(y);
            assert(le_value(neg_y@) < pow256(32) && le_value(y) < pow256(32));
            lemma_fq_below_pow256();
            lemma_borrow_out(
                le_value(neg_y@) as int,
                le_value(y) as int,
                fq_modulus() as int,
                borrow as int,
                pow256(32) as int,
            );
        }
        G1Point { x: self.x, y: neg_y }
    }

    /// Serialises to the host layout, 64 bytes `x ‖ y`.
    pub fn to_bytes(&self) -> (r: [u8; 64])
        ensures
            r@ == g1_bytes(*self),
    {
        let mut out = [0u8; 64];
        let mut i: usize = 0;
        while i < 32
            invariant
                0 <= i <= 32,
                out@.len() == 64,
                forall|k: int| 0 <= k < i ==> out@[k] == self.x@[k] && out@[k + 32] == self.y@[k],
            decreases 32 - i,
        {
            out[i] = self.x[i];
            out[i + 32] = self.y[i];
            i = i + 1;
        }
        assert(out@ =~= g1_bytes(*self));
        out
    }
}

impl G2Point {
    /// Serialises to the host layout, 128 bytes `x_im ‖ x_re ‖ y_im ‖ y_re`.
    pub fn to_bytes(&self) -> (r: [u8; 128])
        ensures
            r@ == g2_bytes(*self),
    {
        let mut out = [0u8; 128];
        let mut i: usize = 0;
        while i < 32
            invariant
                0 <= i <= 32,
                out@.len() == 128,
                forall|k: int|
                    0 <= k < i ==> out@[k] == self.x_im@[k] && out@[k + 32] == self.x_re@[k]
                        && out@[k + 64] == self.y_im@[k] && out@[k + 96] == self.y_re@[k],
            decreases 32 - i,
        {
            out[i] = self.x_im[i];
            out[i + 32] = self.x_re[i];
            out[i + 64] = self.y_im[i];
            out[i + 96] = self.y_re[i];
            i = i + 1;
        }
        assert(out@ =~= g2_bytes(*self));
        out
    }
}

impl Scalar {
    /// The scalar that a decimal string spells.
    pub fn from_decimal(s: &str) -> (r: Self)
        ensures
            le_value(r.0@) == decimal_field_bytes(s.spec_bytes()),
            r == Scalar(decoded_field(s.spec_bytes())),
    {
        Scalar(decimal_to_le_bytes(s))
    }

    /// Its 32 bytes, little-endian.
    pub fn to_bytes(&self) -> (r: [u8; 32])
        ensures
            r@ == self.0@,
    {
        self.0
    }
}

proof fn lemma_decimal_digits_value(n: nat)
    ensures
        decimal_value(decimal_digits(n)) == n,
    decreases n,
{
    let d = decimal_digits(n);
    if n < 10 {
        assert(d.drop_last() =~= Seq::<u8>::empty());
        assert(d.last() == (48 + n) as u8);
        assert(decimal_value(d) == decimal_value(d.drop_last()) * 10 + (d.last() - 48) as nat);
    } else {
        lemma_decimal_digits_value(n / 10);
        assert(d.drop_last() =~= decimal_digits(n / 10));
        assert(d.last() == (48 + n % 10) as u8);
        assert(is_digit(d.last()));
        assert((d.last() - 48) as nat == n % 10);
        assert(decimal_value(d) == decimal_value(d.drop_last()) * 10 + (d.last() - 48) as nat);
        vstd::arithmetic::div_mod::lemma_fundamental_div_mod(n as int, 10);
    }
}

/// Decoding the decimal spelling of a 32-byte little-endian value gives back
/// the same 32 bytes.
pub proof fn law_decimal_round_trip(v: Seq<u8>, decoded: Seq<u8>)
    requires
        v.len() == 32,
        decoded.len() == 32,
        le_value(decoded) == decimal_field_bytes(decimal_digits(le_value(v))),
    ensures
        decoded == v,
{
    lemma_decimal_digits_value(le_value(v));
    lemma_le_value_bound(v);
    vstd::arithmetic::div_mod::lemma_small_mod(le_value(v), pow256(32));
    lemma_le_value_injective(decoded, v);
}

/// Negating a coordinate below q twice gives it back.
pub proof fn law_neg_involutive(y: Seq<u8>, once: Seq<u8>, twice: Seq<u8>)
    requires
        y.len() == 32,
        twice.len() == 32,
        le_value(y) < fq_modulus(),
        le_value(once) == neg_value(le_value(y)),
        le_value(twice) == neg_value(le_value(once)),
    ensures
        twice == y,
{
    lemma_le_value_injective(twice, y);
}

/// Appends `src` to `out`.
pub(crate) fn append_bytes(out: &mut Vec<u8>, src: &[u8])
    ensures
        final(out)@ == old(out)@ + src@,
{
    let mut i: usize = 0;
    while i < src.len()
        invariant
            0 <= i <= src@.len(),
            out@ == old(out)@ + src@.subrange(0, i as int),
        decreases src@.len() - i,
    {
        out.push(src[i]);
        i = i + 1;
        assert(out@ =~= old(out)@ + src@.subrange(0, i as int));
    }
    assert(src@.subrange(0, src@.len() as int) =~= src@);
}

/// `temp * 10 + digit`, keeping the low 32 bytes.
fn mul10_add(temp: &mut [u8; 32], digit: u8)
    requires
        digit < 10,
    ensures
        le_value(final(temp)@) == (le_value(old(temp)@) * 10 + digit as nat) % pow256(32),
{
    let ghost orig = temp@;
    let mut carry: u16 = digit as u16;
    let mut i: usize = 0;
    proof {
        assert(temp@.subrange(0, 0) =~= Seq::<u8>::empty());
        assert(orig.subrange(0, 0) =~= Seq::<u8>::empty());
        assert(pow256(0) == 1);
    }
    while i < 32
        invariant
            0 <= i <= 32,
            temp@.len() == 32,
            orig.len() == 32,
            carry < 10,
            temp@.subrange(i as int, 32) == orig.subrange(i as int, 32),
            le_value(temp@.subrange(0, i as int)) + carry as nat * pow256(i as nat) == le_value(
                orig.subrange(0, i as int),
            ) * 10 + digit as nat,
        decreases 32 - i,
    {
        let val: u16 = (temp[i] as u16) * 10 + carry;
        let ghost pre = temp@;
        let ghost c_old = carry;
        temp[i] = (val % 256) as u8;
        carry = val / 256;
        proof {
            let lo = (val % 256) as u8;
            assert(temp@.subrange(0, i + 1) =~= pre.subrange(0, i as int).push(lo));
            assert(orig.subrange(0, i + 1) =~= orig.subrange(0, i as int).push(orig[i as int]));
            assert(pre[i as int] == orig[i as int]) by {
                assert(pre.subrange(i as int, 32)[0] == orig.subrange(i as int, 32)[0]);
            }
            lemma_le_value_push(pre.subrange(0, i as int), lo);
            lemma_le_value_push(orig.subrange(0, i as int), orig[i as int]);
            assert(temp@.subrange(i + 1, 32) =~= pre.subrange(i + 1, 32));
            assert(pre.subrange(i + 1, 32) =~= pre.subrange(i as int, 32).subrange(1, 32 - i));
            assert(orig.subrange(i + 1, 32) =~= orig.subrange(i as int, 32).subrange(1, 32 - i));
            let p = pow256(i as nat);
            assert(pow256((i + 1) as nat) == 256 * p);
            assert(val as nat == lo as nat + 256 * carry as nat);
            assert(lo as nat * p + carry as nat * (256 * p) == (orig[i as int] as nat * 10) * p
                + c_old as nat * p) by (nonlinear_arith)
                requires
                    lo as nat + 256 * carry as nat == orig[i as int] as nat * 10 + c_old as nat,
            ;
            let l_pre = le_value(pre.subrange(0, i as int));
            let o_pre = le_value(orig.subrange(0, i as int));
            let o_i = orig[i as int] as nat;
            assert(l_pre + lo as nat * p + carry as nat * (256 * p) == (o_pre + o_i * p) * 10
                + digit as nat) by (nonlinear_arith)
                requires
                    l_pre + c_old as nat * p == o_pre * 10 + digit as nat,
                    lo as nat * p + carry as nat * (256 * p) == (o_i * 10) * p + c_old as nat * p,
            ;
        }
        i = i + 1;
    }
    proof {
        assert(temp@.subrange(0, 32) =~= temp@);
        assert(orig.subrange(0, 32) =~= orig);
        lemma_le_value_bound(temp@);
        vstd::arithmetic::div_mod::lemma_fundamental_div_mod_converse(
            (le_value(orig) * 10 + digit as nat) as int,
            pow256(32) as int,
            carry as int,
            le_value(temp@) as int,
        );
    }
}

} // verus!
