//! Group elements: points of the twisted Edwards curve `-x^2 + y^2 = 1 + d x^2 y^2`
//! in extended coordinates, taken up to the curve's 2-torsion.
//!
//! An `Element` always satisfies the equations of the curve: its constructors
//! establish them and its operations keep them.
//!
//! The addition law is written out here as a spec function of a few lines, and
//! the code is proved to compute it. A generic curve library would reach the
//! base field through a field trait of its own; the base field here is the
//! library's own verified type, which carries no such trait.

use vstd::prelude::*;
use vstd::arithmetic::div_mod::{lemma_basic_div, lemma_div_denominator, lemma_small_mod};
use vstd::arithmetic::power2::{lemma2_to64, lemma_pow2_pos, lemma_pow2_unfold, pow2};
use vstd::bits::lemma_u64_shr_is_div;
use crate::curve::{
    lemma_add_on_curve, lemma_generator_on_curve, lemma_identity_on_curve, lemma_neg_on_curve,
    lemma_zero_coordinates_on_curve, point_on_curve,
};
use crate::error::Error;
use crate::fields::fq::{fq_add, fq_modulus, fq_mul, fq_neg, fq_sub, Fq};
use crate::fields::fr::Fr;
use crate::modular::lemma_pow2_256;
use crate::u256::U256;

verus! {

/// The curve coefficient `d`.
pub open spec fn coeff_d() -> nat {
    3021
}

/// A point in extended coordinates `(X : Y : T : Z)` over the base field, standing
/// for the affine point `(X/Z, Y/Z)` with `T/Z = (X/Z)(Y/Z)`.
pub struct Point {
    pub x: nat,
    pub y: nat,
    pub t: nat,
    pub z: nat,
}

/// The neutral point `(0 : 1 : 0 : 1)`.
pub open spec fn point_identity() -> Point {
    Point { x: 0, y: 1, t: 0, z: 1 }
}

/// The conventional generator of the group, the point whose encoding is the number 8.
pub open spec fn point_generator() -> Point {
    Point {
        x: 0x0af6_f264_422a_797b_df65_d3e5_21d7_9000_cb02_9727_f000_0000_9c43_2aaa_aaaa_aaabnat,
        y: 0x0d66_1b06_5547_7ae2_e9c1_817e_3b1b_c4d9_4dbb_532f_4e32_ad8b_963c_adfa_16d9_e2b8nat,
        t: 0x110b_7049_8f22_cec3_73a0_84d8_8ee0_9af6_fd31_ba68_86ce_8ed9_9fca_ddf9_5fc8_a9fbnat,
        z: 1,
    }
}

/// Whether the four coordinates are residues of the base field.
pub open spec fn point_reduced(p: Point) -> bool {
    p.x < fq_modulus() && p.y < fq_modulus() && p.t < fq_modulus() && p.z < fq_modulus()
}

/// The sum of two points by the unified addition law for `a = -1`, which needs no
/// case for doubling or for the neutral point.
#[verifier::opaque]
pub open spec fn point_add(p: Point, q: Point) -> Point {
    let a = fq_mul(p.x, q.x);
    let b = fq_mul(p.y, q.y);
    let c = fq_mul(fq_mul(coeff_d(), p.t), q.t);
    let d = fq_mul(p.z, q.z);
    let e = fq_sub(fq_sub(fq_mul(fq_add(p.x, p.y), fq_add(q.x, q.y)), a), b);
    let f = fq_sub(d, c);
    let g = fq_add(d, c);
    let h = fq_add(b, a);
    Point { x: fq_mul(e, f), y: fq_mul(g, h), t: fq_mul(e, h), z: fq_mul(f, g) }
}

/// The negative of a point.
pub open spec fn point_neg(p: Point) -> Point {
    Point { x: fq_neg(p.x), y: p.y, t: fq_neg(p.t), z: p.z }
}

/// The difference of two points.
pub open spec fn point_sub(p: Point, q: Point) -> Point {
    point_add(p, point_neg(q))
}

/// Twice a point.
pub open spec fn point_double(p: Point) -> Point {
    point_add(p, p)
}

/// Whether two points stand for the same group element: `X1 * Y2 == Y1 * X2`.
pub open spec fn point_eq(p: Point, q: Point) -> bool {
    fq_mul(p.x, q.y) == fq_mul(p.y, q.x)
}

/// A point times a natural number, by doubling and adding from the top bit down:
/// `n * P = 2 * ((n / 2) * P) + (n mod 2) * P`.
pub open spec fn point_mul(p: Point, n: nat) -> Point
    decreases n,
{
    if n == 0 {
        point_identity()
    } else {
        let h = point_double(point_mul(p, n / 2));
        if n % 2 == 1 {
            point_add(h, p)
        } else {
            h
        }
    }
}

/// The linear combination of the first `n` points with the first `n` scalars,
/// accumulated from the left.
pub open spec fn point_msm(scalars: Seq<Fr>, points: Seq<Element>, n: nat) -> Point
    decreases n,
{
    if n == 0 {
        point_identity()
    } else {
        point_add(
            point_msm(scalars, points, (n - 1) as nat),
            point_mul(points[n - 1]@, scalars[n - 1]@),
        )
    }
}

/// Doubling the neutral point gives the neutral point, coordinate for coordinate.
pub proof fn lemma_double_identity()
    ensures
        point_double(point_identity()) == point_identity(),
{
    reveal(point_add);
    let q = fq_modulus();
    lemma_small_mod(0, q);
    lemma_small_mod(1, q);
    assert(fq_mul(0, 0) == 0);
    assert(fq_mul(1, 1) == 1);
    assert(fq_mul(coeff_d(), 0) == 0);
    assert(fq_add(0, 1) == 1);
    assert(fq_sub(1, 0) == 1);
    assert(fq_sub(1, 1) == 0);
    assert(fq_add(1, 0) == 1);
    assert(fq_mul(0, 1) == 0);
}

/// One round of scalar multiplication: the multiple for the top bits of `n` down
/// to bit `i` follows from the multiple for the bits above `i`.
pub proof fn lemma_point_mul_round(p: Point, n: nat, i: nat)
    ensures
        ({
            let above = point_double(point_mul(p, n / pow2(i + 1)));
            point_mul(p, n / pow2(i)) == if (n / pow2(i)) % 2 == 1 {
                point_add(above, p)
            } else {
                above
            }
        }),
{
    let k = n / pow2(i);
    lemma_pow2_unfold(i + 1);
    lemma_pow2_pos(i);
    lemma_div_denominator(n as int, pow2(i) as int, 2);
    assert(pow2(i) * 2 == 2 * pow2(i)) by (nonlinear_arith);
    assert(k / 2 == n / pow2(i + 1));
    if k == 0 {
        lemma_double_identity();
    }
}

/// The number that a sequence of 64-bit limbs stands for, least significant
/// limb first.
pub open spec fn limbs_le_value(s: Seq<u64>) -> nat
    decreases s.len(),
{
    if s.len() == 0 {
        0
    } else {
        s[0] as nat + 0x1_0000_0000_0000_0000nat * limbs_le_value(s.subrange(1, s.len() as int))
    }
}

/// The number that the limbs from position `k` on stand for splits into the
/// limb at `k` and the rest.
pub proof fn lemma_limbs_le_value_step(s: Seq<u64>, k: int)
    requires
        0 <= k < s.len(),
    ensures
        limbs_le_value(s.subrange(k, s.len() as int)) == s[k] as nat + 0x1_0000_0000_0000_0000nat
            * limbs_le_value(s.subrange(k + 1, s.len() as int)),
{
    let t = s.subrange(k, s.len() as int);
    assert(t.subrange(1, t.len() as int) =~= s.subrange(k + 1, s.len() as int));
}

/// One round of multiplication by a number read from its top bit down: the
/// multiple by `2 n + b` from the multiple by `n`.
pub proof fn lemma_point_mul_bit(p: Point, n: nat, b: nat)
    requires
        b <= 1,
    ensures
        point_mul(p, 2 * n + b) == if b == 1 {
            point_add(point_double(point_mul(p, n)), p)
        } else {
            point_double(point_mul(p, n))
        },
{
    let m = 2 * n + b;
    if m == 0 {
        lemma_double_identity();
    } else {
        assert(m / 2 == n && m % 2 == b);
    }
}

/// The sum of the first `n` points of a sequence, accumulated from the left.
pub open spec fn point_sum(items: Seq<Element>, n: nat) -> Point
    decreases n,
{
    if n == 0 {
        point_identity()
    } else {
        point_add(point_sum(items, (n - 1) as nat), items[n - 1]@)
    }
}

/// Four coordinates over the base field, with no promise that they name a point
/// of the curve.
#[derive(Clone, Copy, Debug)]
pub(crate) struct Extended {
    pub(crate) x: Fq,
    pub(crate) y: Fq,
    pub(crate) t: Fq,
    pub(crate) z: Fq,
}

impl View for Extended {
    type V = Point;

    closed spec fn view(&self) -> Point {
        Point { x: self.x@, y: self.y@, t: self.t@, z: self.z@ }
    }
}

impl Extended {
    /// The four coordinates as given.
    pub(crate) fn new(x: Fq, y: Fq, t: Fq, z: Fq) -> (r: Extended)
        ensures
            r@ == (Point { x: x@, y: y@, t: t@, z: z@ }),
    {
        Extended { x, y, t, z }
    }

    /// The four coordinates.
    pub(crate) fn coordinates(&self) -> (r: (Fq, Fq, Fq, Fq))
        ensures
            r.0@ == self@.x,
            r.1@ == self@.y,
            r.2@ == self@.t,
            r.3@ == self@.z,
    {
        (self.x, self.y, self.t, self.z)
    }

    /// The unified addition formulas.
    pub(crate) fn add(&self, other: &Extended) -> (r: Extended)
        ensures
            r@ == point_add(self@, other@),
    {
        proof {
            reveal(point_add);
        }
        let a = self.x.mul(&other.x);
        let b = self.y.mul(&other.y);
        let c = Fq::from_u64(3021).mul(&self.t).mul(&other.t);
        let d = self.z.mul(&other.z);
        let e = self.x.add(&self.y).mul(&other.x.add(&other.y)).sub(&a).sub(&b);
        let f = d.sub(&c);
        let g = d.add(&c);
        let h = b.add(&a);
        Extended { x: e.mul(&f), y: g.mul(&h), t: e.mul(&h), z: f.mul(&g) }
    }

    /// Overwrites all four coordinates with zero.
    pub(crate) fn zeroize(&mut self)
        ensures
            final(self)@ == (Point { x: 0, y: 0, t: 0, z: 0 }),
        no_unwind
    {
        self.x.zeroize();
        self.y.zeroize();
        self.t.zeroize();
        self.z.zeroize();
    }
}

/// An element of the group: a point of the curve in extended coordinates.
#[derive(Clone, Copy, Debug)]
pub struct Element {
    pub(crate) inner: Extended,
}

impl View for Element {
    type V = Point;

    closed spec fn view(&self) -> Point {
        self.inner@
    }
}

impl Element {
    /// Every element satisfies the equations of the curve.
    #[verifier::type_invariant]
    pub closed spec fn is_on_curve(&self) -> bool {
        point_on_curve(self.inner@)
    }

    /// The element with the given coordinates.
    pub closed spec fn of_point(p: Point) -> Element {
        Element {
            inner: Extended {
                x: Fq::of_residue(p.x),
                y: Fq::of_residue(p.y),
                t: Fq::of_residue(p.t),
                z: Fq::of_residue(p.z),
            },
        }
    }

    /// The element with residues for coordinates has those coordinates.
    pub proof fn lemma_of_point_view(p: Point)
        requires
            point_reduced(p),
        ensures
            Element::of_point(p)@ == p,
    {
        Fq::lemma_of_residue_view(p.x);
        Fq::lemma_of_residue_view(p.y);
        Fq::lemma_of_residue_view(p.t);
        Fq::lemma_of_residue_view(p.z);
    }

    /// An element is the element with its coordinates.
    pub proof fn lemma_of_point(a: Element)
        ensures
            a == Element::of_point(a@),
    {
        Fq::lemma_of_residue(a.inner.x);
        Fq::lemma_of_residue(a.inner.y);
        Fq::lemma_of_residue(a.inner.t);
        Fq::lemma_of_residue(a.inner.z);
    }

    /// What the type invariant says of the view.
    pub proof fn lemma_on_curve(&self)
        requires
            self.is_on_curve(),
        ensures
            point_on_curve(self@),
    {
    }

    /// The element with the given coordinates, which must satisfy the equations
    /// of the curve.
    pub(crate) fn from_coordinates(x: Fq, y: Fq, t: Fq, z: Fq) -> (r: Element)
        requires
            point_on_curve(Point { x: x@, y: y@, t: t@, z: z@ }),
        ensures
            r@ == (Point { x: x@, y: y@, t: t@, z: z@ }),
    {
        Element { inner: Extended::new(x, y, t, z) }
    }

    /// The coordinates of the element, which satisfy the equations of the curve.
    pub(crate) fn extended(&self) -> (r: Extended)
        ensures
            r@ == self@,
            point_on_curve(self@),
    {
        proof {
            use_type_invariant(self);
        }
        self.inner
    }

    /// The four coordinates of the element.
    pub(crate) fn coordinates(&self) -> (r: (Fq, Fq, Fq, Fq))
        ensures
            r.0@ == self@.x,
            r.1@ == self@.y,
            r.2@ == self@.t,
            r.3@ == self@.z,
            point_on_curve(self@),
    {
        proof {
            use_type_invariant(self);
        }
        self.inner.coordinates()
    }

    /// The neutral element.
    pub fn identity() -> (r: Element)
        ensures
            r@ == point_identity(),
    {
        proof {
            lemma_identity_on_curve();
        }
        Element { inner: Extended::new(Fq::zero(), Fq::one(), Fq::zero(), Fq::one()) }
    }

    /// The conventional generator of the group.
    pub fn generator() -> (r: Element)
        ensures
            r@ == point_generator(),
    {
        let x = Fq::from_u256(
            U256::new(0x9c43_2aaa_aaaa_aaab, 0xcb02_9727_f000_0000, 0xdf65_d3e5_21d7_9000, 0x0af6_f264_422a_797b),
        );
        let y = Fq::from_u256(
            U256::new(0x963c_adfa_16d9_e2b8, 0x4dbb_532f_4e32_ad8b, 0xe9c1_817e_3b1b_c4d9, 0x0d66_1b06_5547_7ae2),
        );
        let t = Fq::from_u256(
            U256::new(0x9fca_ddf9_5fc8_a9fb, 0xfd31_ba68_86ce_8ed9, 0x73a0_84d8_8ee0_9af6, 0x110b_7049_8f22_cec3),
        );
        proof {
            lemma_generator_on_curve();
        }
        Element { inner: Extended::new(x, y, t, Fq::one()) }
    }

    /// Whether the element is the neutral one: in this group, whether `X` is zero.
    pub fn is_identity(&self) -> (r: bool)
        ensures
            r == (self@.x == 0),
            r == point_eq(self@, point_identity()),
    {
        let (x, _, _, _) = self.inner.coordinates();
        proof {
            use_type_invariant(&x);
            x.lemma_residue();
            assert(fq_mul(self@.x, 1) == self@.x) by {
                assert(self@.x * 1 == self@.x);
                vstd::arithmetic::div_mod::lemma_small_mod(self@.x, fq_modulus());
            }
            assert(fq_mul(self@.y, 0) == 0) by {
                assert(self@.y * 0 == 0);
                vstd::arithmetic::div_mod::lemma_small_mod(0, fq_modulus());
            }
        }
        x.is_zero()
    }

    /// The sum of two elements.
    pub fn add(&self, other: &Element) -> (r: Element)
        ensures
            r@ == point_add(self@, other@),
    {
        proof {
            use_type_invariant(self);
            use_type_invariant(other);
            lemma_add_on_curve(self@, other@);
        }
        Element { inner: self.inner.add(&other.inner) }
    }

    /// The negative of the element.
    pub fn neg(&self) -> (r: Element)
        ensures
            r@ == point_neg(self@),
    {
        proof {
            use_type_invariant(self);
            lemma_neg_on_curve(self@);
        }
        let (x, y, t, z) = self.inner.coordinates();
        Element { inner: Extended::new(x.neg(), y, t.neg(), z) }
    }

    /// The difference of two elements.
    pub fn sub(&self, other: &Element) -> (r: Element)
        ensures
            r@ == point_sub(self@, other@),
    {
        self.add(&other.neg())
    }

    /// Twice the element.
    pub fn double(&self) -> (r: Element)
        ensures
            r@ == point_double(self@),
    {
        self.add(self)
    }

    /// Doubles the element in place.
    pub fn double_in_place(&mut self)
        ensures
            final(self)@ == point_double(old(self)@),
    {
        *self = self.double();
    }

    /// The element times a scalar.
    ///
    /// Runs through all 256 bit positions and selects without branching, so that
    /// the work done does not depend on the scalar.
    pub fn mul(&self, scalar: &Fr) -> (r: Element)
        ensures
            r@ == point_mul(self@, scalar@),
    {
        let bits = scalar.to_le_bits();
        let mut acc = Element::identity();
        let mut i: usize = 256;
        proof {
            use_type_invariant(scalar);
            scalar.lemma_residue();
            lemma_pow2_256();
            lemma_basic_div(scalar@ as int, pow2(256) as int);
        }
        while i > 0
            invariant
                i <= 256,
                acc@ == point_mul(self@, scalar@ / pow2(i as nat)),
                forall|j: int| 0 <= j < 256 ==> bits[j] == ((scalar@ / pow2(j as nat)) % 2 == 1),
            decreases i,
        {
            i = i - 1;
            let doubled = acc.double();
            let sum = doubled.add(self);
            acc = Element::conditional_select(&doubled, &sum, bits[i]);
            proof {
                lemma_point_mul_round(self@, scalar@, i as nat);
            }
        }
        proof {
            assert(pow2(0) == 1) by {
                lemma_pow2_256();
            }
            assert(scalar@ / 1 == scalar@);
        }
        acc
    }

    /// The element times a number given by its 64-bit limbs, least significant
    /// limb first, of any length. The number is taken as it stands, not reduced;
    /// the running time depends on it.
    pub fn mul_bigint(&self, limbs: &[u64]) -> (r: Element)
        ensures
            r@ == point_mul(self@, limbs_le_value(limbs@)),
    {
        let mut acc = Element::identity();
        let mut i: usize = limbs.len();
        proof {
            assert(limbs@.subrange(i as int, limbs@.len() as int).len() == 0);
        }
        while i > 0
            invariant
                i <= limbs.len(),
                acc@ == point_mul(
                    self@,
                    limbs_le_value(limbs@.subrange(i as int, limbs@.len() as int)),
                ),
            decreases i,
        {
            i = i - 1;
            let w: u64 = limbs[i];
            let ghost above = limbs_le_value(limbs@.subrange(i + 1, limbs@.len() as int));
            let mut j: u32 = 64;
            proof {
                lemma2_to64();
                lemma_basic_div(w as int, pow2(64) as int);
                assert(above * 1 == above);
                assert(pow2(0) == 1);
            }
            while j > 0
                invariant
                    j <= 64,
                    acc@ == point_mul(self@, above * pow2((64 - j) as nat) + w as nat / pow2(j as nat)),
                decreases j,
            {
                let ghost before = above * pow2((64 - j) as nat) + w as nat / pow2(j as nat);
                j = j - 1;
                let bit: u64 = (w >> j) & 1;
                proof {
                    let sh = w >> j;
                    lemma_u64_shr_is_div(w, j as u64);
                    assert(sh & 1 == sh % 2) by (bit_vector);
                    lemma_pow2_unfold((j + 1) as nat);
                    lemma_pow2_unfold((64 - j) as nat);
                    lemma_pow2_pos(j as nat);
                    lemma_div_denominator(w as int, pow2(j as nat) as int, 2);
                    assert(pow2(j as nat) * 2 == 2 * pow2(j as nat)) by (nonlinear_arith);
                    let half = pow2((63 - j) as nat);
                    assert(above * (2 * half) == 2 * (above * half)) by (nonlinear_arith);
                    assert(above * pow2((64 - j) as nat) + w as nat / pow2(j as nat) == 2 * before
                        + bit);
                    lemma_point_mul_bit(self@, before, bit as nat);
                }
                acc = acc.double();
                if bit == 1 {
                    acc = acc.add(self);
                }
            }
            proof {
                assert(w as nat / 1 == w);
                lemma_limbs_le_value_step(limbs@, i as int);
                assert(above * pow2(64) == 0x1_0000_0000_0000_0000nat * above) by (nonlinear_arith)
                    requires
                        pow2(64) == 0x1_0000_0000_0000_0000nat,
                ;
            }
        }
        proof {
            assert(limbs@.subrange(0, limbs@.len() as int) =~= limbs@);
        }
        acc
    }

    /// The linear combination of public points with public scalars: the sum of
    /// `scalars[i] * points[i]`, accumulated from the left.
    ///
    /// Fails when the two sequences differ in length.
    pub fn vartime_multiscalar_mul(scalars: &[Fr], points: &[Element]) -> (r: Result<
        Element,
        Error,
    >)
        ensures
            match r {
                Ok(e) => scalars@.len() == points@.len() && e@ == point_msm(
                    scalars@,
                    points@,
                    scalars@.len(),
                ),
                Err(e) => scalars@.len() != points@.len() && e == Error::LengthMismatch,
            },
    {
        if scalars.len() != points.len() {
            return Err(Error::LengthMismatch);
        }
        let mut acc = Element::identity();
        let mut i: usize = 0;
        while i < scalars.len()
            invariant
                scalars@.len() == points@.len(),
                i <= scalars.len(),
                acc@ == point_msm(scalars@, points@, i as nat),
            decreases scalars.len() - i,
        {
            let term = points[i].mul(&scalars[i]);
            acc = acc.add(&term);
            i = i + 1;
            proof {
                assert(point_msm(scalars@, points@, i as nat) == point_add(
                    point_msm(scalars@, points@, (i - 1) as nat),
                    point_mul(points@[i - 1]@, scalars@[i - 1]@),
                ));
            }
        }
        Ok(acc)
    }

    /// Whether the element is the neutral one. Like `is_identity`, it asks
    /// about the element and not about the point that stands for it.
    pub fn is_zero(&self) -> (r: bool)
        ensures
            r == (self@.x == 0),
            r == point_eq(self@, point_identity()),
    {
        self.is_identity()
    }

    /// The sum of a sequence of elements, accumulated from the left.
    pub fn sum(items: &[Element]) -> (r: Element)
        ensures
            r@ == point_sum(items@, items@.len()),
    {
        let mut acc = Element::identity();
        let mut i: usize = 0;
        while i < items.len()
            invariant
                i <= items.len(),
                acc@ == point_sum(items@, i as nat),
            decreases items.len() - i,
        {
            acc = acc.add(&items[i]);
            i = i + 1;
        }
        acc
    }

    /// Chooses `a` when `choice` is unset and `b` when it is set, coordinate by
    /// coordinate and without branching on the choice.
    pub fn conditional_select(a: &Element, b: &Element, choice: bool) -> (r: Element)
        ensures
            r@ == if choice { b@ } else { a@ },
    {
        proof {
            use_type_invariant(a);
            use_type_invariant(b);
        }
        let (ax, ay, at, az) = a.inner.coordinates();
        let (bx, by, bt, bz) = b.inner.coordinates();
        Element {
            inner: Extended::new(
                Fq::conditional_select(&ax, &bx, choice),
                Fq::conditional_select(&ay, &by, choice),
                Fq::conditional_select(&at, &bt, choice),
                Fq::conditional_select(&az, &bz, choice),
            ),
        }
    }

    /// Overwrites all four coordinates with zero.
    pub fn zeroize(&mut self)
        ensures
            final(self)@ == (Point { x: 0, y: 0, t: 0, z: 0 }),
    {
        proof {
            lemma_zero_coordinates_on_curve();
        }
        self.inner.zeroize();
    }
}

impl PartialEq for Element {
    /// Two elements are equal when `X1 * Y2 == Y1 * X2`: the coordinates may
    /// differ by scaling and by the curve's 2-torsion.
    fn eq(&self, other: &Element) -> (r: bool) {
        let (x1, y1, _, _) = self.inner.coordinates();
        let (x2, y2, _, _) = other.inner.coordinates();
        let lhs = x1.mul(&y2);
        let rhs = y1.mul(&x2);
        proof {
            if lhs@ == rhs@ {
                Fq::lemma_view_injective(lhs, rhs);
            }
        }
        lhs == rhs
    }
}

impl vstd::std_specs::cmp::PartialEqSpecImpl for Element {
    open spec fn obeys_eq_spec() -> bool {
        true
    }

    open spec fn eq_spec(&self, other: &Element) -> bool {
        point_eq(self@, other@)
    }
}

impl Eq for Element {

}

impl Default for Element {
    /// The neutral element.
    fn default() -> (r: Element)
        ensures
            r@ == point_identity(),
    {
        Element::identity()
    }
}

} // verus!
