//! Group elements in affine coordinates, and the conversions between the two
//! forms.

use vstd::prelude::*;
use vstd::arithmetic::div_mod::{lemma_fundamental_div_mod_converse, lemma_small_mod};
use crate::congruence::{congruent, lemma_congruent_add, lemma_congruent_mul};
use crate::curve::{
    int_on_curve, lemma_generator_on_curve, lemma_identity_on_curve, lemma_on_curve_from_model,
    point_on_curve,
};
use crate::element::{
    coeff_d, limbs_le_value, point_generator, point_identity, point_mul, Element, Extended, Point,
};
use crate::fields::fq::{fq_inv, fq_is_unit, fq_modulus, fq_mul, lemma_fq_mul_follows, Fq};
use crate::laws::{as_model, IntPoint};
use crate::modular::{
    is_inverse, lemma_inverse_is_chosen, lemma_inverse_of_factor, lemma_mul_mod_comm,
};
use crate::polynomial::{lemma_product_3, lemma_swap_inner};

verus! {

/// An affine point `(x, y)` over the base field.
pub struct AffineModel {
    pub x: nat,
    pub y: nat,
}

/// The affine point that a point in extended coordinates stands for: `(X/Z, Y/Z)`,
/// and the neutral point `(0, 1)` where `Z` has no inverse.
pub open spec fn point_to_affine(p: Point) -> AffineModel {
    if fq_is_unit(p.z) {
        AffineModel { x: fq_mul(p.x, fq_inv(p.z)), y: fq_mul(p.y, fq_inv(p.z)) }
    } else {
        AffineModel { x: 0, y: 1 }
    }
}

/// The point in extended coordinates that stands for an affine point:
/// `(x : y : xy : 1)`.
pub open spec fn affine_to_point(a: AffineModel) -> Point {
    Point { x: a.x, y: a.y, t: fq_mul(a.x, a.y), z: 1 }
}

/// The curve equation of a normalized point, over the integers: scaling a point
/// of the curve by the inverse of its `Z` gives a point of the curve.
proof fn lemma_scaled_on_curve(p: IntPoint, zi: int)
    requires
        int_on_curve(p),
        congruent(p.z * zi, 1, fq_modulus() as int),
    ensures
        int_on_curve(IntPoint { x: p.x * zi, y: p.y * zi, t: (p.x * zi) * (p.y * zi), z: 1 }),
{
    let m = fq_modulus() as int;
    let d = coeff_d() as int;
    let x = p.x * zi;
    let y = p.y * zi;
    let t = x * y;
    let zz = zi * zi;
    let one = p.z * zi;
    let tz = p.t * zi;
    // y^2 - x^2 is zi^2 (Y^2 - X^2), which follows zi^2 (Z^2 + d T^2)
    lemma_swap_inner(p.x, zi, p.x, zi);
    lemma_swap_inner(p.y, zi, p.y, zi);
    crate::polynomial::lemma_distribute(zz, p.y * p.y, p.x * p.x);
    lemma_product_3(zz, p.y * p.y, 1);
    lemma_product_3(zz, p.x * p.x, 1);
    assert(y * y - x * x == zz * (p.y * p.y - p.x * p.x));
    lemma_congruent_mul(
        zz,
        zz,
        p.y * p.y - p.x * p.x,
        p.z * p.z + d * (p.t * p.t),
        m,
    );
    crate::polynomial::lemma_distribute(zz, p.z * p.z, d * (p.t * p.t));
    lemma_swap_inner(p.z, zi, p.z, zi);
    lemma_swap_inner(p.t, zi, p.t, zi);
    lemma_product_3(zz, p.z * p.z, 1);
    lemma_product_3(zz, d, p.t * p.t);
    lemma_product_3(d, zz, p.t * p.t);
    lemma_product_3(zz, p.t * p.t, 1);
    assert(zz * (p.z * p.z + d * (p.t * p.t)) == one * one + d * (tz * tz));
    // Z zi gives way to one
    lemma_congruent_mul(one, 1, one, 1, m);
    lemma_congruent_add(one * one, 1, d * (tz * tz), d * (tz * tz), m);
    assert(congruent(y * y - x * x, 1 + d * (tz * tz), m));
    // x y is zi^2 X Y, which follows zi^2 Z T, which is (Z zi)(T zi)
    lemma_swap_inner(p.x, zi, p.y, zi);
    lemma_product_3(p.x * p.y, zz, 1);
    assert(t == zz * (p.x * p.y));
    lemma_congruent_mul(zz, zz, p.x * p.y, p.z * p.t, m);
    lemma_swap_inner(p.z, zi, p.t, zi);
    lemma_product_3(p.z * p.t, zz, 1);
    assert(zz * (p.z * p.t) == one * tz);
    lemma_congruent_mul(one, 1, tz, tz, m);
    assert(1 * tz == tz);
    assert(congruent(t, tz, m));
    lemma_congruent_mul(t, tz, t, tz, m);
    lemma_congruent_mul(d, d, t * t, tz * tz, m);
    lemma_congruent_add(1, 1, d * (tz * tz), d * (t * t), m);
    assert(1int * 1int == 1 && 1 * t == t);
}

/// The affine form of a point of the curve is a point of the curve.
pub proof fn lemma_affine_on_curve(p: Point)
    requires
        point_on_curve(p),
    ensures
        point_on_curve(affine_to_point(point_to_affine(p))),
{
    let q = fq_modulus();
    if fq_is_unit(p.z) {
        let zi = fq_inv(p.z);
        assert(crate::modular::is_inverse(p.z, zi, q));
        let x = fq_mul(p.x, zi);
        let y = fq_mul(p.y, zi);
        let m = as_model(p);
        lemma_small_mod(1, q);
        lemma_scaled_on_curve(m, zi as int);
        lemma_fq_mul_follows(p.x, zi, m.x, zi as int);
        lemma_fq_mul_follows(p.y, zi, m.y, zi as int);
        lemma_fq_mul_follows(x, y, m.x * zi, m.y * zi);
        lemma_on_curve_from_model(
            IntPoint { x: m.x * zi, y: m.y * zi, t: (m.x * zi) * (m.y * zi), z: 1 },
            affine_to_point(point_to_affine(p)),
        );
    } else {
        lemma_small_mod(0, q);
        assert(0nat * 1nat == 0);
        assert(affine_to_point(point_to_affine(p)) == point_identity());
        lemma_identity_on_curve();
    }
}

/// The generator in affine coordinates is the generator.
pub proof fn lemma_affine_generator()
    ensures
        affine_to_point(AffineModel { x: point_generator().x, y: point_generator().y })
            == point_generator(),
{
    let g = point_generator();
    let q = fq_modulus() as int;
    let k = 0x07de_81a6_4256_adc2_3803_ee97_578a_36a8_41f8_2cca_8342_55ab_605c_86af_527f_f6edint;
    assert(g.x * g.y == k * q + g.t);
    lemma_fundamental_div_mod_converse((g.x * g.y) as int, q, k, g.t as int);
}

/// A group element in affine coordinates: a point of the curve.
#[derive(Clone, Copy, Debug)]
pub struct AffinePoint {
    pub(crate) x: Fq,
    pub(crate) y: Fq,
}

impl View for AffinePoint {
    type V = AffineModel;

    closed spec fn view(&self) -> AffineModel {
        AffineModel { x: self.x@, y: self.y@ }
    }
}

impl AffinePoint {
    /// Every affine point satisfies the equation of the curve.
    #[verifier::type_invariant]
    pub closed spec fn is_on_curve(&self) -> bool {
        point_on_curve(affine_to_point(AffineModel { x: self.x@, y: self.y@ }))
    }

    /// The neutral element `(0, 1)`.
    pub fn zero() -> (r: AffinePoint)
        ensures
            r@ == (AffineModel { x: 0, y: 1 }),
    {
        proof {
            lemma_small_mod(0, fq_modulus());
            assert(0nat * 1nat == 0);
            lemma_identity_on_curve();
        }
        AffinePoint { x: Fq::zero(), y: Fq::one() }
    }

    /// The conventional generator of the group.
    pub fn generator() -> (r: AffinePoint)
        ensures
            r@ == (AffineModel { x: point_generator().x, y: point_generator().y }),
    {
        let (x, y, _, _) = Element::generator().coordinates();
        proof {
            lemma_affine_generator();
            lemma_generator_on_curve();
        }
        AffinePoint { x, y }
    }

    /// The affine point with the given coordinates, which satisfy the equation
    /// of the curve.
    pub(crate) fn from_curve_coordinates(x: Fq, y: Fq) -> (r: AffinePoint)
        requires
            point_on_curve(affine_to_point(AffineModel { x: x@, y: y@ })),
        ensures
            r@ == (AffineModel { x: x@, y: y@ }),
    {
        AffinePoint { x, y }
    }

    /// The two coordinates.
    pub fn xy(&self) -> (r: (Fq, Fq))
        ensures
            r.0@ == self@.x,
            r.1@ == self@.y,
    {
        (self.x, self.y)
    }

    /// The same element in extended coordinates.
    pub fn to_element(&self) -> (r: Element)
        ensures
            r@ == affine_to_point(self@),
    {
        proof {
            use_type_invariant(self);
        }
        Element::from_coordinates(self.x, self.y, self.x.mul(&self.y), Fq::one())
    }

    /// The point times a number given by its 64-bit limbs, least significant
    /// limb first, as an element in extended coordinates.
    pub fn mul_bigint(&self, limbs: &[u64]) -> (r: Element)
        ensures
            r@ == point_mul(affine_to_point(self@), limbs_le_value(limbs@)),
    {
        self.to_element().mul_bigint(limbs)
    }

    /// The point itself: in this group there is no cofactor left to clear.
    pub fn clear_cofactor(&self) -> (r: AffinePoint)
        ensures
            r@ == self@,
    {
        *self
    }

    /// The same element in extended coordinates.
    pub fn mul_by_cofactor_to_group(&self) -> (r: Element)
        ensures
            r@ == affine_to_point(self@),
    {
        self.to_element()
    }
}

/// Whether `c` is the inverse of the product of the first `n` of the `Z`
/// coordinates.
pub open spec fn inverts_prefix(v: Seq<Element>, n: nat, c: nat) -> bool {
    is_inverse(z_product(v, n), c, fq_modulus())
}

/// The product of the `Z` coordinates of the first `n` elements.
pub open spec fn z_product(v: Seq<Element>, n: nat) -> nat
    decreases n,
{
    if n == 0 {
        1
    } else {
        fq_mul(z_product(v, (n - 1) as nat), v[n - 1]@.z)
    }
}

impl Extended {
    /// The affine coordinates `(X/Z, Y/Z)`, by one field inversion, and `(0, 1)`
    /// where `Z` has no inverse.
    pub(crate) fn affine_coordinates(&self) -> (r: (Fq, Fq))
        ensures
            (AffineModel { x: r.0@, y: r.1@ }) == point_to_affine(self@),
    {
        let (x, y, _, z) = self.coordinates();
        match z.inverse() {
            Some(z_inv) => (x.mul(&z_inv), y.mul(&z_inv)),
            None => (Fq::zero(), Fq::one()),
        }
    }
}

impl Element {
    /// The element in affine coordinates, by one field inversion.
    pub fn into_affine(&self) -> (r: AffinePoint)
        ensures
            r@ == point_to_affine(self@),
    {
        let inner = self.extended();
        proof {
            lemma_affine_on_curve(self@);
        }
        let (x, y) = inner.affine_coordinates();
        AffinePoint { x, y }
    }

    /// The element in extended coordinates that an affine point stands for.
    pub fn from_affine(point: &AffinePoint) -> (r: Element)
        ensures
            r@ == affine_to_point(point@),
    {
        point.to_element()
    }

    /// Many elements in affine coordinates.
    ///
    /// Where every `Z` coordinate is invertible, the whole batch costs one field
    /// inversion and a number of multiplications linear in its length: the
    /// product of all `Z` is inverted once, and the single inverses are peeled
    /// off it. Otherwise each element is converted on its own.
    pub fn normalize_batch(v: &[Element]) -> (r: Vec<AffinePoint>)
        ensures
            r@.len() == v@.len(),
            forall|i: int| 0 <= i < v@.len() ==> r@[i]@ == point_to_affine(v@[i]@),
    {
        let n = v.len();
        // prefix[i] is the product of the first i + 1 of the Z coordinates
        let mut prefix: Vec<Fq> = Vec::new();
        let mut acc = Fq::one();
        let mut i: usize = 0;
        while i < n
            invariant
                n == v@.len(),
                i <= n,
                prefix@.len() == i,
                acc@ == z_product(v@, i as nat),
                forall|j: int| 0 <= j < i ==> prefix@[j]@ == z_product(v@, (j + 1) as nat),
            decreases n - i,
        {
            let (_, _, _, z) = v[i].coordinates();
            acc = acc.mul(&z);
            prefix.push(acc);
            i = i + 1;
        }
        match acc.inverse() {
            Some(total_inv) => {
                // walk back from the end, peeling one Z off the inverse at a time
                let mut inverses: Vec<Fq> = Vec::new();
                let mut c = total_inv;
                let mut k: usize = n;
                while k > 0
                    invariant
                        n == v@.len(),
                        k <= n,
                        prefix@.len() == n,
                        forall|j: int|
                            0 <= j < n ==> prefix@[j]@ == z_product(v@, (j + 1) as nat),
                        inverts_prefix(v@, k as nat, c@),
                        inverses@.len() == n - k,
                        forall|j: int|
                            0 <= j < n - k ==> is_inverse(
                                v@[n - 1 - j]@.z,
                                (#[trigger] inverses@[j])@,
                                fq_modulus(),
                            ),
                    decreases k,
                {
                    k = k - 1;
                    let (_, _, _, z) = v[k].coordinates();
                    let before = if k == 0 {
                        Fq::one()
                    } else {
                        prefix[k - 1]
                    };
                    let z_inv = c.mul(&before);
                    let c_next = c.mul(&z);
                    proof {
                        let q = fq_modulus();
                        let pk = z_product(v@, k as nat);
                        assert(before@ == pk);
                        // c inverts pk * z, so pk * c inverts z and z * c inverts pk
                        lemma_mul_mod_comm(pk, z@, q);
                        lemma_inverse_of_factor(z@, pk, c@, q);
                        lemma_inverse_of_factor(pk, z@, c@, q);
                        lemma_mul_mod_comm(pk, c@, q);
                        lemma_mul_mod_comm(z@, c@, q);
                    }
                    inverses.push(z_inv);
                    c = c_next;
                }
                let mut out: Vec<AffinePoint> = Vec::new();
                let mut m: usize = 0;
                while m < n
                    invariant
                        n == v@.len(),
                        m <= n,
                        inverses@.len() == n,
                        forall|j: int|
                            0 <= j < n ==> is_inverse(
                                v@[n - 1 - j]@.z,
                                (#[trigger] inverses@[j])@,
                                fq_modulus(),
                            ),
                        out@.len() == m,
                        forall|j: int| 0 <= j < m ==> out@[j]@ == point_to_affine(v@[j]@),
                    decreases n - m,
                {
                    let (x, y, _, z) = v[m].coordinates();
                    let z_inv = inverses[n - 1 - m];
                    proof {
                        assert(is_inverse(z@, inverses@[n - 1 - m]@, fq_modulus()));
                        lemma_inverse_is_chosen(z@, z_inv@, fq_modulus());
                        lemma_affine_on_curve(v@[m as int]@);
                    }
                    out.push(AffinePoint { x: x.mul(&z_inv), y: y.mul(&z_inv) });
                    m = m + 1;
                }
                out
            },
            None => {
                let mut out: Vec<AffinePoint> = Vec::new();
                let mut m: usize = 0;
                while m < n
                    invariant
                        n == v@.len(),
                        m <= n,
                        out@.len() == m,
                        forall|j: int| 0 <= j < m ==> out@[j]@ == point_to_affine(v@[j]@),
                    decreases n - m,
                {
                    out.push(v[m].into_affine());
                    m = m + 1;
                }
                out
            },
        }
    }

    /// Many elements as affine bases for scalar multiplication: the same as
    /// `normalize_batch`.
    pub fn batch_convert_to_mul_base(bases: &[Element]) -> (r: Vec<AffinePoint>)
        ensures
            r@.len() == bases@.len(),
            forall|i: int| 0 <= i < bases@.len() ==> r@[i]@ == point_to_affine(bases@[i]@),
    {
        Element::normalize_batch(bases)
    }
}

impl AffinePoint {
    /// The affine point with the given coordinates.
    pub closed spec fn of_model(a: AffineModel) -> AffinePoint {
        AffinePoint { x: Fq::of_residue(a.x), y: Fq::of_residue(a.y) }
    }

    /// The affine point with residues for coordinates has those coordinates.
    pub proof fn lemma_of_model_view(a: AffineModel)
        requires
            a.x < fq_modulus(),
            a.y < fq_modulus(),
        ensures
            AffinePoint::of_model(a)@ == a,
    {
        Fq::lemma_of_residue_view(a.x);
        Fq::lemma_of_residue_view(a.y);
    }

    /// An affine point is the affine point with its coordinates.
    pub proof fn lemma_of_model(a: AffinePoint)
        ensures
            a == AffinePoint::of_model(a@),
    {
        Fq::lemma_of_residue(a.x);
        Fq::lemma_of_residue(a.y);
    }
}

impl From<Element> for AffinePoint {
    fn from(point: Element) -> (r: AffinePoint)
        ensures
            r@ == point_to_affine(point@),
    {
        let r = point.into_affine();
        proof {
            AffinePoint::lemma_of_model(r);
        }
        r
    }
}

impl vstd::std_specs::convert::FromSpecImpl<Element> for AffinePoint {
    open spec fn obeys_from_spec() -> bool {
        true
    }

    open spec fn from_spec(point: Element) -> AffinePoint {
        AffinePoint::of_model(point_to_affine(point@))
    }
}

impl From<&Element> for AffinePoint {
    fn from(point: &Element) -> (r: AffinePoint)
        ensures
            r@ == point_to_affine(point@),
    {
        let r = point.into_affine();
        proof {
            AffinePoint::lemma_of_model(r);
        }
        r
    }
}

impl vstd::std_specs::convert::FromSpecImpl<&Element> for AffinePoint {
    open spec fn obeys_from_spec() -> bool {
        true
    }

    open spec fn from_spec(point: &Element) -> AffinePoint {
        AffinePoint::of_model(point_to_affine(point@))
    }
}

impl From<AffinePoint> for Element {
    fn from(point: AffinePoint) -> (r: Element)
        ensures
            r@ == affine_to_point(point@),
    {
        let r = point.to_element();
        proof {
            Element::lemma_of_point(r);
        }
        r
    }
}

impl vstd::std_specs::convert::FromSpecImpl<AffinePoint> for Element {
    open spec fn obeys_from_spec() -> bool {
        true
    }

    open spec fn from_spec(point: AffinePoint) -> Element {
        Element::of_point(affine_to_point(point@))
    }
}

impl From<&AffinePoint> for Element {
    fn from(point: &AffinePoint) -> (r: Element)
        ensures
            r@ == affine_to_point(point@),
    {
        let r = point.to_element();
        proof {
            Element::lemma_of_point(r);
        }
        r
    }
}

impl vstd::std_specs::convert::FromSpecImpl<&AffinePoint> for Element {
    open spec fn obeys_from_spec() -> bool {
        true
    }

    open spec fn from_spec(point: &AffinePoint) -> Element {
        Element::of_point(affine_to_point(point@))
    }
}

} // verus!
