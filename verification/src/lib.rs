//! A prime-order group built by Decaf compression of a cofactor-4 twisted
//! Edwards curve, together with its base field and scalar field.
//!
//! The curve is `-x^2 + y^2 = 1 + d x^2 y^2` with `d = 3021` over the field of
//! `q` elements, and the group has `r` elements, where
//!
//! ```text
//! q = 0x12ab655e9a2ca55660b44d1e5c37b00159aa76fed00000010a11800000000001
//! r = 0x04aad957a68b2955982d1347970dec005293a3afc43c8afeb95aee9ac33fd9ff
//! ```
//!
//! # Layout
//!
//! - [`fields`]: the base field [`Fq`] and the scalar field [`Fr`], over the
//!   256-bit numbers of [`u256`] and the modular arithmetic of [`modular`].
//! - [`element`]: the group [`Element`] in extended coordinates, with addition,
//!   negation, scalar multiplication and linear combinations; [`affine`] for
//!   the affine form and batch normalization.
//! - [`encoding`]: the canonical 32-byte [`Encoding`] and its two decoders, a
//!   fast one for public input and one that runs a fixed sequence of field
//!   operations; both accept the same byte strings and give the same element.
//! - [`hash`]: the Elligator map, hashing to the group and to scalars, over the
//!   message expansion of [`xmd`].
//! - [`sampling`]: one step of rejection sampling; [`draw`] for curve points
//!   from one coordinate or from bytes.
//!
//! # What is proved
//!
//! Every function's contract says what it returns over a mathematical model:
//! field elements are residues, elements are points `(X : Y : T : Z)`. Beyond
//! the contracts:
//!
//! - every `Element` lies on the curve, whatever it was made from ([`curve`],
//!   [`decode_proof`], [`elligator_proof`]);
//! - addition is commutative and associative, has the neutral element and
//!   inverses ([`laws`], [`associativity`]);
//! - the two points of the curve that stand for one element are equal as
//!   elements and have one encoding ([`laws`], [`encoding`]);
//! - the fields satisfy the laws of commutative rings, and inverses are
//!   unique; bytes and field elements convert back and forth without loss;
//! - inversion finds the inverse of every element that has one;
//! - the modulus `q` of the base field is prime ([`prime_modulus`], over
//!   [`primality`] and [`fermat`]), so that every element of the base field
//!   but zero has an inverse;
//! - the square root of a ratio reports a square exactly where the ratio has a
//!   square root ([`sqrt_proof`]);
//! - scaling the coordinates of a point leaves its encoding as it is, and so
//!   does adding the point of order two ([`quotient`]);
//! - encoding what a byte string decodes to gives the byte string back, and
//!   decoding the encoding of a point that stands for a decoded element gives
//!   that element ([`round_trip`]).
//!
//! That `r` is prime is not proved here. For the scalar field, that every
//! element but zero has an inverse is stated under the hypothesis
//! `is_prime(fr_modulus())`.

pub mod error;
pub mod ct;
pub mod u256;
pub mod congruence;
pub mod polynomial;
pub mod modular;
pub mod fermat;
pub mod primality;
pub mod bytes;
pub mod fields;
pub mod prime_modulus;
pub mod element;
pub mod element_ops;
pub mod affine;
pub mod encoding;
pub mod xmd;
pub mod hash;
pub mod hexfmt;
pub mod sampling;
pub mod draw;
pub mod laws;
pub mod curve;
pub mod decode_proof;
pub mod elligator_proof;
pub mod sqrt_proof;
pub mod quotient;
pub mod round_trip;
pub mod associativity;

pub use affine::AffinePoint;
pub use element::Element;
pub use encoding::Encoding;
pub use error::Error;
pub use fields::fq::Fq;
pub use fields::fr::Fr;
