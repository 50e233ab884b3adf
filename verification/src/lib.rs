//! Multi-scalar multiplication over the BN254 G1 group, built from the two
//! primitive group operations (point doubling and point addition) together
//! with a fixed-width binary codec for point and scalar vectors.

pub mod codec;
pub mod group;
pub mod limbs;
pub mod msm;
pub mod point;

pub use codec::DecodeError;
pub use codec::VecG1Affine;
pub use codec::VecScalarField;
pub use group::validate_points;
pub use msm::msm;
pub use msm::MsmError;
pub use point::BnAffinePoint;
pub use point::BnScalar;
