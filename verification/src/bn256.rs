//! The fields of the BN254 curve: the scalar field `Fr`, in which every
//! value of a trace lives, and the base field `Fq` with its extensions.

pub mod fq;
pub mod fq12;
pub mod fq2;
pub mod fq6;
pub mod fr;
pub mod frobenius;
