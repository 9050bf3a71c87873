//! Discrete core of a quarter-wave trigonometry table.
//!
//! A quarter-wave table stores sine samples over `[0, quarter-turn)`; the
//! sine, cosine or tangent of any angle is then reconstructed from those
//! samples by quadrant folding: the angle is reduced to a position inside one
//! quarter-turn together with a record of which quadrant it fell in, and that
//! record decides whether the table is read forwards or backwards and whether
//! the looked-up value is negated.
//!
//! This crate holds everything about that scheme that is discrete, with its
//! proofs: the quadrant, mirroring, boundary and sign decisions
//! ([`quadrant::fold_angle`]), the sign-bit masking behind the branch-free
//! absolute value ([`bits`]), and the validation of a requested table size
//! ([`size`]). The floating-point rim — taking an angle apart into the
//! discrete facts these functions consume, and reading the sample table —
//! stays outside, since the verifier does not take floating point.

pub mod bits;
pub mod quadrant;
pub mod size;
