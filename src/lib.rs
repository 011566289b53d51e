//! Restricted closed-shell Hartree-Fock for minimal-basis diatomics: the
//! index bookkeeping, symmetric integral storage, orbital selection and the
//! self-consistent-field control flow, all verified. The floating-point
//! kernels plug into the generic builders as closures.
pub mod eri;
pub mod matrix;
pub mod orbitals;
pub mod pairs;
pub mod scf;
