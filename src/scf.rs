//! Control flow of the self-consistent-field iteration.
//!
//! The numerical work of one iteration (Fock build, diagonalisation, new
//! density, energy) is done by the caller; this module decides whether a
//! run may start, how many orbitals are occupied, and after each iteration
//! whether to continue, stop as converged, or stop as not converged.
use vstd::prelude::*;

verus! {

/// Why a Hartree-Fock run failed.
#[derive(Debug, Clone, Copy, PartialEq, Eq, Structural)]
pub enum ScfError {
    /// Exponent or coefficient data missing, mismatched in length, or not numeric.
    MalformedBasisInput,
    /// A diagonalisation did not converge.
    EigendecompositionFailure,
    /// Restricted closed-shell theory needs an even number of electrons.
    OddElectronCount,
    /// More doubly occupied orbitals are needed than there are basis functions.
    TooFewOrbitals,
    /// The iteration budget ran out before the energy settled.
    NonConvergence,
}

/// What follows a completed iteration that did not fail.
#[derive(Debug, Clone, Copy, PartialEq, Eq, Structural)]
pub enum ScfStatus {
    /// Run another iteration.
    Continue,
    /// The energy change fell below the threshold after this many iterations.
    Converged { iterations: usize },
}

/// State of a run between iterations.
#[derive(Debug, Clone, Copy, PartialEq, Eq, Structural)]
pub struct ScfRun {
    /// Iterations completed so far.
    pub iteration: usize,
    /// Iteration budget.
    pub max_iterations: usize,
    /// Number of doubly occupied orbitals.
    pub occupied: usize,
}

/// Checks that a shell lists as many coefficients as exponents, and at
/// least one of each.
pub fn check_shell(num_exponents: usize, num_coefficients: usize) -> (r: Result<(), ScfError>)
    ensures
        r is Ok <==> num_exponents > 0 && num_exponents == num_coefficients,
        r is Err ==> r == Err::<(), ScfError>(ScfError::MalformedBasisInput),
{
    if num_exponents == 0 || num_exponents != num_coefficients {
        Err(ScfError::MalformedBasisInput)
    } else {
        Ok(())
    }
}

impl ScfRun {
    /// Another iteration may run.
    pub open spec fn wf(&self) -> bool {
        self.iteration < self.max_iterations
    }

    /// Starts a run for `num_electrons` electrons over `n_basis` basis
    /// functions with an iteration budget of `max_iterations`. Fails before
    /// any iteration on an odd electron count, on too small a basis, and on
    /// an empty budget.
    pub fn start(num_electrons: usize, n_basis: usize, max_iterations: usize) -> (r: Result<
        ScfRun,
        ScfError,
    >)
        ensures
            num_electrons % 2 == 1 ==> r == Err::<ScfRun, ScfError>(ScfError::OddElectronCount),
            num_electrons % 2 == 0 && num_electrons / 2 > n_basis ==> r == Err::<ScfRun, ScfError>(
                ScfError::TooFewOrbitals,
            ),
            num_electrons % 2 == 0 && num_electrons / 2 <= n_basis && max_iterations == 0 ==> r
                == Err::<ScfRun, ScfError>(ScfError::NonConvergence),
            num_electrons % 2 == 0 && num_electrons / 2 <= n_basis && max_iterations > 0 ==> r
                == Ok::<ScfRun, ScfError>(
                (ScfRun { iteration: 0, max_iterations, occupied: num_electrons / 2 }),
            ),
    {
        if num_electrons % 2 != 0 {
            Err(ScfError::OddElectronCount)
        } else if num_electrons / 2 > n_basis {
            Err(ScfError::TooFewOrbitals)
        } else if max_iterations == 0 {
            Err(ScfError::NonConvergence)
        } else {
            Ok(ScfRun { iteration: 0, max_iterations, occupied: num_electrons / 2 })
        }
    }

    /// Records the end of an iteration; `converged` tells whether the
    /// change in total energy fell below the threshold. A run whose budget
    /// is spent without convergence ends in `NonConvergence`.
    pub fn finish_iteration(&mut self, converged: bool) -> (r: Result<ScfStatus, ScfError>)
        requires
            old(self).wf(),
        ensures
            final(self).iteration == old(self).iteration + 1,
            final(self).max_iterations == old(self).max_iterations,
            final(self).occupied == old(self).occupied,
            converged ==> r == Ok::<ScfStatus, ScfError>(
                ScfStatus::Converged { iterations: final(self).iteration },
            ),
            !converged && final(self).iteration == final(self).max_iterations ==> r == Err::<
                ScfStatus,
                ScfError,
            >(ScfError::NonConvergence),
            !converged && final(self).iteration < final(self).max_iterations ==> r == Ok::<
                ScfStatus,
                ScfError,
            >(ScfStatus::Continue),
            r == Ok::<ScfStatus, ScfError>(ScfStatus::Continue) ==> final(self).wf(),
    {
        self.iteration = self.iteration + 1;
        if converged {
            Ok(ScfStatus::Converged { iterations: self.iteration })
        } else if self.iteration == self.max_iterations {
            Err(ScfError::NonConvergence)
        } else {
            Ok(ScfStatus::Continue)
        }
    }
}

} // verus!
