//! The host's clock.
use vstd::prelude::*;
use solana_program::program_error::ProgramError;
use solana_program::sysvar::Sysvar;

verus! {

/// The error with which the host refuses a request of a program. Its contents are the
/// host's affair: the library only hands such an error on.
#[verifier::external_type_specification]
#[verifier::external_body]
pub struct ExProgramError(ProgramError);

/// Reads the host's clock through `solana_program::clock::Clock::get` and returns its
/// `unix_timestamp`. Trusted, and nothing is claimed of the outcome: the time is whatever
/// the host says, and outside a running program the host has no clock to read and the call
/// fails.
#[verifier::external_body]
pub(crate) fn unix_timestamp() -> (r: Result<i64, ProgramError>) {
    match solana_program::clock::Clock::get() {
        Ok(clock) => Ok(clock.unix_timestamp),
        Err(e) => Err(e),
    }
}

} // verus!
