//! What can go wrong while an instruction is processed.
use vstd::prelude::*;

verus! {

/// Why an instruction was refused.
#[derive(Clone, Copy, Debug, PartialEq, Eq, Structural)]
pub enum MatcherError {
    /// The instruction's bytes are not a well-formed instruction.
    InvalidInstructionData,
    /// The account holds, or was offered, values that are not allowed.
    InvalidAccountData,
    /// The account's data is shorter than the layout needs.
    AccountDataTooSmall,
    /// The context account belongs to another program.
    IncorrectProgramId,
    /// The liquidity provider did not sign.
    MissingRequiredSignature,
    /// The context account was set up before.
    AccountAlreadyInitialized,
    /// The context account was never set up.
    UninitializedAccount,
    /// Fewer accounts were passed than the instruction needs.
    NotEnoughAccountKeys,
    /// A number left the range that holds it.
    ArithmeticOverflow,
    /// A failure that only this program has.
    Custom(u32),
}

} // verus!
