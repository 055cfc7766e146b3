use vstd::prelude::*;

verus! {

/// The three failures a run can surface: an over-long program image at
/// construction, a reserved or unknown opcode during fetch, and an unknown
/// system-call number during dispatch.
#[derive(Copy, Clone, Debug, PartialEq, Eq, Structural)]
pub enum Error {
    ProgramTooLarge,
    InvalidOpCode(u32),
    InvalidSysCall(u16),
}

impl Error {
    /// A short description of the error, for host-side diagnostics.
    pub fn description(&self) -> (r: &'static str)
        ensures
            r@ =~= match *self {
                Error::ProgramTooLarge => "length of program exceeds 2^32 bytes"@,
                Error::InvalidOpCode(_) => "invalid opcode encountered"@,
                Error::InvalidSysCall(_) => "invalid syscall encountered"@,
            },
    {
        match *self {
            Error::ProgramTooLarge => "length of program exceeds 2^32 bytes",
            Error::InvalidOpCode(_) => "invalid opcode encountered",
            Error::InvalidSysCall(_) => "invalid syscall encountered",
        }
    }
}

} // verus!
