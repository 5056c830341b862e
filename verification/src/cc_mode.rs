//! Confidential-computing modes the kernel can run in, and their numeric codes.
use vstd::prelude::*;

verus! {

/// The confidential-computing mode of the guest kernel.
///
/// Each mode has a numeric code (its position in this list, starting at 0);
/// the code is what the kernel stores in its global mode cell.
#[derive(Clone, Copy, Debug, PartialEq, Eq, Structural)]
pub enum CCMode {
    /// No confidential computing.
    NoCC,
    Normal,
    NormalEmu,
    SevSnp,
    Cca,
    TDX,
    Max,
}

/// The numeric code of a mode.
pub open spec fn mode_code(mode: CCMode) -> u64 {
    match mode {
        CCMode::NoCC => 0,
        CCMode::Normal => 1,
        CCMode::NormalEmu => 2,
        CCMode::SevSnp => 3,
        CCMode::Cca => 4,
        CCMode::TDX => 5,
        CCMode::Max => 6,
    }
}

/// The mode a numeric code stands for; every code past the last mode reads as `Max`.
pub open spec fn mode_of_code(code: u64) -> CCMode {
    if code == 0 {
        CCMode::NoCC
    } else if code == 1 {
        CCMode::Normal
    } else if code == 2 {
        CCMode::NormalEmu
    } else if code == 3 {
        CCMode::SevSnp
    } else if code == 4 {
        CCMode::Cca
    } else if code == 5 {
        CCMode::TDX
    } else {
        CCMode::Max
    }
}

/// A mode backed by real trusted-execution hardware: SEV-SNP, CCA or TDX,
/// that is every code from `SevSnp` up to, but not including, `Max`.
pub open spec fn spec_tee_backedup(code: u64) -> bool {
    mode_code(CCMode::SevSnp) <= code && code < mode_code(CCMode::Max)
}

impl CCMode {
    /// The mode that a numeric code stands for.
    pub fn from_u64(code: u64) -> (mode: CCMode)
        ensures
            mode == mode_of_code(code),
    {
        match code {
            0 => CCMode::NoCC,
            1 => CCMode::Normal,
            2 => CCMode::NormalEmu,
            3 => CCMode::SevSnp,
            4 => CCMode::Cca,
            5 => CCMode::TDX,
            _ => CCMode::Max,
        }
    }

    /// The numeric code of this mode.
    pub fn code(self) -> (code: u64)
        ensures
            code == mode_code(self),
    {
        match self {
            CCMode::NoCC => 0,
            CCMode::Normal => 1,
            CCMode::NormalEmu => 2,
            CCMode::SevSnp => 3,
            CCMode::Cca => 4,
            CCMode::TDX => 5,
            CCMode::Max => 6,
        }
    }

    /// Whether the mode with this numeric code is backed by real TEE hardware.
    pub fn tee_backedup(code: u64) -> (r: bool)
        ensures
            r == spec_tee_backedup(code),
    {
        code >= CCMode::SevSnp.code() && code < CCMode::Max.code()
    }
}

/// Reading a mode back from its code gives the mode.
pub proof fn lemma_mode_code_roundtrip(mode: CCMode)
    ensures
        mode_of_code(mode_code(mode)) == mode,
{
}

/// A code is hardware-backed exactly when it stands for SEV-SNP, CCA or TDX.
pub proof fn lemma_tee_backedup_modes(code: u64)
    ensures
        spec_tee_backedup(code) <==> (mode_of_code(code) == CCMode::SevSnp || mode_of_code(code)
            == CCMode::Cca || mode_of_code(code) == CCMode::TDX),
{
}

} // verus!
