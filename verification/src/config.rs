//! Defaults of the persistent renderer settings.
use vstd::prelude::*;

verus! {

/// MSAA sample count used when the configuration file gives none.
pub fn default_msaa() -> (r: u32)
    ensures
        r == 4,
{
    4
}

/// Value of the boolean switches (SSAO, bloom) when the file gives none.
pub fn default_true() -> (r: bool)
    ensures
        r,
{
    true
}

/// SSAO kernel size used when the configuration file gives none.
pub fn default_ssao_samples() -> (r: u32)
    ensures
        r == 32,
{
    32
}

} // verus!
