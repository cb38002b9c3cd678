//! The boards this crate knows how to drive, and how a target name on
//! the command line picks one. Flashing and connecting belong to the
//! debug-probe collaborator outside this crate; here a board only knows
//! its architecture and the build features it needs.

use vstd::prelude::*;
use vstd::string::StringSliceAdditionalSpecFns;

use crate::arch::{Arch, ArmMVersion};
use crate::utils::{bytes_eq, str_to_bytes};

verus! {

/// The ST Nucleo-F401RE board.
#[derive(Debug, Copy, Clone, PartialEq, Eq, Structural)]
pub struct NucleoF401re;

impl NucleoF401re {
    /// The board's architecture: a Cortex-M4 with FPU and DSP.
    pub fn target_arch(&self) -> (r: Arch)
        ensures
            r == (Arch::ArmM { version: ArmMVersion::Armv7M, fpu: true, dsp: true }),
    {
        Arch::ArmM { version: ArmMVersion::Armv7M, fpu: true, dsp: true }
    }

    /// The build feature that selects this board in target builds.
    pub fn cargo_features(&self) -> (r: Vec<&'static str>)
        ensures
            r@.len() == 1,
    {
        let mut v: Vec<&'static str> = Vec::new();
        v.push("target_nucleo_f401re");
        v
    }
}

/// Picks the board a target name on the command line names.
pub fn try_parse_target(arg_target: &str) -> (r: Result<NucleoF401re, &'static str>)
    ensures
        r is Ok <==> arg_target.spec_bytes() == "nucleo_f401re".spec_bytes(),
{
    if bytes_eq(&str_to_bytes(arg_target), &str_to_bytes("nucleo_f401re")) {
        Ok(NucleoF401re)
    } else {
        Err("no such target")
    }
}

} // verus!
