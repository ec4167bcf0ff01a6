//! SBPF architectures and the build policy that goes with them.

use vstd::prelude::*;

verus! {

/// A version of the SBPF architecture.
#[derive(Clone, Copy, Debug, Eq)]
pub enum SbpfArch {
    V0,
    V3,
}

/// What is built: for which architecture, and whether SIMD-0460 is in force.
#[derive(Clone, Copy, Debug, PartialEq, Eq)]
pub struct BuildConfig {
    pub arch: SbpfArch,
    pub simd_0460: bool,
}

/// The name of an architecture.
pub open spec fn arch_name(arch: SbpfArch) -> Seq<char> {
    match arch {
        SbpfArch::V0 => "v0"@,
        SbpfArch::V3 => "v3"@,
    }
}

/// The architecture with a given name.
pub open spec fn arch_named(name: Seq<char>) -> Option<SbpfArch> {
    if name == "v0"@ {
        Some(SbpfArch::V0)
    } else if name == "v3"@ {
        Some(SbpfArch::V3)
    } else {
        None
    }
}

/// The size of a stack frame in bytes: V0 has double frames until SIMD-0460 is in force.
pub open spec fn frame_size(arch: SbpfArch, simd_0460: bool) -> nat {
    if arch == SbpfArch::V0 && !simd_0460 {
        8192
    } else {
        4096
    }
}

/// Reading the name of an architecture gives the architecture back.
pub proof fn arch_name_reads_back(arch: SbpfArch)
    ensures
        arch_named(arch_name(arch)) == Some(arch),
{
    reveal_strlit("v0");
    reveal_strlit("v3");
    assert("v0"@[1] != "v3"@[1]);
}

/// The architectures go by the names `v0` and `v3`, and by no others.
pub proof fn archs_go_by_their_names(name: Seq<char>)
    ensures
        arch_name(SbpfArch::V0) == seq!['v', '0'],
        arch_name(SbpfArch::V3) == seq!['v', '3'],
        forall|arch: SbpfArch| arch_named(name) == Some(arch) <==> name == #[trigger] arch_name(arch),
{
    reveal_strlit("v0");
    reveal_strlit("v3");
    assert("v0"@ =~= seq!['v', '0']);
    assert("v3"@ =~= seq!['v', '3']);
    assert("v0"@[1] != "v3"@[1]);
}

/// A stack frame has 4096 bytes, and twice as many on V0 until SIMD-0460 is in force.
pub proof fn frames_are_doubled_on_v0_only(arch: SbpfArch, simd_0460: bool)
    ensures
        frame_size(arch, true) == 4096,
        frame_size(SbpfArch::V3, simd_0460) == 4096,
        frame_size(SbpfArch::V0, false) == 2 * frame_size(SbpfArch::V0, true),
{
}

impl PartialEq for SbpfArch {
    fn eq(&self, other: &Self) -> (r: bool) {
        match (self, other) {
            (SbpfArch::V0, SbpfArch::V0) => true,
            (SbpfArch::V3, SbpfArch::V3) => true,
            _ => false,
        }
    }
}

impl vstd::std_specs::cmp::PartialEqSpecImpl for SbpfArch {
    open spec fn obeys_eq_spec() -> bool {
        true
    }

    open spec fn eq_spec(&self, other: &Self) -> bool {
        *self == *other
    }
}

impl Default for SbpfArch {
    /// V3, the architecture to build for where nothing else is asked for.
    fn default() -> (r: Self)
        ensures
            r == SbpfArch::V3,
    {
        SbpfArch::V3
    }
}

impl SbpfArch {
    /// The name of the architecture.
    pub fn as_str(self) -> (r: &'static str)
        ensures
            r@ == arch_name(self),
    {
        match self {
            SbpfArch::V0 => "v0",
            SbpfArch::V3 => "v3",
        }
    }

    /// The architecture that `name` names.
    pub fn from_name(name: &str) -> (r: Option<SbpfArch>)
        ensures
            r == arch_named(name@),
    {
        if crate::text::same(name, "v0") {
            Some(SbpfArch::V0)
        } else if crate::text::same(name, "v3") {
            Some(SbpfArch::V3)
        } else {
            None
        }
    }

    /// The size of a stack frame in bytes.
    pub fn stack_frame_size(self, simd_0460: bool) -> (r: u32)
        ensures
            r == frame_size(self, simd_0460),
    {
        match (self, simd_0460) {
            (SbpfArch::V0, false) => 8192,
            _ => 4096,
        }
    }
}

impl BuildConfig {
    /// The size of the BPF stack that the build needs, in bytes.
    pub fn stack_size(self) -> (r: u64)
        ensures
            r == frame_size(self.arch, self.simd_0460),
            r == 8192 <==> self.arch == SbpfArch::V0 && !self.simd_0460,
            r == 4096 <==> self.arch == SbpfArch::V3 || self.simd_0460,
    {
        if self.arch == SbpfArch::V0 && !self.simd_0460 {
            8192
        } else {
            4096
        }
    }
}

} // verus!
