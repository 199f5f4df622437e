//! The system-call filter that keeps Git helpers in their process group.

use vstd::prelude::*;

verus! {

/// Loads a word of the system-call record.
pub const BPF_LOAD_WORD_ABSOLUTE: u16 = 0x20;

/// Jumps on equality with the accumulator.
pub const BPF_JUMP_EQUAL: u16 = 0x15;

/// Masks the accumulator.
pub const BPF_AND: u16 = 0x54;

/// Ends the filter with a verdict.
pub const BPF_RETURN: u16 = 0x06;

/// Lets the call proceed.
pub const SECCOMP_RETURN_ALLOW: u32 = 0x7fff_0000;

/// Makes the call fail with the error number in the low bits.
pub const SECCOMP_RETURN_ERRNO: u32 = 0x0005_0000;

/// Kills the process.
pub const SECCOMP_RETURN_KILL_PROCESS: u32 = 0x8000_0000;

/// Marks a call made through the x32 interface.
pub const X32_SYSCALL_BIT: u32 = 0x4000_0000;

/// One instruction of a classic packet filter.
#[derive(Clone, Copy, Debug, PartialEq, Eq, Structural)]
pub struct FilterInstruction {
    pub code: u16,
    pub jt: u8,
    pub jf: u8,
    pub k: u32,
}

/// Numbers of the running platform that the filter refers to.
#[derive(Clone, Copy, Debug, PartialEq, Eq, Structural)]
pub struct Platform {
    /// Audit architecture of native system calls.
    pub native_arch: u32,
    /// Offset of the architecture in the system-call record.
    pub arch_offset: u32,
    /// Offset of the call number in the system-call record.
    pub number_offset: u32,
    /// Number of the call that starts a session.
    pub setsid: u32,
    /// Number of the call that joins a process group.
    pub setpgid: u32,
    /// Error number for a call that is not permitted.
    pub eperm: u32,
}

/// The verdict of a filter on one system call, run from instruction `at` with the given
/// accumulator; `None` where the filter runs off its end or meets another instruction.
pub open spec fn verdict(
    program: Seq<FilterInstruction>,
    at: int,
    accumulator: u32,
    platform: Platform,
    arch: u32,
    number: u32,
) -> Option<u32>
    decreases
        (if at <= program.len() {
            program.len() - at
        } else {
            0
        }),
{
    if at < 0 || at >= program.len() {
        None
    } else {
        let step = program[at];
        if step.code == BPF_RETURN {
            Some(step.k)
        } else if step.code == BPF_LOAD_WORD_ABSOLUTE {
            if step.k == platform.arch_offset {
                verdict(program, at + 1, arch, platform, arch, number)
            } else if step.k == platform.number_offset {
                verdict(program, at + 1, number, platform, arch, number)
            } else {
                None
            }
        } else if step.code == BPF_AND {
            verdict(program, at + 1, accumulator & step.k, platform, arch, number)
        } else if step.code == BPF_JUMP_EQUAL {
            if accumulator == step.k {
                verdict(program, at + 1 + step.jt, accumulator, platform, arch, number)
            } else {
                verdict(program, at + 1 + step.jf, accumulator, platform, arch, number)
            }
        } else {
            None
        }
    }
}

/// A call number without the mark of the x32 interface.
pub open spec fn plain_number(number: u32) -> u32 {
    number & !X32_SYSCALL_BIT
}

/// What the filter is for: calls of another architecture kill the process, calls that leave
/// the process group fail, through either interface, and every other call proceeds.
pub open spec fn confinement_verdict(platform: Platform, arch: u32, number: u32) -> u32 {
    if arch != platform.native_arch {
        SECCOMP_RETURN_KILL_PROCESS
    } else if plain_number(number) == plain_number(platform.setsid) || plain_number(number)
        == plain_number(platform.setpgid) {
        SECCOMP_RETURN_ERRNO | platform.eperm
    } else {
        SECCOMP_RETURN_ALLOW
    }
}

fn load(k: u32) -> (step: FilterInstruction)
    ensures
        step == (FilterInstruction { code: BPF_LOAD_WORD_ABSOLUTE, jt: 0, jf: 0, k }),
{
    FilterInstruction { code: BPF_LOAD_WORD_ABSOLUTE, jt: 0, jf: 0, k }
}

fn give(k: u32) -> (step: FilterInstruction)
    ensures
        step == (FilterInstruction { code: BPF_RETURN, jt: 0, jf: 0, k }),
{
    FilterInstruction { code: BPF_RETURN, jt: 0, jf: 0, k }
}

/// Builds the filter.
pub fn confinement_filter(platform: Platform) -> (program: Vec<FilterInstruction>)
    requires
        platform.arch_offset != platform.number_offset,
    ensures
        program@.len() == 10,
        forall|arch: u32, number: u32|
            #[trigger] verdict(program@, 0, 0, platform, arch, number) == Some(
                confinement_verdict(platform, arch, number),
            ),
{
    let mask: u32 = !X32_SYSCALL_BIT;
    let denied: u32 = SECCOMP_RETURN_ERRNO | platform.eperm;
    let mut program: Vec<FilterInstruction> = Vec::new();
    program.push(load(platform.arch_offset));
    program.push(
        FilterInstruction { code: BPF_JUMP_EQUAL, jt: 1, jf: 0, k: platform.native_arch },
    );
    program.push(give(SECCOMP_RETURN_KILL_PROCESS));
    program.push(load(platform.number_offset));
    program.push(FilterInstruction { code: BPF_AND, jt: 0, jf: 0, k: mask });
    program.push(
        FilterInstruction { code: BPF_JUMP_EQUAL, jt: 0, jf: 1, k: platform.setsid & mask },
    );
    program.push(give(denied));
    program.push(
        FilterInstruction { code: BPF_JUMP_EQUAL, jt: 0, jf: 1, k: platform.setpgid & mask },
    );
    program.push(give(denied));
    program.push(give(SECCOMP_RETURN_ALLOW));
    proof {
        assert forall|arch: u32, number: u32|
            #[trigger] verdict(program@, 0, 0, platform, arch, number) == Some(
                confinement_verdict(platform, arch, number),
            ) by {
            reveal_with_fuel(verdict, 11);
        }
    }
    program
}

/// Leaving the session or the process group is refused with the error number, whichever of the
/// two call interfaces is used; a call of another architecture kills the process; every other
/// call proceeds.
pub proof fn lemma_only_group_changes_are_refused(platform: Platform, arch: u32, number: u32)
    ensures
        ({
            let leaves = number & !0x4000_0000u32 == platform.setsid & !0x4000_0000u32 || number
                & !0x4000_0000u32 == platform.setpgid & !0x4000_0000u32;
            &&& arch != platform.native_arch ==> confinement_verdict(platform, arch, number)
                == 0x8000_0000u32
            &&& arch == platform.native_arch && leaves ==> confinement_verdict(
                platform,
                arch,
                number,
            ) == 0x0005_0000u32 | platform.eperm
            &&& arch == platform.native_arch && !leaves ==> confinement_verdict(
                platform,
                arch,
                number,
            ) == 0x7fff_0000u32
        }),
{
}

} // verus!
