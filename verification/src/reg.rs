//! The per-CPU base register: each CPU's architecture-specific control
//! register that holds the base address of that CPU's own data area, bound
//! once during the CPU's bring-up.
//!
//! The register is live hardware state, one word per CPU, mutated only by
//! that CPU; it is held here as one value per instance, together with the
//! self-pointer slot that one architecture keeps beside it. A platform layer
//! maps reads and writes of an instance onto the machine's own register
//! access sequence (a model-specific register, a thread-pointer register, or
//! a system register, depending on the architecture).

use vstd::prelude::*;
use crate::area::{AreaModel, PerCpuArea, lemma_area_base_in_range};

verus! {

/// The architectures recognized, each with its own designated base register.
#[derive(Clone, Copy, Debug, PartialEq, Eq, Structural)]
pub enum Arch {
    /// Holds the base in a model-specific segment-base register, mirrored in
    /// the self-pointer slot.
    X86_64,
    /// Holds the base in the global-pointer register.
    Riscv,
    /// Holds the base in the thread-pointer register of exception level 1.
    Aarch64El1,
    /// Holds the base in the thread-pointer register of exception level 2.
    Aarch64El2,
}

/// Model of one CPU's register state: the architecture, the word in the base
/// register, and the word in the self-pointer slot (meaningful only where
/// the architecture keeps one).
pub struct RegModel {
    pub arch: Arch,
    pub reg: usize,
    pub self_ptr: usize,
}

impl RegModel {
    /// The register state is consistent: on the architecture whose base
    /// register is reserved for a segment base, the self-pointer slot
    /// mirrors the register, so both lookup paths return the same base.
    pub open spec fn wf(self) -> bool {
        self.arch == Arch::X86_64 ==> self.self_ptr == self.reg
    }
}

/// State transition of a register write: the base register takes the new
/// word; on the architecture with a self-pointer slot, the slot takes the
/// same word in the same (interrupt-protected) sequence.
pub open spec fn spec_write_reg(m: RegModel, tp: usize) -> RegModel {
    RegModel {
        arch: m.arch,
        reg: tp,
        self_ptr: if m.arch == Arch::X86_64 {
            tp
        } else {
            m.self_ptr
        },
    }
}

/// A register write leaves the state consistent, whatever it was before.
pub proof fn lemma_write_reg_wf(m: RegModel, tp: usize)
    ensures
        spec_write_reg(m, tp).wf(),
{
}

/// Binding then reading: writing CPU `cpu_id`'s area base into the register
/// and then reading the register returns exactly that area base.
pub proof fn lemma_bind_then_read(r: RegModel, m: AreaModel, cpu_id: int)
    requires
        m.wf(),
        0 <= cpu_id < m.max_cpu_num,
    ensures
        spec_write_reg(r, m.area_base(cpu_id) as usize).reg == m.area_base(cpu_id),
        spec_write_reg(r, m.area_base(cpu_id) as usize).wf(),
{
    lemma_area_base_in_range(m, cpu_id);
}

/// One CPU's per-CPU base register, with the self-pointer slot kept beside
/// it on the architecture that has one.
pub struct PerCpuReg {
    arch: Arch,
    reg: usize,
    self_ptr: usize,
}

impl View for PerCpuReg {
    type V = RegModel;

    closed spec fn view(&self) -> RegModel {
        RegModel { arch: self.arch, reg: self.reg, self_ptr: self.self_ptr }
    }
}

impl PerCpuReg {
    /// Register state of a CPU at bring-up, before its register is bound:
    /// the register and the slot both hold zero, as the boot image leaves
    /// them.
    pub fn new(arch: Arch) -> (r: PerCpuReg)
        ensures
            r@ == (RegModel { arch, reg: 0, self_ptr: 0 }),
            r@.wf(),
    {
        PerCpuReg { arch, reg: 0, self_ptr: 0 }
    }

    /// Reads the per-CPU base register of this CPU: returns the word it
    /// holds, with no side effect.
    pub fn read_percpu_reg(&self) -> (r: usize)
        ensures
            r == self@.reg,
    {
        self.reg
    }

    /// Writes the per-CPU base register of this CPU. The caller must hand a
    /// valid area base for this CPU, or later per-CPU accesses on it reach
    /// foreign memory; the register itself takes any word. On the
    /// architecture with a self-pointer slot the same word goes into the
    /// slot, keeping the secondary lookup path consistent.
    pub fn write_percpu_reg(&mut self, tp: usize)
        ensures
            final(self)@ == spec_write_reg(old(self)@, tp),
            final(self)@.wf(),
    {
        self.reg = tp;
        if matches!(self.arch, Arch::X86_64) {
            self.self_ptr = tp;
        }
    }

    /// Binds this CPU's register during bring-up: computes the base address
    /// of the area of CPU `cpu_id` and writes it into the register, so that
    /// every later per-CPU access on this CPU lands in that area.
    pub fn init_percpu_reg(&mut self, area: &PerCpuArea, cpu_id: usize)
        requires
            area@.wf(),
            cpu_id < area@.max_cpu_num,
        ensures
            final(self)@ == spec_write_reg(old(self)@, area@.area_base(cpu_id as int) as usize),
            final(self)@.reg == area@.area_base(cpu_id as int),
            final(self)@.wf(),
    {
        proof {
            lemma_area_base_in_range(area@, cpu_id as int);
        }
        let tp = area.percpu_area_base(cpu_id);
        self.write_percpu_reg(tp);
    }
}

} // verus!
