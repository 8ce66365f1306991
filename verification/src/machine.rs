//! The MMIX machine: registers, memory, program counter and the bookkeeping
//! of a running program.

use crate::memory::{store_bytes, Memory};
use crate::register::{GeneralRegisters, SpecialRegisters};
use vstd::prelude::*;

verus! {

/// The state of a machine as a mathematical value.
pub struct MachineState {
    pub special: SpecialRegisters,
    pub general: Seq<u64>,
    pub memory: Map<u64, u8>,
    pub halted: bool,
    pub output: Seq<u8>,
    pub pc: u64,
    pub oops: u64,
    pub mems: u64,
}

/// An MMIX machine.
pub struct Machine {
    pub special: SpecialRegisters,
    pub general: GeneralRegisters,
    pub memory: Memory,
    /// Set by `TRAP 0,0,0`.
    pub halted: bool,
    /// Bytes written by `TRAP 0,1,1` (Fputs) and not yet taken.
    pub output_buffer: Vec<u8>,
    /// Address of the next instruction.
    pub pc: u64,
    /// Clock cycles (υ) spent so far.
    pub oops: u64,
    /// Memory accesses (μ) made so far.
    pub mems: u64,
}

impl View for Machine {
    type V = MachineState;

    open spec fn view(&self) -> MachineState {
        MachineState {
            special: self.special,
            general: self.general@,
            memory: self.memory@,
            halted: self.halted,
            output: self.output_buffer@,
            pc: self.pc,
            oops: self.oops,
            mems: self.mems,
        }
    }
}

/// A machine with all registers, memory and counters zero.
pub open spec fn initial_state() -> MachineState {
    MachineState {
        special: SpecialRegisters::zeroed(),
        general: Seq::new(256, |i: int| 0u64),
        memory: Map::empty(),
        halted: false,
        output: Seq::empty(),
        pc: 0,
        oops: 0,
        mems: 0,
    }
}

impl Machine {
    pub fn new() -> (m: Self)
        ensures
            m@ == initial_state(),
    {
        Self {
            special: SpecialRegisters::new(),
            general: GeneralRegisters::new(),
            memory: Memory::new(),
            halted: false,
            output_buffer: Vec::new(),
            pc: 0,
            oops: 0,
            mems: 0,
        }
    }

    /// Clears registers, memory, the halt flag and the output buffer; the
    /// program counter and the counters are kept.
    pub fn reset(&mut self)
        ensures
            final(self)@ == (MachineState {
                pc: old(self).pc,
                oops: old(self).oops,
                mems: old(self).mems,
                ..initial_state()
            }),
    {
        self.special = SpecialRegisters::new();
        self.general = GeneralRegisters::new();
        self.memory = Memory::new();
        self.halted = false;
        self.output_buffer.clear();
    }

    /// Loads raw bytes into memory from `base_addr` on.
    pub fn load_raw(&mut self, base_addr: u64, bytes: &[u8])
        ensures
            final(self)@ == (MachineState {
                memory: store_bytes(old(self)@.memory, base_addr, bytes@),
                ..old(self)@
            }),
    {
        let ghost m0 = self.memory@;
        let mut i: usize = 0;
        proof {
            assert(bytes@.take(0) =~= Seq::<u8>::empty());
        }
        while i < bytes.len()
            invariant
                i <= bytes@.len(),
                self.memory@ == store_bytes(m0, base_addr, bytes@.take(i as int)),
                self.special == old(self).special,
                self.general@ == old(self).general@,
                self.halted == old(self).halted,
                self.output_buffer@ == old(self).output_buffer@,
                self.pc == old(self).pc,
                self.oops == old(self).oops,
                self.mems == old(self).mems,
            decreases bytes@.len() - i,
        {
            proof {
                assert(bytes@.take(i + 1).drop_last() =~= bytes@.take(i as int));
            }
            self.memory.write_u8(base_addr.wrapping_add(i as u64), bytes[i]);
            i = i + 1;
        }
        proof {
            assert(bytes@.take(i as int) =~= bytes@);
        }
    }

    /// Sets the program entry point.
    pub fn set_entry(&mut self, addr: u64)
        ensures
            final(self)@ == (MachineState { pc: addr, ..old(self)@ }),
    {
        self.pc = addr;
    }
}


impl Default for Machine {
    fn default() -> (r: Self)
        ensures
            r@ == initial_state(),
    {
        Self::new()
    }
}

} // verus!
