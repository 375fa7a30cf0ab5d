//! Decode-and-execute over a program loaded at offset 0 of memory.
use vstd::prelude::*;
use crate::cpu::{execute, simulate_instruction, CpuState, ExecError, Registers};
use crate::decode::DecodeError;
use crate::decoder::{spec_decode_next, Decoder};
use crate::memory::{Memory, MEMORY_SIZE};
use crate::ops::Instruction;

verus! {

/// Why the simulation stopped before the end of the program.
#[derive(Debug, Clone, Copy, PartialEq, Eq, Structural)]
pub enum SimError {
    /// The program does not fit in memory.
    ProgramTooLarge,
    /// The bytes at IP are not an instruction.
    Decode(DecodeError),
    /// The instruction could not be executed.
    Exec(ExecError),
}

/// One step from registers `r` and memory `m` over a program of `len` bytes:
/// `None` once IP is at or past the end, else the instruction executed and
/// the registers and memory after it.
pub open spec fn step_result(r: Registers, m: Seq<u8>, len: usize) -> Result<
    Option<(Instruction, Registers, Seq<u8>)>,
    SimError,
> {
    match spec_decode_next(m.subrange(0, len as int), r.ip) {
        Err(e) => Err(SimError::Decode(e)),
        Ok(None) => Ok(None),
        Ok(Some((i, q))) => match execute(Registers { ip: q, ..r }, m, i) {
            Ok((r2, m2)) => Ok(Some((i, r2, m2))),
            Err(e) => Err(SimError::Exec(e)),
        },
    }
}

/// Registers and memory after at most `n` steps; stops early at the end of
/// the program or on an error.
pub open spec fn run_result(r: Registers, m: Seq<u8>, len: usize, n: nat) -> Result<
    (Registers, Seq<u8>),
    SimError,
>
    decreases n,
{
    if n == 0 {
        Ok((r, m))
    } else {
        match step_result(r, m, len) {
            Err(e) => Err(e),
            Ok(None) => Ok((r, m)),
            Ok(Some((_, r2, m2))) => run_result(r2, m2, len, (n - 1) as nat),
        }
    }
}

/// A CPU and memory running a program loaded at offset 0.
pub struct Simulator {
    pub state: CpuState,
    pub memory: Memory,
    pub program_len: usize,
    pub decoder: Decoder,
}

impl Simulator {
    pub closed spec fn wf(&self) -> bool {
        &&& self.decoder.wf()
        &&& self.memory.wf()
        &&& self.program_len <= MEMORY_SIZE
    }

    /// Zeroed registers and memory with `program` copied to offset 0.
    pub fn load(program: &[u8]) -> (r: Result<Simulator, SimError>)
        ensures
            program@.len() > MEMORY_SIZE ==> r == Err::<Simulator, SimError>(SimError::ProgramTooLarge),
            program@.len() <= MEMORY_SIZE ==> (r matches Ok(sim) && {
                &&& sim.wf()
                &&& sim.state.registers == Registers::new_spec()
                &&& sim.program_len == program@.len()
                &&& sim.memory@.subrange(0, program@.len() as int) == program@
                &&& forall|i: int| program@.len() <= i < MEMORY_SIZE ==> sim.memory@[i] == 0
            }),
    {
        if program.len() > MEMORY_SIZE {
            return Err(SimError::ProgramTooLarge);
        }
        let mut memory = Memory::new();
        memory.copy_from_slice(program, 0);
        let sim = Simulator {
            state: CpuState::new(),
            memory,
            program_len: program.len(),
            decoder: Decoder::new(),
        };
        proof {
            assert(sim.memory@.subrange(0, program@.len() as int) =~= program@);
        }
        Ok(sim)
    }

    /// Decodes the instruction at IP, moves IP past it and executes it.
    /// Returns `None` at the end of the program. On a decoding error nothing
    /// changes; on an execution error only IP has moved.
    pub fn step(&mut self) -> (r: Result<Option<Instruction>, SimError>)
        requires
            old(self).wf(),
        ensures
            final(self).wf(),
            final(self).program_len == old(self).program_len,
            match step_result(old(self).state.registers, old(self).memory@, old(self).program_len) {
                Ok(Some((i, regs, m))) => r == Ok::<Option<Instruction>, SimError>(Some(i))
                    && final(self).state.registers == regs && final(self).memory@ == m,
                Ok(None) => r == Ok::<Option<Instruction>, SimError>(None) && final(self).state
                    == old(self).state && final(self).memory@ == old(self).memory@,
                Err(e) => r == Err::<Option<Instruction>, SimError>(e) && final(self).memory@ == old(
                    self,
                ).memory@,
            },
            r matches Err(SimError::Decode(_)) ==> final(self).state == old(self).state,
            r matches Err(SimError::Exec(_)) ==> final(self).state.registers == (Registers {
                ip: final(self).state.registers.ip,
                ..old(self).state.registers
            }),
    {
        let ip = self.state.registers.ip;
        let decoded = {
            let bytes = self.memory.iter(0, self.program_len);
            self.decoder.decode_next(bytes, ip)
        };
        match decoded {
            Err(e) => Err(SimError::Decode(e)),
            Ok(None) => Ok(None),
            Ok(Some((instruction, q))) => {
                self.state.registers.ip = q;
                match simulate_instruction(&mut self.state, &mut self.memory, instruction) {
                    Ok(()) => Ok(Some(instruction)),
                    Err(e) => Err(SimError::Exec(e)),
                }
            },
        }
    }

    /// Runs at most `max_steps` steps, stopping at the end of the program.
    pub fn run(&mut self, max_steps: usize) -> (r: Result<(), SimError>)
        requires
            old(self).wf(),
        ensures
            final(self).wf(),
            match run_result(
                old(self).state.registers,
                old(self).memory@,
                old(self).program_len,
                max_steps as nat,
            ) {
                Ok((regs, m)) => r is Ok && final(self).state.registers == regs && final(self).memory@
                    == m,
                Err(e) => r == Err::<(), SimError>(e),
            },
    {
        let mut n: usize = 0;
        while n < max_steps
            invariant
                self.wf(),
                n <= max_steps,
                self.program_len == old(self).program_len,
                run_result(
                    old(self).state.registers,
                    old(self).memory@,
                    old(self).program_len,
                    max_steps as nat,
                ) == run_result(
                    self.state.registers,
                    self.memory@,
                    self.program_len,
                    (max_steps - n) as nat,
                ),
            decreases max_steps - n,
        {
            match self.step() {
                Err(e) => return Err(e),
                Ok(None) => return Ok(()),
                Ok(Some(_)) => {},
            }
            n = n + 1;
        }
        Ok(())
    }
}

/// Loads `program` and runs it for at most `max_steps` steps.
pub fn simulate(program: &[u8], max_steps: usize) -> (r: Result<Simulator, SimError>)
    ensures
        program@.len() > MEMORY_SIZE ==> r == Err::<Simulator, SimError>(SimError::ProgramTooLarge),
        program@.len() <= MEMORY_SIZE ==> match run_result(
            Registers::new_spec(),
            program@ + Seq::new((MEMORY_SIZE - program@.len()) as nat, |i: int| 0u8),
            program@.len() as usize,
            max_steps as nat,
        ) {
            Ok((regs, m)) => (r matches Ok(sim) && sim.state.registers == regs && sim.memory@ == m),
            Err(e) => r == Err::<Simulator, SimError>(e),
        },
{
    let mut sim = match Simulator::load(program) {
        Ok(sim) => sim,
        Err(e) => return Err(e),
    };
    proof {
        assert(sim.memory@ =~= program@ + Seq::new(
            (MEMORY_SIZE - program@.len()) as nat,
            |i: int| 0u8,
        )) by {
            assert(sim.memory@.subrange(0, program@.len() as int) == program@);
            assert forall|i: int| 0 <= i < MEMORY_SIZE implies sim.memory@[i] == (program@
                + Seq::new((MEMORY_SIZE - program@.len()) as nat, |i: int| 0u8))[i] by {
                if i < program@.len() {
                    assert(sim.memory@[i] == sim.memory@.subrange(0, program@.len() as int)[i]);
                }
            }
        }
    }
    match sim.run(max_steps) {
        Ok(()) => Ok(sim),
        Err(e) => Err(e),
    }
}

} // verus!
