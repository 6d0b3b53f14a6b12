//! The machine: registers, memory, program counter, call stack, display, and
//! the fetch-decode-execute loop.

use vstd::prelude::*;

use crate::opcodes::{decode, spec_decode, Opcode};

verus! {

/// A fault that aborts the run loop. Faults are surfaced as values so that a
/// host embedding the machine can catch and report them.
#[derive(Debug, PartialEq, Eq, Structural, Clone, Copy)]
pub enum Fault {
    /// A fetch addressed a byte outside the 4096-cell memory.
    OutOfBounds,
    /// The fetched word decoded to an operation the loop has no handler for.
    UnrecognizedOpcode,
}

/// The mathematical state of the machine: the register file, flat memory,
/// program counter, call stack with its pointer, and the display grid of
/// 32 rows by 64 columns.
#[verifier::ext_equal]
pub ghost struct CpuView {
    pub regs: Seq<u8>,
    pub mem: Seq<u8>,
    pub pc: nat,
    pub stack: Seq<u16>,
    pub sp: nat,
    pub display: Seq<Seq<bool>>,
}

/// The machine state. Sixteen 8-bit registers (register 15 doubles as the
/// carry/borrow flag), 4096 bytes of memory, a program counter, a 16-slot
/// call stack (present but unused by the implemented operations), and a
/// 64x32 monochrome display.
pub struct CPU {
    pub registers: [u8; 16],
    pub memory: [u8; 4096],
    pub position_in_memory: usize,
    pub stack: [u16; 16],
    pub stack_pointer: usize,
    pub display: [[bool; 64]; 32],
}

impl View for CPU {
    type V = CpuView;

    open spec fn view(&self) -> CpuView {
        CpuView {
            regs: self.registers@,
            mem: self.memory@,
            pc: self.position_in_memory as nat,
            stack: self.stack@,
            sp: self.stack_pointer as nat,
            display: self.display@.map_values(|row: [bool; 64]| row@),
        }
    }
}

pub open spec fn zero_regs() -> Seq<u8> {
    Seq::new(16, |i: int| 0u8)
}

pub open spec fn zero_mem() -> Seq<u8> {
    Seq::new(4096, |i: int| 0u8)
}

pub open spec fn zero_stack() -> Seq<u16> {
    Seq::new(16, |i: int| 0u16)
}

/// The display with every pixel off.
pub open spec fn blank_display() -> Seq<Seq<bool>> {
    Seq::new(32, |r: int| Seq::new(64, |c: int| false))
}

/// The state `reset` produces: everything zeroed except the display, which
/// persists across resets.
pub open spec fn reset_view(s: CpuView) -> CpuView {
    CpuView {
        regs: zero_regs(),
        mem: zero_mem(),
        pc: 0,
        stack: zero_stack(),
        sp: 0,
        display: s.display,
    }
}

/// Memory after loading `prog` at offset 0: the program's bytes at
/// `[0, prog.len())`, the prior contents everywhere else.
pub open spec fn spec_load(mem: Seq<u8>, prog: Seq<u8>) -> Seq<u8> {
    Seq::new(4096, |i: int| if i < prog.len() { prog[i] } else { mem[i] })
}

/// A 16-bit instruction word read big-endian from two consecutive bytes.
pub open spec fn word_of(hi: u8, lo: u8) -> u16 {
    ((hi as u16) << 8) | (lo as u16)
}

/// An integer taken modulo 256, as the 8-bit value a wrapping operation
/// leaves in a register.
pub open spec fn wrap8(n: int) -> u8 {
    (n % 256) as u8
}

/// The effect of one dispatched operation on the machine state. `Halt` and
/// `Unimplemented` never reach this point: the run loop terminates on them.
///
/// Arithmetic wraps modulo 256. A register-to-register add or subtract that
/// overflows or underflows sets register 15 to 1 before the destination is
/// written; on no overflow register 15 keeps its prior value (it is not
/// cleared). The immediate add has no flag effect at all.
pub open spec fn apply_op(s: CpuView, op: Opcode) -> CpuView {
    match op {
        Opcode::SeVX { x, b } => CpuView { regs: s.regs.update(x as int, b), ..s },
        Opcode::AddVX { x, b } => CpuView {
            regs: s.regs.update(x as int, wrap8(s.regs[x as int] + b)),
            ..s
        },
        Opcode::LdXY { x, y } => CpuView { regs: s.regs.update(x as int, s.regs[y as int]), ..s },
        Opcode::AddXY { x, y } => {
            let sum = s.regs[x as int] + s.regs[y as int];
            let flagged = if sum > 255 {
                s.regs.update(15, 1u8)
            } else {
                s.regs
            };
            CpuView { regs: flagged.update(x as int, wrap8(sum)), ..s }
        },
        Opcode::SubXY { x, y } => {
            let diff = s.regs[x as int] - s.regs[y as int];
            let flagged = if diff < 0 {
                s.regs.update(15, 1u8)
            } else {
                s.regs
            };
            CpuView { regs: flagged.update(x as int, wrap8(diff + 256)), ..s }
        },
        _ => s,
    }
}

/// The run loop, as a function on states: fetch the word at the program
/// counter (a fetch past the end of memory is a bounds fault), advance the
/// counter by 2, then dispatch. `Halt` ends the run successfully,
/// `Unimplemented` ends it with a fault, and every other operation mutates
/// the state and continues. The pair holds the state the machine is left in
/// and the outcome.
pub open spec fn spec_run(s: CpuView) -> (CpuView, Result<(), Fault>)
    decreases 4096 - s.pc,
{
    if s.pc + 1 >= 4096 {
        (s, Err(Fault::OutOfBounds))
    } else {
        let w = word_of(s.mem[s.pc as int], s.mem[s.pc as int + 1]);
        let s1 = CpuView { pc: (s.pc + 2) as nat, ..s };
        match spec_decode(w) {
            Opcode::Halt => (s1, Ok(())),
            Opcode::Unimplemented => (s1, Err(Fault::UnrecognizedOpcode)),
            op => spec_run(apply_op(s1, op)),
        }
    }
}

impl CPU {
    /// A fresh machine: every register, memory cell and stack slot zero, the
    /// program counter at zero, and every display pixel off.
    pub fn new() -> (cpu: CPU)
        ensures
            cpu@ == (CpuView {
                regs: zero_regs(),
                mem: zero_mem(),
                pc: 0,
                stack: zero_stack(),
                sp: 0,
                display: blank_display(),
            }),
    {
        let cpu = CPU {
            registers: [0u8; 16],
            memory: [0u8; 4096],
            position_in_memory: 0,
            stack: [0u16; 16],
            stack_pointer: 0,
            display: [[false; 64]; 32],
        };
        proof {
            assert(cpu.registers@ =~= zero_regs());
            assert(cpu.memory@ =~= zero_mem());
            assert(cpu.stack@ =~= zero_stack());
            assert(cpu@.display =~~= blank_display());
        }
        cpu
    }

    /// Copy `program` into memory starting at address 0, leaving every byte
    /// at and beyond `program.len()` at its prior value. Registers, program
    /// counter, stack and display are untouched.
    pub fn load(&mut self, program: &[u8])
        requires
            program@.len() <= 4096,
        ensures
            final(self)@ == (CpuView { mem: spec_load(old(self)@.mem, program@), ..old(self)@ }),
    {
        let mut i: usize = 0;
        while i < program.len()
            invariant
                i <= program@.len() <= 4096,
                forall|j: int| 0 <= j < i ==> self.memory@[j] == program@[j],
                forall|j: int| i <= j < 4096 ==> self.memory@[j] == old(self).memory@[j],
                self.registers == old(self).registers,
                self.position_in_memory == old(self).position_in_memory,
                self.stack == old(self).stack,
                self.stack_pointer == old(self).stack_pointer,
                self.display == old(self).display,
            decreases program@.len() - i,
        {
            self.memory[i] = program[i];
            i += 1;
        }
        proof {
            assert(self.memory@ =~= spec_load(old(self)@.mem, program@));
            assert(self@ =~= (CpuView { mem: spec_load(old(self)@.mem, program@), ..old(self)@ }));
        }
    }

    /// Return registers, memory, program counter, stack and stack pointer to
    /// zero. The display is deliberately left as it is: it persists across
    /// resets.
    pub fn reset(&mut self)
        ensures
            final(self)@ == reset_view(old(self)@),
    {
        self.registers = [0u8; 16];
        self.memory = [0u8; 4096];
        self.position_in_memory = 0;
        self.stack = [0u16; 16];
        self.stack_pointer = 0;
        proof {
            assert(self.registers@ =~= zero_regs());
            assert(self.memory@ =~= zero_mem());
            assert(self.stack@ =~= zero_stack());
            assert(self@ =~= reset_view(old(self)@));
        }
    }

    /// The clear-screen operation: every display pixel goes off; nothing
    /// else changes.
    pub fn clear_screen(&mut self)
        ensures
            final(self)@ == (CpuView { display: blank_display(), ..old(self)@ }),
            forall|r: int, c: int|
                0 <= r < 32 && 0 <= c < 64 ==> final(self)@.display[r][c] == false,
    {
        self.display = [[false; 64]; 32];
        proof {
            assert(self@.display =~~= blank_display());
            assert(self@ =~= (CpuView { display: blank_display(), ..old(self)@ }));
        }
    }

    /// The fetch-decode-execute loop. Repeatedly fetches the big-endian word
    /// at the program counter, advances the counter by 2 before dispatch,
    /// and executes the decoded operation, until the halt word ends the run
    /// successfully or a fault (fetch out of bounds, unrecognized opcode)
    /// aborts it. The state left behind and the outcome are exactly those of
    /// [`spec_run`].
    ///
    /// The zero word both halts the loop and stands where the historical
    /// clear-screen opcode would: in this reduced instruction set the loop
    /// treats it as halt, and the clear operation is exposed separately as
    /// [`CPU::clear_screen`].
    #[verifier::loop_isolation(false)]
    pub fn run(&mut self) -> (res: Result<(), Fault>)
        ensures
            final(self)@ == spec_run(old(self)@).0,
            res == spec_run(old(self)@).1,
    {
        loop
            invariant
                spec_run(self@) == spec_run(old(self)@),
            decreases 4096 - self.position_in_memory,
        {
            if self.position_in_memory >= 4095 {
                return Err(Fault::OutOfBounds);
            }
            let pos = self.position_in_memory;
            let hi = self.memory[pos];
            let lo = self.memory[pos + 1];
            let word = ((hi as u16) << 8) | (lo as u16);
            self.position_in_memory = pos + 2;
            let ghost s1 = self@;
            let op = decode(word);
            match op {
                Opcode::Halt => {
                    return Ok(());
                },
                Opcode::Unimplemented => {
                    return Err(Fault::UnrecognizedOpcode);
                },
                Opcode::SeVX { x, b } => {
                    self.registers[x as usize] = b;
                },
                Opcode::AddVX { x, b } => {
                    let v = self.registers[x as usize];
                    self.registers[x as usize] = ((v as u16 + b as u16) % 256) as u8;
                },
                Opcode::LdXY { x, y } => {
                    self.registers[x as usize] = self.registers[y as usize];
                },
                Opcode::AddXY { x, y } => {
                    let a = self.registers[x as usize];
                    let b = self.registers[y as usize];
                    let sum = a as u16 + b as u16;
                    if sum > 255 {
                        self.registers[15] = 1;
                    }
                    self.registers[x as usize] = (sum % 256) as u8;
                },
                Opcode::SubXY { x, y } => {
                    let a = self.registers[x as usize];
                    let b = self.registers[y as usize];
                    if b > a {
                        self.registers[15] = 1;
                    }
                    self.registers[x as usize] = ((a as u16 + 256 - b as u16) % 256) as u8;
                },
            }
            proof {
                assert(self@ =~= apply_op(s1, op));
            }
        }
    }
}

/// Fetching the halt word terminates the run loop at once: the outcome is
/// success, the program counter advances past the halt word, and every
/// register — and all other state — is unchanged.
pub proof fn lemma_halt_preserves_state(s: CpuView)
    requires
        s.pc + 1 < 4096,
        s.mem[s.pc as int] == 0,
        s.mem[s.pc as int + 1] == 0,
    ensures
        spec_run(s).1 == Ok::<(), Fault>(()),
        spec_run(s).0 == (CpuView { pc: (s.pc + 2) as nat, ..s }),
        spec_run(s).0.regs == s.regs,
{
    assert(word_of(0, 0) == 0) by (bit_vector);
}

/// Resetting twice is the same as resetting once: the reset state depends
/// only on the display, and reset preserves the display.
pub proof fn lemma_reset_idempotent(s: CpuView)
    ensures
        reset_view(reset_view(s)) == reset_view(s),
{
}

/// Loading a program into zeroed memory reproduces its bytes exactly at
/// offsets `[0, len)` and leaves every byte at and beyond `len` zero.
pub proof fn lemma_load_fresh_memory(prog: Seq<u8>)
    requires
        prog.len() <= 4096,
    ensures
        forall|j: int| 0 <= j < prog.len() ==> spec_load(zero_mem(), prog)[j] == prog[j],
        forall|j: int| prog.len() <= j < 4096 ==> spec_load(zero_mem(), prog)[j] == 0,
{
}

} // verus!
