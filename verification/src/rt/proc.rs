//! The processor: sixty-four registers, a program counter and a condition
//! flag, and the loop that fetches, decodes and executes one instruction of
//! eight bytes after the other.

use crate::assembler::op::{code_of, decode_numeric, lemma_opcode_round_trip};
use crate::assembler::{
    code_bytes, instruction, lemma_stream_layout, opcode, operand_bytes, stream, value_bytes,
    Command, Op, STRIDE,
};
use crate::errors;
use crate::errors::{Error, ErrorView};
use vstd::prelude::*;

verus! {

/// The number of registers.
pub const REGISTERS: usize = 64;

/// The state of a processor as contracts speak of it.
pub struct Machine {
    /// The registers: always [`REGISTERS`] of them.
    pub registers: Seq<u64>,
    /// How many bytes of the program have been consumed.
    pub pc: nat,
    /// The condition flag. No instruction reads or writes it.
    pub cond: bool,
    /// The register files that the program has reported so far.
    pub output: Seq<Seq<u64>>,
}

/// A machine that has not run yet: all registers are zero, nothing is
/// consumed, the flag is down, nothing is reported.
pub open spec fn fresh() -> Machine {
    Machine {
        registers: Seq::new(REGISTERS as nat, |i: int| 0u64),
        pc: 0,
        cond: false,
        output: Seq::empty(),
    }
}

/// The number that two bytes hold, high byte first.
pub open spec fn word16(bytes: Seq<u8>) -> u16
    recommends
        bytes.len() >= 2,
{
    (bytes[0] * 0x100 + bytes[1]) as u16
}

/// The number that four bytes hold, most significant byte first.
pub open spec fn word32(bytes: Seq<u8>) -> u32
    recommends
        bytes.len() >= 4,
{
    (bytes[0] * 0x100_0000 + bytes[1] * 0x1_0000 + bytes[2] * 0x100 + bytes[3]) as u32
}

/// The number that eight bytes hold, most significant byte first.
pub open spec fn word64(bytes: Seq<u8>) -> u64
    recommends
        bytes.len() >= 8,
{
    (word32(bytes.take(4)) * 0x1_0000_0000 + word32(bytes.subrange(4, 8))) as u64
}

/// The sum of two registers: what does not fit in sixty-four bits is lost.
pub open spec fn wrapped_sum(a: u64, b: u64) -> u64 {
    ((a + b) % 0x1_0000_0000_0000_0000) as u64
}

/// The difference of two registers, wrapped like the sum.
pub open spec fn wrapped_difference(a: u64, b: u64) -> u64 {
    ((a - b) % 0x1_0000_0000_0000_0000) as u64
}

/// The command that an opcode stands for with the six bytes behind it.
///
/// `SET` has its register in byte 0 and its value in bytes 2 to 5; byte 1 is
/// not looked at. `ADD` and `SUB` have their registers in bytes 0, 1 and 2.
/// What is left of the six bytes is not looked at.
pub open spec fn decode(op: Op, args: Seq<u8>) -> Command
    recommends
        args.len() == 6,
{
    match op {
        Op::HLT => Command::Halt,
        Op::IGL => Command::Illegal,
        Op::Reg => Command::Report,
        Op::SET => Command::Load { dest: args[0], value: word32(args.subrange(2, 6)) },
        Op::Add => Command::Add { a: args[0], b: args[1], dest: args[2] },
        Op::Sub => Command::Sub { a: args[0], b: args[1], dest: args[2] },
    }
}

/// The command that an instruction of eight bytes stands for: the first two
/// bytes are the code of the opcode, the other six its operands. A code that
/// the table does not hold stands for the illegal instruction.
pub open spec fn decode_instruction(instruction: Seq<u8>) -> Command
    recommends
        instruction.len() == STRIDE,
{
    decode(decode_numeric(word16(instruction.subrange(0, 2))), instruction.subrange(2, 8))
}

/// The registers after `value` is put into register `dest`, or the error
/// that there is no such register.
pub open spec fn store(m: Machine, dest: u8, value: u64) -> Result<Machine, ErrorView> {
    if dest >= REGISTERS {
        Err(ErrorView::Index(dest))
    } else {
        Ok(Machine { registers: m.registers.update(dest as int, value), ..m })
    }
}

/// What carrying out one command makes of a machine.
///
/// * To halt and to execute the illegal instruction end the run, each with
///   its own signal.
/// * A report adds the registers to the output and changes nothing else.
/// * A load puts its value into its register.
/// * A sum and a difference are taken of two registers and put into a
///   third; what does not fit in sixty-four bits is lost.
///
/// A command that names a register which the machine does not have changes
/// nothing and fails with the first such number, in the order in which the
/// registers are written.
pub open spec fn perform(m: Machine, command: Command) -> Result<Machine, ErrorView> {
    match command {
        Command::Halt => Err(ErrorView::Halt),
        Command::Illegal => Err(ErrorView::Illegal),
        Command::Report => Ok(Machine { output: m.output.push(m.registers), ..m }),
        Command::Load { dest, value } => store(m, dest, value as u64),
        Command::Add { a, b, dest } => if a >= REGISTERS {
            Err(ErrorView::Index(a))
        } else if b >= REGISTERS {
            Err(ErrorView::Index(b))
        } else {
            store(m, dest, wrapped_sum(m.registers[a as int], m.registers[b as int]))
        },
        Command::Sub { a, b, dest } => if a >= REGISTERS {
            Err(ErrorView::Index(a))
        } else if b >= REGISTERS {
            Err(ErrorView::Index(b))
        } else {
            store(m, dest, wrapped_difference(m.registers[a as int], m.registers[b as int]))
        },
    }
}

/// What executing one instruction makes of a machine: `op` is its opcode,
/// `args` are the six bytes behind it.
pub open spec fn execute(m: Machine, op: Op, args: Seq<u8>) -> Result<Machine, ErrorView>
    recommends
        args.len() == 6,
{
    perform(m, decode(op, args))
}

/// How a run ended, as contracts speak of it.
pub open spec fn outcome(result: errors::Result<()>) -> Result<(), ErrorView> {
    match result {
        Ok(()) => Ok(()),
        Err(e) => Err(e@),
    }
}

/// What running `code` makes of a machine that has consumed `m.pc` bytes of
/// it, and how the run ends.
///
/// Each cycle consumes eight bytes: two for the opcode and six for its
/// operands, used or not. The run ends without error where fewer than eight
/// bytes are left, and with the error of the first instruction that has one;
/// the bytes of that instruction count as consumed.
pub open spec fn run(m: Machine, code: Seq<u8>) -> (Machine, Result<(), ErrorView>)
    decreases code.len() - m.pc,
{
    if m.pc + STRIDE > code.len() {
        (m, Ok(()))
    } else {
        let instruction = code.subrange(m.pc as int, m.pc + STRIDE);
        let fetched = Machine { pc: m.pc + STRIDE as nat, ..m };
        match perform(fetched, decode_instruction(instruction)) {
            Err(e) => (fetched, Err(e)),
            Ok(next) => run(next, code),
        }
    }
}

/// A machine before it runs a program: as it is, but with nothing consumed.
pub open spec fn rewound(m: Machine) -> Machine {
    Machine { pc: 0, ..m }
}

/// What carrying out commands one after the other makes of a machine, and
/// how that ends: with the error of the first command that has one, or
/// without error behind the last. Each command that is reached counts for
/// eight bytes consumed.
pub open spec fn carry_out(m: Machine, commands: Seq<Command>) -> (Machine, Result<(), ErrorView>)
    decreases commands.len(),
{
    if commands.len() == 0 {
        (m, Ok(()))
    } else {
        let fetched = Machine { pc: m.pc + STRIDE as nat, ..m };
        match perform(fetched, commands[0]) {
            Err(e) => (fetched, Err(e)),
            Ok(next) => carry_out(next, commands.drop_first()),
        }
    }
}

/// Two bytes that were written for a code are read as that code, and four
/// bytes that were written for a value as that value.
pub proof fn lemma_bytes_round_trip(code: u16, value: u32)
    ensures
        word16(code_bytes(code)) == code,
        word32(value_bytes(value)) == value,
{
}

/// The instruction that the assembler writes for a command is read by the
/// processor as that command.
pub proof fn lemma_instruction_round_trip(command: Command)
    ensures
        decode_instruction(instruction(command)) == command,
{
    lemma_opcode_round_trip(opcode(command));
    lemma_bytes_round_trip(code_of(opcode(command)), 0);
    if let Command::Load { dest, value } = command {
        lemma_bytes_round_trip(0, value);
    }
}

/// Running the stream of a sequence of commands carries out the commands,
/// one after the other.
pub proof fn lemma_stream_runs(m: Machine, commands: Seq<Command>)
    requires
        m.pc == 0,
    ensures
        run(m, stream(commands)) == carry_out(m, commands),
{
    assert(commands.skip(0) =~= commands);
    lemma_stream_runs_on(m, commands, 0);
}

/// Running the stream of a sequence of commands from its instruction at
/// place `i` carries out the commands from place `i` on.
proof fn lemma_stream_runs_on(m: Machine, commands: Seq<Command>, i: int)
    requires
        0 <= i <= commands.len(),
        m.pc == STRIDE * i,
    ensures
        run(m, stream(commands)) == carry_out(m, commands.skip(i)),
    decreases commands.len() - i,
{
    let rest = commands.skip(i);
    lemma_stream_layout(commands);
    if i < commands.len() {
        let fetched = Machine { pc: m.pc + STRIDE as nat, ..m };
        lemma_instruction_round_trip(commands[i]);
        assert(rest.drop_first() =~= commands.skip(i + 1));
        match perform(fetched, commands[i]) {
            Err(_) => {},
            Ok(next) => {
                lemma_stream_runs_on(next, commands, i + 1);
            },
        }
    }
}

/// A run consumes whole instructions and only looks at registers: it ends
/// at a multiple of eight bytes, at the end of the code if no instruction
/// failed; it keeps the number of registers and the condition flag; and it
/// adds to what was reported without changing what was there.
pub proof fn lemma_run_keeps_shape(m: Machine, code: Seq<u8>)
    requires
        m.registers.len() == REGISTERS,
        m.pc % STRIDE as nat == 0,
        code.len() % STRIDE as nat == 0,
        m.pc <= code.len(),
    ensures
        ({
            let (end, ended) = run(m, code);
            &&& end.pc % STRIDE as nat == 0
            &&& m.pc <= end.pc <= code.len()
            &&& ended is Ok ==> end.pc == code.len()
            &&& end.registers.len() == REGISTERS
            &&& end.cond == m.cond
            &&& m.output.is_prefix_of(end.output)
        }),
    decreases code.len() - m.pc,
{
    if m.pc + STRIDE <= code.len() {
        let instruction = code.subrange(m.pc as int, m.pc + STRIDE);
        let fetched = Machine { pc: m.pc + STRIDE as nat, ..m };
        match perform(fetched, decode_instruction(instruction)) {
            Err(_) => {},
            Ok(next) => {
                lemma_run_keeps_shape(next, code);
            },
        }
    }
}

/// The register files of a report, each as a sequence.
pub open spec fn files(output: Seq<[u64; 64]>) -> Seq<Seq<u64>> {
    output.map_values(|file: [u64; 64]| file@)
}

/// A register machine.
pub struct Processor {
    registers: [u64; 64],
    program: Vec<u8>,
    pc: usize,
    cond: bool,
    output: Vec<[u64; 64]>,
}

impl View for Processor {
    type V = Machine;

    closed spec fn view(&self) -> Machine {
        Machine {
            registers: self.registers@,
            pc: self.pc as nat,
            cond: self.cond,
            output: files(self.output@),
        }
    }
}

impl Processor {
    /// The program that the processor was made with.
    pub closed spec fn loaded(self) -> Seq<u8> {
        self.program@
    }

    /// A processor that holds `program` and has not run yet.
    pub fn new(program: Vec<u8>) -> (processor: Processor)
        ensures
            processor.loaded() == program@,
            processor@ == fresh(),
    {
        let processor = Processor {
            registers: [0; 64],
            program,
            pc: 0,
            cond: false,
            output: Vec::new(),
        };
        assert(processor@.registers =~= Seq::new(REGISTERS as nat, |i: int| 0u64));
        assert(processor@.output =~= Seq::empty());
        processor
    }

    /// The registers.
    pub fn registers(&self) -> (registers: &[u64; 64])
        ensures
            registers@ == self@.registers,
    {
        &self.registers
    }

    /// How many bytes of the program the last run consumed.
    pub fn pc(&self) -> (pc: usize)
        ensures
            pc == self@.pc,
    {
        self.pc
    }

    /// The condition flag.
    pub fn cond(&self) -> (cond: bool)
        ensures
            cond == self@.cond,
    {
        self.cond
    }

    /// The program that the processor was made with.
    pub fn program(&self) -> (program: &Vec<u8>)
        ensures
            program@ == self.loaded(),
    {
        &self.program
    }

    /// The register files that were reported and not yet taken, oldest
    /// first.
    pub fn output(&self) -> (output: &Vec<[u64; 64]>)
        ensures
            files(output@) == self@.output,
    {
        &self.output
    }

    /// Hands out the register files that were reported and keeps none.
    pub fn take_output(&mut self) -> (output: Vec<[u64; 64]>)
        ensures
            files(output@) == old(self)@.output,
            final(self)@ == (Machine { output: Seq::empty(), ..old(self)@ }),
            final(self).loaded() == old(self).loaded(),
    {
        let mut output: Vec<[u64; 64]> = Vec::new();
        core::mem::swap(&mut output, &mut self.output);
        assert(self@.output =~= Seq::empty());
        output
    }

    /// The value of register `number`, if the machine has that register.
    pub fn register(&self, number: u8) -> (value: errors::Result<u64>)
        ensures
            match value {
                Ok(value) => number < REGISTERS && value == self@.registers[number as int],
                Err(e) => number >= REGISTERS && e@ == ErrorView::Index(number),
            },
    {
        if (number as usize) < REGISTERS {
            Ok(self.registers[number as usize])
        } else {
            Err(Error::Index(number))
        }
    }

    /// Puts `value` into register `number`, if the machine has that
    /// register, and changes nothing if it has not.
    pub fn set_register(&mut self, number: u8, value: u64) -> (done: errors::Result<()>)
        ensures
            final(self).loaded() == old(self).loaded(),
            match done {
                Ok(()) => number < REGISTERS && final(self)@ == (Machine {
                    registers: old(self)@.registers.update(number as int, value),
                    ..old(self)@
                }),
                Err(e) => number >= REGISTERS && e@ == ErrorView::Index(number) && final(self)@
                    == old(self)@,
            },
    {
        if (number as usize) < REGISTERS {
            self.registers[number as usize] = value;
            Ok(())
        } else {
            Err(Error::Index(number))
        }
    }

    /// Executes one instruction: `op` with the six bytes `args` behind it.
    /// An instruction that fails changes nothing.
    pub fn exec(&mut self, op: Op, args: [u8; 6]) -> (done: errors::Result<()>)
        ensures
            final(self).loaded() == old(self).loaded(),
            match execute(old(self)@, op, args@) {
                Ok(next) => done is Ok && final(self)@ == next,
                Err(e) => outcome(done) == Err::<(), ErrorView>(e) && final(self)@ == old(self)@,
            },
    {
        match op {
            Op::HLT => Err(Error::Halt),
            Op::IGL => Err(Error::Illegal),
            Op::Reg => {
                let file = self.registers;
                self.output.push(file);
                assert(self@.output =~= old(self)@.output.push(old(self)@.registers));
                Ok(())
            },
            Op::SET => {
                let dest = args[0];
                let val = Self::take_32(&args[2..6]) as u64;
                self.set_register(dest, val)
            },
            Op::Add => {
                let a = args[0];
                let b = args[1];
                let dest = args[2];
                let x = self.register(a)?;
                let y = self.register(b)?;
                self.set_register(dest, x.wrapping_add(y))
            },
            Op::Sub => {
                let a = args[0];
                let b = args[1];
                let dest = args[2];
                let x = self.register(a)?;
                let y = self.register(b)?;
                self.set_register(dest, x.wrapping_sub(y))
            },
        }
    }

    /// Runs `program` from its first byte until it is consumed or an
    /// instruction fails. The registers and what was reported before are
    /// kept; what the program reports is added.
    pub fn run_code(&mut self, program: &[u8]) -> (done: errors::Result<()>)
        requires
            program@.len() % STRIDE as nat == 0,
        ensures
            final(self).loaded() == old(self).loaded(),
            (final(self)@, outcome(done)) == run(rewound(old(self)@), program@),
    {
        self.pc = 0;
        while self.pc < program.len()
            invariant
                program@.len() % STRIDE as nat == 0,
                self.pc % STRIDE == 0,
                self.pc <= program@.len(),
                self.loaded() == old(self).loaded(),
                run(self@, program@) == run(rewound(old(self)@), program@),
            decreases program@.len() - self.pc,
        {
            let pc = self.pc;
            let two = Self::take_16(&program[pc..pc + 2]);
            let op = Op::from(two);
            self.pc += 2;
            let buf = &program[pc + 2..pc + 8];
            let args = [buf[0], buf[1], buf[2], buf[3], buf[4], buf[5]];
            self.pc += 6;
            match self.exec(op, args) {
                Ok(()) => {},
                Err(e) => {
                    return Err(e);
                },
            }
        }
        Ok(())
    }

    /// Runs the program that the processor was made with.
    pub fn run_to_completion(&mut self) -> (done: errors::Result<()>)
        requires
            old(self).loaded().len() % STRIDE as nat == 0,
        ensures
            final(self).loaded() == old(self).loaded(),
            (final(self)@, outcome(done)) == run(rewound(old(self)@), old(self).loaded()),
    {
        let prog = self.program.clone();
        self.run_code(&prog)
    }

    /// Reads two bytes as a number, high byte first.
    pub fn take_16(buf: &[u8]) -> (number: u16)
        requires
            buf@.len() >= 2,
        ensures
            number == word16(buf@),
    {
        let high = buf[0];
        let low = buf[1];
        let data = (high as u16) << 8;
        assert(((high as u16) << 8) | (low as u16) == high * 0x100 + low) by (bit_vector);
        data | (low as u16)
    }

    /// Reads four bytes as a number, most significant byte first.
    pub fn take_32(buf: &[u8]) -> (number: u32)
        requires
            buf@.len() >= 4,
        ensures
            number == word32(buf@),
    {
        let high = Self::take_16(buf);
        let low = Self::take_16(&buf[2..4]);
        let data = (high as u32) << 16;
        assert(((high as u32) << 16) | (low as u32) == high * 0x1_0000 + low) by (bit_vector);
        data | (low as u32)
    }

    /// Reads eight bytes as a number, most significant byte first.
    pub fn take_64(buf: &[u8]) -> (number: u64)
        requires
            buf@.len() >= 8,
        ensures
            number == word64(buf@),
    {
        let high = Self::take_32(&buf[0..4]);
        let low = Self::take_32(&buf[4..8]);
        let data = (high as u64) << 32;
        assert(((high as u64) << 32) | (low as u64) == high * 0x1_0000_0000 + low) by (bit_vector);
        data | (low as u64)
    }
}

} // verus!
