//! The assembler: from source text to statements, from statements to bytes.
//!
//! [`parse`] splits a text into statements and never fails: it looks at no
//! operand. [`translate`] packs the statements into a stream of instructions
//! of eight bytes each, and fails on the first operand that is not the number
//! it has to be.

pub mod number;
pub mod op;
pub mod text;

pub use op::Op;

use crate::errors;
use crate::errors::{Error, ErrorView, Fault, ParseError, ParseErrorView};
use number::{parse_u32, parse_u8, parse_unsigned};
use op::{code_of, decode_mnemonic};
use text::{chars_of, line_end, lines, split_words, texts, trim_bounds, trimmed, words};
use vstd::prelude::*;

verus! {

/// The number of bytes that every instruction occupies in a stream.
pub const STRIDE: usize = 8;

/// One statement of a program: an opcode and the operands as they were
/// written. The operands are not looked at before the statement is encoded.
#[derive(Clone, Debug, PartialEq, Eq)]
pub struct Operation {
    tag: Option<String>,
    code: Op,
    args: Vec<String>,
}

/// An [`Operation`] as contracts speak of it.
pub struct OperationView {
    /// A label; no statement has one yet.
    pub tag: Option<Seq<char>>,
    /// The opcode.
    pub code: Op,
    /// The operands, as written.
    pub args: Seq<Seq<char>>,
}

impl View for Operation {
    type V = OperationView;

    closed spec fn view(&self) -> OperationView {
        OperationView {
            tag: match self.tag {
                Some(tag) => Some(tag@),
                None => None,
            },
            code: self.code,
            args: texts(self.args@),
        }
    }
}

/// The views of a sequence of statements.
pub open spec fn operations(ops: Seq<Operation>) -> Seq<OperationView> {
    ops.map_values(|op: Operation| op@)
}

impl Operation {
    /// A statement without a label.
    pub fn new(code: Op, args: Vec<String>) -> (operation: Operation)
        ensures
            operation@ == (OperationView { tag: None, code, args: texts(args@) }),
    {
        Operation { tag: None, code, args }
    }

    /// The label, if the statement has one.
    pub fn tag(&self) -> (tag: Option<&String>)
        ensures
            match tag {
                Some(tag) => self@.tag == Some(tag@),
                None => self@.tag is None,
            },
    {
        self.tag.as_ref()
    }

    /// The opcode.
    pub fn code(&self) -> (code: Op)
        ensures
            code == self@.code,
    {
        self.code
    }

    /// The operands, as written.
    pub fn args(&self) -> (args: &Vec<String>)
        ensures
            texts(args@) == self@.args,
    {
        &self.args
    }
}

/// The statement that a line with these words makes: the first word is the
/// mnemonic, the others are the operands.
pub open spec fn statement(words: Seq<Seq<char>>) -> OperationView
    recommends
        words.len() > 0,
{
    OperationView { tag: None, code: decode_mnemonic(words[0]), args: words.skip(1) }
}

/// The statements that a sequence of lines makes, in order. A line without a
/// word makes none.
pub open spec fn statements(lines: Seq<Seq<char>>) -> Seq<OperationView>
    decreases lines.len(),
{
    if lines.len() == 0 {
        Seq::empty()
    } else {
        let before = statements(lines.drop_last());
        let found = words(lines.last());
        if found.len() == 0 {
            before
        } else {
            before.push(statement(found))
        }
    }
}

/// The statements of a source text: those of the lines of the text, once
/// it is trimmed.
pub open spec fn program(text: Seq<char>) -> Seq<OperationView> {
    statements(lines(trimmed(text)))
}

/// Splits a source text into its statements: the text is trimmed and cut
/// into lines, each line into words; a line without a word is skipped, and
/// of the others the first word is the mnemonic and the rest are operands.
/// Every text has statements: an unknown mnemonic stands for the illegal
/// instruction, and operands are taken as they are.
pub fn parse(s: &str) -> (parsed: errors::Result<Vec<Operation>>)
    ensures
        parsed matches Ok(ops) && operations(ops@) == program(s@),
{
    let chars = chars_of(s);
    let (lo, hi) = trim_bounds(&chars);
    let ghost body = trimmed(s@);
    let mut ops: Vec<Operation> = Vec::new();
    let mut start: usize = lo;
    let ghost mut done: Seq<Seq<char>> = Seq::empty();
    assert(body.skip(0) =~= body);
    while start < hi
        invariant
            lo <= start <= hi <= chars.len(),
            body == chars@.subrange(lo as int, hi as int),
            lines(body) == done + lines(body.skip(start - lo)),
            operations(ops@) == statements(done),
        decreases hi - start,
    {
        let ghost rest = body.skip(start - lo);
        assert(rest =~= chars@.subrange(start as int, hi as int));
        let end = line_end(&chars, start, hi);
        let mut found = split_words(&chars, start, end);
        let ghost line = rest.take(end - start);
        proof {
            assert(line =~= chars@.subrange(start as int, end as int));
            assert(done.push(line).drop_last() =~= done);
            if end < hi {
                assert(rest.skip(end - start + 1) =~= body.skip(end + 1 - lo));
                assert(done + (seq![line] + lines(body.skip(end + 1 - lo))) =~= done.push(line)
                    + lines(body.skip(end + 1 - lo)));
            }
        }
        if found.len() > 0 {
            let code = Op::from(found[0].as_str());
            let args = found.split_off(1);
            proof {
                assert(texts(args@) =~= words(line).skip(1));
                assert(operations(ops@.push(Operation { tag: None, code, args })) =~= operations(
                    ops@,
                ).push(statement(words(line))));
            }
            ops.push(Operation { tag: None, code, args });
        }
        proof {
            done = done.push(line);
        }
        start = if end < hi { end + 1 } else { hi };
    }
    Ok(ops)
}

/// What a statement asks of the machine, once its operands are read as
/// numbers.
pub enum Command {
    /// Stop.
    Halt,
    /// Fail: this is what a statement with an unknown mnemonic asks for.
    Illegal,
    /// Report the registers.
    Report,
    /// Put `value` into register `dest`.
    Load { dest: u8, value: u32 },
    /// Put the sum of registers `a` and `b` into register `dest`.
    Add { a: u8, b: u8, dest: u8 },
    /// Put the difference of registers `a` and `b` into register `dest`.
    Sub { a: u8, b: u8, dest: u8 },
}

/// The operand at place `index` of the statement at place `at`, read as a
/// number that is at most `max`. A statement that is too short has no token
/// there, and that is an error like any other.
pub open spec fn operand(op: OperationView, index: nat, max: nat, at: nat) -> Result<
    nat,
    ParseErrorView,
> {
    if index < op.args.len() {
        match parse_unsigned(op.args[index as int], max) {
            Ok(value) => Ok(value),
            Err(fault) => Err(
                ParseErrorView { token: op.args[index as int], fault, operation: at, argument: index },
            ),
        }
    } else {
        Err(
            ParseErrorView {
                token: Seq::empty(),
                fault: Fault::Missing,
                operation: at,
                argument: index,
            },
        )
    }
}

/// The three register numbers of the statement at place `at`, or what is
/// wrong with the first of them that is not a number of eight bits.
pub open spec fn three_registers(op: OperationView, at: nat) -> Result<
    (u8, u8, u8),
    ParseErrorView,
> {
    match operand(op, 0, u8::MAX as nat, at) {
        Err(e) => Err(e),
        Ok(a) => match operand(op, 1, u8::MAX as nat, at) {
            Err(e) => Err(e),
            Ok(b) => match operand(op, 2, u8::MAX as nat, at) {
                Err(e) => Err(e),
                Ok(dest) => Ok((a as u8, b as u8, dest as u8)),
            },
        },
    }
}

/// The command of the statement at place `at`, or what is wrong with the
/// first of its operands that is not as it has to be.
///
/// `HLT`, `REG` and an unknown mnemonic take no operand; `SET` takes a
/// register number of eight bits and a value of thirty-two; `ADD` and `SUB`
/// take three register numbers: the two to combine, then the destination.
/// Operands beyond those that the opcode takes are ignored.
pub open spec fn command(op: OperationView, at: nat) -> Result<Command, ParseErrorView> {
    match op.code {
        Op::HLT => Ok(Command::Halt),
        Op::IGL => Ok(Command::Illegal),
        Op::Reg => Ok(Command::Report),
        Op::SET => match operand(op, 0, u8::MAX as nat, at) {
            Err(e) => Err(e),
            Ok(dest) => match operand(op, 1, u32::MAX as nat, at) {
                Err(e) => Err(e),
                Ok(value) => Ok(Command::Load { dest: dest as u8, value: value as u32 }),
            },
        },
        Op::Add => match three_registers(op, at) {
            Err(e) => Err(e),
            Ok((a, b, dest)) => Ok(Command::Add { a, b, dest }),
        },
        Op::Sub => match three_registers(op, at) {
            Err(e) => Err(e),
            Ok((a, b, dest)) => Ok(Command::Sub { a, b, dest }),
        },
    }
}

/// The commands of a sequence of statements, or the error of the first
/// statement that has one.
pub open spec fn commands(ops: Seq<OperationView>) -> Result<Seq<Command>, ParseErrorView>
    decreases ops.len(),
{
    if ops.len() == 0 {
        Ok(Seq::empty())
    } else {
        match commands(ops.drop_last()) {
            Err(e) => Err(e),
            Ok(before) => match command(ops.last(), (ops.len() - 1) as nat) {
                Err(e) => Err(e),
                Ok(last) => Ok(before.push(last)),
            },
        }
    }
}

/// The opcode under which a command is encoded.
pub open spec fn opcode(command: Command) -> Op {
    match command {
        Command::Halt => Op::HLT,
        Command::Illegal => Op::IGL,
        Command::Report => Op::Reg,
        Command::Load { .. } => Op::SET,
        Command::Add { .. } => Op::Add,
        Command::Sub { .. } => Op::Sub,
    }
}

/// The two bytes of a 16-bit code, high byte first.
pub open spec fn code_bytes(code: u16) -> Seq<u8> {
    seq![(code / 256) as u8, (code % 256) as u8]
}

/// The four bytes of a 32-bit value, most significant byte first.
pub open spec fn value_bytes(value: u32) -> Seq<u8> {
    seq![
        (value / 0x100_0000) as u8,
        (value / 0x1_0000 % 256) as u8,
        (value / 0x100 % 256) as u8,
        (value % 256) as u8,
    ]
}

/// `n` bytes that are zero.
pub open spec fn zeros(n: nat) -> Seq<u8> {
    Seq::new(n, |i: int| 0u8)
}

/// The six bytes that stand behind the opcode of a command.
///
/// A command without operands leaves them all zero. `SET` has its register
/// in the first and its value in the last four. `ADD` and `SUB` have their
/// three registers in the first three.
pub open spec fn operand_bytes(command: Command) -> Seq<u8> {
    match command {
        Command::Halt | Command::Illegal | Command::Report => zeros(6),
        Command::Load { dest, value } => seq![dest, 0u8] + value_bytes(value),
        Command::Add { a, b, dest } | Command::Sub { a, b, dest } => seq![a, b, dest] + zeros(3),
    }
}

/// The instruction of a command: the code of its opcode in the first two
/// bytes, its operands in the other six.
pub open spec fn instruction(command: Command) -> Seq<u8> {
    code_bytes(code_of(opcode(command))) + operand_bytes(command)
}

/// The instructions of a sequence of commands, one after the other.
pub open spec fn stream(commands: Seq<Command>) -> Seq<u8>
    decreases commands.len(),
{
    if commands.len() == 0 {
        Seq::empty()
    } else {
        stream(commands.drop_last()) + instruction(commands.last())
    }
}

/// The stream for a sequence of statements: the instructions of their
/// commands, or the error of the first statement that has one.
pub open spec fn encode(ops: Seq<OperationView>) -> Result<Seq<u8>, ParseErrorView> {
    match commands(ops) {
        Ok(commands) => Ok(stream(commands)),
        Err(e) => Err(e),
    }
}

/// An instruction is eight bytes long, whatever its command.
pub proof fn lemma_instruction_len(command: Command)
    ensures
        instruction(command).len() == STRIDE,
{
}

/// The stream of `n` commands is `8 * n` bytes long, and the instruction of
/// the command at place `i` stands at byte `8 * i`.
pub proof fn lemma_stream_layout(commands: Seq<Command>)
    ensures
        stream(commands).len() == STRIDE * commands.len(),
        forall|i: int|
            0 <= i < commands.len() ==> #[trigger] stream(commands).subrange(
                STRIDE * i,
                STRIDE * i + STRIDE,
            ) == instruction(commands[i]),
    decreases commands.len(),
{
    if commands.len() > 0 {
        let before = commands.drop_last();
        lemma_stream_layout(before);
        lemma_instruction_len(commands.last());
        assert forall|i: int| 0 <= i < commands.len() implies #[trigger] stream(commands).subrange(
            STRIDE * i,
            STRIDE * i + STRIDE,
        ) == instruction(commands[i]) by {
            if i < before.len() {
                assert(stream(before).subrange(STRIDE * i, STRIDE * i + STRIDE) == instruction(
                    before[i],
                ));
                assert(stream(commands).subrange(STRIDE * i, STRIDE * i + STRIDE) =~= stream(
                    before,
                ).subrange(STRIDE * i, STRIDE * i + STRIDE));
            } else {
                assert(stream(commands).subrange(STRIDE * i, STRIDE * i + STRIDE) =~= instruction(
                    commands.last(),
                ));
            }
        }
    }
}

/// Statements that can be encoded have one command each, in their order.
pub proof fn lemma_commands_each(ops: Seq<OperationView>)
    requires
        commands(ops) is Ok,
    ensures
        commands(ops)->Ok_0.len() == ops.len(),
        forall|i: int|
            0 <= i < ops.len() ==> command(#[trigger] ops[i], i as nat) == Ok::<
                Command,
                ParseErrorView,
            >(commands(ops)->Ok_0[i]),
    decreases ops.len(),
{
    if ops.len() > 0 {
        let before = ops.drop_last();
        lemma_commands_each(before);
        assert forall|i: int| 0 <= i < ops.len() implies command(#[trigger] ops[i], i as nat)
            == Ok::<Command, ParseErrorView>(commands(ops)->Ok_0[i]) by {
            if i < before.len() {
                assert(ops[i] == before[i]);
            }
        }
    }
}

/// The stream of `n` statements is `8 * n` bytes long.
pub proof fn lemma_encoded_len(ops: Seq<OperationView>)
    ensures
        encode(ops) matches Ok(bytes) ==> bytes.len() == STRIDE * ops.len(),
{
    if commands(ops) is Ok {
        lemma_commands_each(ops);
        lemma_stream_layout(commands(ops)->Ok_0);
    }
}

/// When the first statements of a sequence cannot be encoded, the sequence
/// cannot, and for the same reason.
pub proof fn lemma_commands_fail_early(ops: Seq<OperationView>, n: int)
    requires
        0 <= n <= ops.len(),
        commands(ops.take(n)) is Err,
    ensures
        commands(ops) == commands(ops.take(n)),
    decreases ops.len() - n,
{
    if n < ops.len() {
        assert(ops.drop_last().take(n) =~= ops.take(n));
        lemma_commands_fail_early(ops.drop_last(), n);
    } else {
        assert(ops.take(n) =~= ops);
    }
}

/// Appends the first `count` bytes of `new` to `program` and fills the
/// instruction up with zeros.
pub fn pack(program: &mut Vec<u8>, new: &[u8], count: usize)
    requires
        count <= STRIDE,
        count <= new@.len(),
    ensures
        final(program)@ == old(program)@ + new@.take(count as int) + zeros((STRIDE - count) as nat),
{
    let zero: [u8; 8] = [0; 8];
    let remainder = 8 - count;
    program.extend_from_slice(&new[0..count]);
    program.extend_from_slice(&zero[0..remainder]);
}

/// Reads the operand at place `index` of `operation`, the statement at place
/// `at`, as a number of eight bits.
fn operand_u8(operation: &Operation, index: usize, at: usize) -> (read: Result<u8, ParseError>)
    ensures
        match read {
            Ok(value) => operand(operation@, index as nat, u8::MAX as nat, at as nat) == Ok::<
                nat,
                ParseErrorView,
            >(value as nat),
            Err(e) => operand(operation@, index as nat, u8::MAX as nat, at as nat) == Err::<
                nat,
                ParseErrorView,
            >(e@),
        },
{
    if index < operation.args.len() {
        match parse_u8(operation.args[index].as_str()) {
            Ok(value) => Ok(value),
            Err(fault) => Err(
                ParseError {
                    token: operation.args[index].clone(),
                    fault,
                    operation: at,
                    argument: index,
                },
            ),
        }
    } else {
        Err(ParseError { token: String::new(), fault: Fault::Missing, operation: at, argument: index })
    }
}

/// Reads the operand at place `index` of `operation`, the statement at place
/// `at`, as a number of thirty-two bits.
fn operand_u32(operation: &Operation, index: usize, at: usize) -> (read: Result<u32, ParseError>)
    ensures
        match read {
            Ok(value) => operand(operation@, index as nat, u32::MAX as nat, at as nat) == Ok::<
                nat,
                ParseErrorView,
            >(value as nat),
            Err(e) => operand(operation@, index as nat, u32::MAX as nat, at as nat) == Err::<
                nat,
                ParseErrorView,
            >(e@),
        },
{
    if index < operation.args.len() {
        match parse_u32(operation.args[index].as_str()) {
            Ok(value) => Ok(value),
            Err(fault) => Err(
                ParseError {
                    token: operation.args[index].clone(),
                    fault,
                    operation: at,
                    argument: index,
                },
            ),
        }
    } else {
        Err(ParseError { token: String::new(), fault: Fault::Missing, operation: at, argument: index })
    }
}

/// Appends the instruction for `operation`, the statement at place `at`, to
/// `program`; leaves `program` as it is where an operand is wrong.
fn translate_one(program: &mut Vec<u8>, operation: &Operation, at: usize) -> (done: Result<
    (),
    ParseError,
>)
    ensures
        match done {
            Ok(()) => command(operation@, at as nat) matches Ok(c) && final(program)@ == old(
                program,
            )@ + instruction(c),
            Err(e) => command(operation@, at as nat) == Err::<Command, ParseErrorView>(e@)
                && final(program)@ == old(program)@,
        },
{
    let mut buf: [u8; 8] = [0; 8];
    let parts = operation.code.to_parts();
    buf[0] = parts[0];
    buf[1] = parts[1];
    match operation.code {
        Op::SET => {
            let dest = match operand_u8(operation, 0, at) {
                Ok(dest) => dest,
                Err(e) => {
                    return Err(e);
                },
            };
            let val = match operand_u32(operation, 1, at) {
                Ok(val) => val,
                Err(e) => {
                    return Err(e);
                },
            };
            buf[2] = dest;
            buf[4] = (val >> 24) as u8;
            buf[5] = ((val >> 16) & 0xff) as u8;
            buf[6] = ((val >> 8) & 0xff) as u8;
            buf[7] = (val & 0xff) as u8;
            proof {
                assert(val >> 24 == val / 0x100_0000) by (bit_vector);
                assert((val >> 16) & 0xff == val / 0x1_0000 % 256) by (bit_vector);
                assert((val >> 8) & 0xff == val / 0x100 % 256) by (bit_vector);
                assert(val & 0xff == val % 256) by (bit_vector);
            }
            pack(program, &buf, 8);
        },
        Op::Add | Op::Sub => {
            let a = match operand_u8(operation, 0, at) {
                Ok(a) => a,
                Err(e) => {
                    return Err(e);
                },
            };
            let b = match operand_u8(operation, 1, at) {
                Ok(b) => b,
                Err(e) => {
                    return Err(e);
                },
            };
            let c = match operand_u8(operation, 2, at) {
                Ok(c) => c,
                Err(e) => {
                    return Err(e);
                },
            };
            buf[2] = a;
            buf[3] = b;
            buf[4] = c;
            pack(program, &buf, 5);
        },
        Op::HLT | Op::Reg | Op::IGL => {
            pack(program, &buf, 2);
        },
    }
    Ok(())
}

/// Packs statements into a stream of instructions.
///
/// Fails on the first operand, in the order of the statements and of their
/// operands, that is missing or is not a number of the width it has to be,
/// and then gives no stream at all.
pub fn translate(ops: &[Operation]) -> (translated: errors::Result<Vec<u8>>)
    ensures
        match translated {
            Ok(bytes) => encode(operations(ops@)) == Ok::<Seq<u8>, ParseErrorView>(bytes@)
                && bytes@.len() == STRIDE * ops@.len(),
            Err(error) => encode(operations(ops@)) matches Err(e) && error@ == ErrorView::Parse(e),
        },
{
    let mut prog: Vec<u8> = Vec::new();
    let ghost all = operations(ops@);
    for i in 0..ops.len()
        invariant
            all == operations(ops@),
            commands(all.take(i as int)) matches Ok(asked) && prog@ == stream(asked),
    {
        proof {
            assert(all.take(i + 1).drop_last() =~= all.take(i as int));
        }
        match translate_one(&mut prog, &ops[i], i) {
            Ok(()) => {
                proof {
                    let before = commands(all.take(i as int))->Ok_0;
                    let asked = command(ops@[i as int]@, i as nat)->Ok_0;
                    assert(before.push(asked).drop_last() =~= before);
                }
            },
            Err(e) => {
                proof {
                    lemma_commands_fail_early(all, i + 1);
                }
                return Err(Error::Parse(e));
            },
        }
    }
    proof {
        assert(all.take(ops@.len() as int) =~= all);
        lemma_encoded_len(all);
    }
    Ok(prog)
}

} // verus!
