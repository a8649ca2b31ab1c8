//! The opcode table: every opcode has a 16-bit code and a mnemonic, and both
//! can be looked up in either direction. Lookups never fail: a code or a
//! mnemonic that the table does not hold stands for the illegal instruction.

use vstd::prelude::*;
use vstd::utf8::is_ascii_chars;

verus! {

/// The operations of the machine.
#[derive(Debug, Clone, Copy, PartialEq, Eq, Structural)]
pub enum Op {
    /// Stop the machine.
    HLT,
    /// The instruction that no program may execute.
    IGL,
    /// Add two registers into a third.
    Add,
    /// Subtract one register from another into a third.
    Sub,
    /// Load an immediate value into a register.
    SET,
    /// Report the register file.
    Reg,
}

/// The numeric code of an opcode.
pub open spec fn code_of(op: Op) -> u16 {
    match op {
        Op::HLT => 0,
        Op::Add => 1,
        Op::Sub => 2,
        Op::SET => 3,
        Op::IGL => 99,
        Op::Reg => 100,
    }
}

/// The opcode that a numeric code stands for.
pub open spec fn decode_numeric(code: u16) -> Op {
    if code == 0 {
        Op::HLT
    } else if code == 1 {
        Op::Add
    } else if code == 2 {
        Op::Sub
    } else if code == 3 {
        Op::SET
    } else if code == 100 {
        Op::Reg
    } else {
        Op::IGL
    }
}

/// The mnemonic of an opcode, in upper case.
pub open spec fn mnemonic_of(op: Op) -> Seq<char> {
    match op {
        Op::HLT => "HLT"@,
        Op::IGL => "IGL"@,
        Op::Add => "ADD"@,
        Op::Sub => "SUB"@,
        Op::SET => "SET"@,
        Op::Reg => "REG"@,
    }
}

/// The opcode whose mnemonic is exactly `text`; the illegal instruction if
/// there is none.
pub open spec fn decode_exact(text: Seq<char>) -> Op {
    if text == "HLT"@ {
        Op::HLT
    } else if text == "ADD"@ {
        Op::Add
    } else if text == "SUB"@ {
        Op::Sub
    } else if text == "SET"@ {
        Op::SET
    } else if text == "REG"@ {
        Op::Reg
    } else {
        Op::IGL
    }
}

/// The upper-case form of an ASCII character.
pub open spec fn ascii_upper(c: char) -> char {
    if 'a' <= c <= 'z' {
        ((c as u8) - 32) as char
    } else {
        c
    }
}

/// The upper-case form of an ASCII text: each of its letters in upper case,
/// everything else as it is.
pub open spec fn ascii_uppercase(text: Seq<char>) -> Seq<char> {
    text.map_values(|c: char| ascii_upper(c))
}

/// What `str::to_uppercase` makes of text that holds a character outside
/// ASCII.
pub uninterp spec fn unicode_uppercase(text: Seq<char>) -> Seq<char>;

/// The upper-case form of a text: ASCII text changes letter by letter, other
/// text as Unicode's case mapping has it.
pub open spec fn uppercase(text: Seq<char>) -> Seq<char> {
    if is_ascii_chars(text) {
        ascii_uppercase(text)
    } else {
        unicode_uppercase(text)
    }
}

/// The opcode that a mnemonic stands for, in whatever case it is written.
pub open spec fn decode_mnemonic(text: Seq<char>) -> Op {
    decode_exact(uppercase(text))
}

/// Calls `str::to_uppercase`. For ASCII text the result is stated: the
/// letters `a` to `z` become `A` to `Z` and nothing else changes. For other
/// text the result is only named.
#[verifier::external_body]
fn to_uppercase(text: &str) -> (upper: String)
    ensures
        upper@ == (if is_ascii_chars(text@) {
            ascii_uppercase(text@)
        } else {
            unicode_uppercase(text@)
        }),
{
    text.to_uppercase()
}

impl Op {
    /// The numeric code.
    pub fn code(&self) -> (code: u16)
        ensures
            code == code_of(*self),
    {
        match self {
            Op::HLT => 0,
            Op::Add => 1,
            Op::Sub => 2,
            Op::SET => 3,
            Op::IGL => 99,
            Op::Reg => 100,
        }
    }

    /// The numeric code as two bytes, high byte first.
    pub fn to_parts(&self) -> (parts: [u8; 2])
        ensures
            parts[0] == code_of(*self) / 256,
            parts[1] == code_of(*self) % 256,
    {
        match *self {
            Op::HLT => [0, 0],
            Op::Add => [0, 1],
            Op::Sub => [0, 2],
            Op::SET => [0, 3],
            Op::Reg => [0, 100],
            Op::IGL => [0, 99],
        }
    }

    /// The mnemonic, in upper case.
    pub fn mnemonic(&self) -> (text: &'static str)
        ensures
            text@ == mnemonic_of(*self),
    {
        match self {
            Op::HLT => "HLT",
            Op::IGL => "IGL",
            Op::Add => "ADD",
            Op::Sub => "SUB",
            Op::SET => "SET",
            Op::Reg => "REG",
        }
    }
}

impl From<u16> for Op {
    fn from(v: u16) -> (op: Op)
        ensures
            op == decode_numeric(v),
    {
        match v {
            0 => Op::HLT,
            1 => Op::Add,
            2 => Op::Sub,
            3 => Op::SET,
            100 => Op::Reg,
            _ => Op::IGL,
        }
    }
}

impl vstd::std_specs::convert::FromSpecImpl<u16> for Op {
    open spec fn obeys_from_spec() -> bool {
        true
    }

    open spec fn from_spec(v: u16) -> Op {
        decode_numeric(v)
    }
}

impl<'a> From<&'a str> for Op {
    fn from(v: &'a str) -> (op: Op)
        ensures
            op == decode_mnemonic(v@),
    {
        let upper = to_uppercase(v);
        if is_text(&upper, "HLT") {
            Op::HLT
        } else if is_text(&upper, "ADD") {
            Op::Add
        } else if is_text(&upper, "SUB") {
            Op::Sub
        } else if is_text(&upper, "SET") {
            Op::SET
        } else if is_text(&upper, "REG") {
            Op::Reg
        } else {
            Op::IGL
        }
    }
}

impl<'a> vstd::std_specs::convert::FromSpecImpl<&'a str> for Op {
    open spec fn obeys_from_spec() -> bool {
        true
    }

    open spec fn from_spec(v: &'a str) -> Op {
        decode_mnemonic(v@)
    }
}

/// Whether `text` reads exactly as `word`.
fn is_text(text: &String, word: &str) -> (same: bool)
    ensures
        same == (text@ == word@),
{
    let other = word.to_owned();
    *text == other
}

/// A mnemonic of the table is plain ASCII and already in upper case.
proof fn lemma_mnemonic_is_upper(op: Op)
    ensures
        mnemonic_of(op).len() == 3,
        is_ascii_chars(mnemonic_of(op)),
        uppercase(mnemonic_of(op)) == mnemonic_of(op),
{
    reveal_strlit("HLT");
    reveal_strlit("IGL");
    reveal_strlit("ADD");
    reveal_strlit("SUB");
    reveal_strlit("SET");
    reveal_strlit("REG");
}

/// Every opcode is found again from its numeric code and from its mnemonic.
pub proof fn lemma_opcode_round_trip(op: Op)
    ensures
        decode_numeric(code_of(op)) == op,
        decode_mnemonic(mnemonic_of(op)) == op,
{
    lemma_mnemonic_is_upper(op);
    reveal_strlit("HLT");
    reveal_strlit("IGL");
    reveal_strlit("ADD");
    reveal_strlit("SUB");
    reveal_strlit("SET");
    reveal_strlit("REG");
    assert("HLT"@[0] == 'H' && "IGL"@[0] == 'I' && "ADD"@[0] == 'A' && "REG"@[0] == 'R');
    assert("SET"@[0] == 'S' && "SET"@[1] == 'E');
}

/// A numeric code outside the table stands for the illegal instruction, and
/// a code that stands for any other opcode is that opcode's own code.
pub proof fn lemma_decode_numeric_total(code: u16)
    ensures
        decode_numeric(code) == Op::IGL <==> !(code == 0 || code == 1 || code == 2 || code == 3
            || code == 100),
        decode_numeric(code) != Op::IGL ==> code_of(decode_numeric(code)) == code,
{
}

/// Mnemonics are read without regard to case: ASCII text that differs from
/// a mnemonic of the table only in the case of its letters stands for that
/// mnemonic's opcode.
pub proof fn lemma_mnemonic_ignores_case(text: Seq<char>, op: Op)
    requires
        is_ascii_chars(text),
        ascii_uppercase(text) == mnemonic_of(op),
    ensures
        decode_mnemonic(text) == op,
{
    lemma_opcode_round_trip(op);
    lemma_mnemonic_is_upper(op);
}

} // verus!
