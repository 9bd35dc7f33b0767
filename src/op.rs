use vstd::prelude::*;
use crate::register::Register;

verus! {

/// One decoded instruction with its operands.
#[derive(Clone, Copy, Debug, PartialEq, Eq, Structural)]
pub enum Op {
    Nop,
    /// Push an immediate; the encoding carries its low 8 bits only.
    Push(u16),
    /// Pop a word into a register.
    PopRegister(Register),
    /// Pop two words, push their sum.
    AddStack,
    /// Add the second register into the first.
    AddRegister(Register, Register),
    /// Invoke the handler registered for an 8-bit code.
    Signal(u8),
}

/// Why a 16-bit word is not an instruction.
#[derive(Clone, Copy, Debug, PartialEq, Eq, Structural)]
pub enum DecodeError {
    /// The low byte of `word` is not an opcode.
    UnknownOpcode { opcode: u8, word: u16 },
    /// A register field of `word` holds `index`, which names no register.
    InvalidRegister { index: u8, word: u16 },
}

/// The opcode of an instruction word: its low byte.
pub open spec fn opcode_of(w: u16) -> u8 {
    (w % 256) as u8
}

/// The operand byte of an instruction word: its high byte.
pub open spec fn operand_of(w: u16) -> u8 {
    (w / 256) as u8
}

/// The instruction that the word `w` encodes.
pub open spec fn decode_word(w: u16) -> Result<Op, DecodeError> {
    let opcode = opcode_of(w);
    let arg = operand_of(w);
    if opcode == 0 {
        Ok(Op::Nop)
    } else if opcode == 1 {
        Ok(Op::Push(arg as u16))
    } else if opcode == 2 {
        match Register::with_slot(arg as int) {
            Some(r) => Ok(Op::PopRegister(r)),
            None => Err(DecodeError::InvalidRegister { index: arg, word: w }),
        }
    } else if opcode == 3 {
        Ok(Op::AddStack)
    } else if opcode == 4 {
        let i1 = (arg % 16) as u8;
        let i2 = (arg / 16) as u8;
        match (Register::with_slot(i1 as int), Register::with_slot(i2 as int)) {
            (Some(r1), Some(r2)) => Ok(Op::AddRegister(r1, r2)),
            (None, _) => Err(DecodeError::InvalidRegister { index: i1, word: w }),
            (Some(_), None) => Err(DecodeError::InvalidRegister { index: i2, word: w }),
        }
    } else if opcode == 5 {
        Ok(Op::Signal(arg))
    } else {
        Err(DecodeError::UnknownOpcode { opcode, word: w })
    }
}

/// The word that encodes `op`.
pub open spec fn encode_op(op: Op) -> u16 {
    match op {
        Op::Nop => 0,
        Op::Push(v) => (1 + (v % 256) * 256) as u16,
        Op::PopRegister(r) => (2 + r.slot() * 256) as u16,
        Op::AddStack => 3,
        Op::AddRegister(r1, r2) => (4 + r1.slot() * 256 + r2.slot() * 4096) as u16,
        Op::Signal(c) => (5 + c * 256) as u16,
    }
}

/// The operands of `op` fit the widths that its encoding carries.
pub open spec fn operands_fit(op: Op) -> bool {
    match op {
        Op::Push(v) => v < 256,
        _ => true,
    }
}

/// Decoding the encoding of an instruction gives the instruction back,
/// provided its operands fit the widths that the encoding carries.
pub proof fn lemma_decode_encode(op: Op)
    requires
        operands_fit(op),
    ensures
        decode_word(encode_op(op)) == Ok::<Op, DecodeError>(op),
{
    match op {
        Op::Nop => {},
        Op::Push(v) => {},
        Op::PopRegister(r) => {},
        Op::AddStack => {},
        Op::AddRegister(r1, r2) => {
            let w = encode_op(op);
            assert(operand_of(w) == r1.slot() + 16 * r2.slot());
        },
        Op::Signal(c) => {},
    }
}

/// A word whose low byte is no opcode fails to decode, with an error that
/// names that byte and the word.
pub proof fn lemma_unknown_opcode(w: u16)
    requires
        opcode_of(w) > 5,
    ensures
        decode_word(w) == Err::<Op, DecodeError>(
            DecodeError::UnknownOpcode { opcode: opcode_of(w), word: w },
        ),
{
}

/// An instruction's encoding keeps only the low 8 bits of a `Push` immediate,
/// in both directions alike.
pub proof fn lemma_push_truncates(v: u16)
    ensures
        decode_word(encode_op(Op::Push(v))) == Ok::<Op, DecodeError>(Op::Push(v % 256)),
{
}

/// A word that decodes is the encoding of what it decodes to, unless it is a
/// `Nop` or `AddStack` with a nonzero high byte, which those two ignore.
pub proof fn lemma_encode_decode(w: u16)
    requires
        decode_word(w) is Ok,
        opcode_of(w) == 0 || opcode_of(w) == 3 ==> operand_of(w) == 0,
    ensures
        encode_op(decode_word(w)->Ok_0) == w,
{
    let arg = operand_of(w);
    assert(w == opcode_of(w) + 256 * arg);
    if opcode_of(w) == 1 {
        assert(encode_op(Op::Push(arg as u16)) == w);
    } else if opcode_of(w) == 5 {
        assert(encode_op(Op::Signal(arg)) == w);
    } else if opcode_of(w) == 2 {
        let r = Register::with_slot(arg as int).unwrap();
        assert(r.slot() == arg);
        assert(encode_op(Op::PopRegister(r)) == w);
    } else if opcode_of(w) == 4 {
        let i1 = (arg % 16) as u8;
        let i2 = (arg / 16) as u8;
        assert(arg == i1 + 16 * i2);
        assert(Register::with_slot(i1 as int).unwrap().slot() == i1);
        assert(Register::with_slot(i2 as int).unwrap().slot() == i2);
        assert(encode_op(
            Op::AddRegister(Register::with_slot(i1 as int).unwrap(), Register::with_slot(i2 as int).unwrap()),
        ) == w);
    }
}

impl Op {
    fn encode_arg(arg: u16) -> (r: u16)
        ensures
            r == (arg % 256) * 256,
    {
        assert(arg << 8u16 == (arg % 256) * 256) by (bit_vector);
        arg << 8u16
    }

    fn encode_args(arg1: u16, arg2: u16) -> (r: u16)
        ensures
            r == (arg1 % 16) * 256 + (arg2 % 16) * 4096,
    {
        assert(((arg1 & 0x0f) << 8u16 | (arg2 & 0x0f) << 12u16) == (arg1 % 16) * 256 + (arg2 % 16)
            * 4096) by (bit_vector);
        (arg1 & 0x0f) << 8u16 | (arg2 & 0x0f) << 12u16
    }

    fn parse_args(ins: u16) -> (r: (u8, u8))
        ensures
            r.0 == operand_of(ins) % 16,
            r.1 == operand_of(ins) / 16,
    {
        assert(((ins & 0xf00) >> 8u16) as u8 == ((ins / 256) as u8) % 16) by (bit_vector);
        assert(((ins & 0xf000) >> 12u16) as u8 == ((ins / 256) as u8) / 16) by (bit_vector);
        (((ins & 0xf00) >> 8u16) as u8, ((ins & 0xf000) >> 12u16) as u8)
    }

    fn parse_arg(ins: u16) -> (r: u8)
        ensures
            r == operand_of(ins),
    {
        assert((ins >> 8u16) as u8 == (ins / 256) as u8) by (bit_vector);
        (ins >> 8u16) as u8
    }

    /// The instruction that `value` encodes: the low byte is the opcode, the
    /// high byte the operand (for `AddRegister`, two 4-bit register indices).
    pub fn decode(value: u16) -> (r: Result<Op, DecodeError>)
        ensures
            r == decode_word(value),
    {
        assert(value & 0xff == value % 256) by (bit_vector);
        let op = (value & 0xff) as u8;
        match op {
            0 => Ok(Op::Nop),
            1 => {
                let arg = Op::parse_arg(value);
                Ok(Op::Push(arg as u16))
            },
            2 => {
                let arg = Op::parse_arg(value);
                match Register::from_index(arg) {
                    Some(r) => Ok(Op::PopRegister(r)),
                    None => Err(DecodeError::InvalidRegister { index: arg, word: value }),
                }
            },
            3 => Ok(Op::AddStack),
            4 => {
                let (reg1, reg2) = Op::parse_args(value);
                let r1 = match Register::from_index(reg1) {
                    Some(r) => r,
                    None => {
                        return Err(DecodeError::InvalidRegister { index: reg1, word: value });
                    },
                };
                let r2 = match Register::from_index(reg2) {
                    Some(r) => r,
                    None => {
                        return Err(DecodeError::InvalidRegister { index: reg2, word: value });
                    },
                };
                Ok(Op::AddRegister(r1, r2))
            },
            5 => Ok(Op::Signal(Op::parse_arg(value))),
            _ => Err(DecodeError::UnknownOpcode { opcode: op, word: value }),
        }
    }

    /// The word that encodes this instruction; `Push` keeps the low 8 bits of
    /// its immediate.
    pub fn encode(&self) -> (r: u16)
        ensures
            r == encode_op(*self),
    {
        match *self {
            Op::Nop => 0,
            Op::Push(x) => {
                let a = Op::encode_arg(x);
                assert(1u16 | a == 1 + a) by (bit_vector)
                    requires
                        a == (x % 256) * 256,
                ;
                1 | a
            },
            Op::PopRegister(x) => {
                let i = x.index() as u16;
                let a = Op::encode_arg(i);
                assert(2u16 | a == 2 + a) by (bit_vector)
                    requires
                        a == (i % 256) * 256,
                ;
                2 | a
            },
            Op::AddStack => 3,
            Op::Signal(x) => {
                let a = Op::encode_arg(x as u16);
                assert(5u16 | a == 5 + a) by (bit_vector)
                    requires
                        a == ((x as u16) % 256) * 256,
                ;
                5 | a
            },
            Op::AddRegister(r1, r2) => {
                let i1 = r1.index() as u16;
                let i2 = r2.index() as u16;
                let a = Op::encode_args(i1, i2);
                assert(4u16 | a == 4 + a) by (bit_vector)
                    requires
                        a == (i1 % 16) * 256 + (i2 % 16) * 4096,
                ;
                4 | a
            },
        }
    }
}

impl TryFrom<u16> for Op {
    type Error = DecodeError;

    fn try_from(value: u16) -> (r: Result<Op, DecodeError>) {
        Op::decode(value)
    }
}

impl vstd::std_specs::convert::TryFromSpecImpl<u16> for Op {
    open spec fn obeys_try_from_spec() -> bool {
        true
    }

    open spec fn try_from_spec(v: u16) -> Result<Op, DecodeError> {
        decode_word(v)
    }
}

impl From<Op> for u16 {
    fn from(op: Op) -> (r: u16) {
        op.encode()
    }
}

impl vstd::std_specs::convert::FromSpecImpl<Op> for u16 {
    open spec fn obeys_from_spec() -> bool {
        true
    }

    open spec fn from_spec(op: Op) -> u16 {
        encode_op(op)
    }
}

} // verus!
