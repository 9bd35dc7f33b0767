use simplevm::op::{DecodeError, Op};
use simplevm::register::Register;
use simplevm::text::ParseError;

fn all_registers() -> Vec<Register> {
    vec![
        Register::A,
        Register::B,
        Register::C,
        Register::M,
        Register::SP,
        Register::PC,
        Register::BP,
        Register::Flags,
    ]
}

#[test]
fn round_trip_every_variant() {
    let mut ops = vec![Op::Nop, Op::AddStack, Op::Push(0), Op::Push(10), Op::Push(255)];
    for c in [0u8, 1, 0x7f, 0xf0, 0xff] {
        ops.push(Op::Signal(c));
    }
    for r in all_registers() {
        ops.push(Op::PopRegister(r));
        for r2 in all_registers() {
            ops.push(Op::AddRegister(r, r2));
        }
    }
    for op in ops {
        assert_eq!(Op::decode(op.encode()), Ok(op));
    }
}

#[test]
fn encodings_follow_the_bit_layout() {
    assert_eq!(Op::Nop.encode(), 0x0000);
    assert_eq!(Op::Push(10).encode(), 0x0a01);
    assert_eq!(Op::PopRegister(Register::C).encode(), 0x0202);
    assert_eq!(Op::AddStack.encode(), 0x0003);
    assert_eq!(Op::AddRegister(Register::A, Register::B).encode(), 0x1004);
    assert_eq!(Op::AddRegister(Register::Flags, Register::SP).encode(), 0x4704);
    assert_eq!(Op::Signal(0xf0).encode(), 0xf005);
}

#[test]
fn push_keeps_low_eight_bits() {
    assert_eq!(Op::Push(0x1234).encode(), 0x3401);
    assert_eq!(Op::decode(Op::Push(0x1234).encode()), Ok(Op::Push(0x34)));
}

#[test]
fn decode_known_words() {
    assert_eq!(Op::decode(0x0a01), Ok(Op::Push(10)));
    assert_eq!(Op::decode(0x0502), Ok(Op::PopRegister(Register::PC)));
    assert_eq!(Op::decode(0x0003), Ok(Op::AddStack));
    assert_eq!(Op::decode(0x2104), Ok(Op::AddRegister(Register::B, Register::C)));
    assert_eq!(Op::decode(0xf005), Ok(Op::Signal(0xf0)));
    assert_eq!(Op::decode(0x0000), Ok(Op::Nop));
}

#[test]
fn decode_rejects_unknown_opcode() {
    assert_eq!(
        Op::decode(0x1206),
        Err(DecodeError::UnknownOpcode { opcode: 6, word: 0x1206 })
    );
    assert_eq!(
        Op::decode(0x00ff),
        Err(DecodeError::UnknownOpcode { opcode: 0xff, word: 0x00ff })
    );
}

#[test]
fn decode_rejects_bad_register_fields() {
    assert_eq!(
        Op::decode(0x0802),
        Err(DecodeError::InvalidRegister { index: 8, word: 0x0802 })
    );
    assert_eq!(
        Op::decode(0x0904),
        Err(DecodeError::InvalidRegister { index: 9, word: 0x0904 })
    );
    assert_eq!(
        Op::decode(0x8004),
        Err(DecodeError::InvalidRegister { index: 8, word: 0x8004 })
    );
}

#[test]
fn register_indices_and_names() {
    for (i, r) in all_registers().into_iter().enumerate() {
        assert_eq!(r.index(), i);
        assert_eq!(Register::from_index(i as u8), Some(r));
    }
    assert_eq!(Register::from_index(8), None);
    assert_eq!(Register::from_name("SP"), Some(Register::SP));
    assert_eq!(Register::from_name("Flags"), Some(Register::Flags));
    assert_eq!(Register::from_name("flags"), None);
    assert_eq!(Register::from_name(""), None);
}

#[test]
fn numeric_literals() {
    assert_eq!(Op::parse_numeric("10"), Some(10));
    assert_eq!(Op::parse_numeric("$ff"), Some(255));
    assert_eq!(Op::parse_numeric("$F0"), Some(0xf0));
    assert_eq!(Op::parse_numeric("%101"), Some(5));
    assert_eq!(Op::parse_numeric("+7"), Some(7));
    assert_eq!(Op::parse_numeric("007"), Some(7));
    assert_eq!(Op::parse_numeric("256"), None);
    assert_eq!(Op::parse_numeric("$100"), None);
    assert_eq!(Op::parse_numeric("%102"), None);
    assert_eq!(Op::parse_numeric("$"), None);
    assert_eq!(Op::parse_numeric(""), None);
    assert_eq!(Op::parse_numeric("-1"), None);
    assert_eq!(Op::parse_numeric("1a"), None);
}

#[test]
fn parse_each_mnemonic() {
    assert_eq!(Op::parse("Push 10"), Ok(Op::Push(10)));
    assert_eq!(Op::parse("Push $ff"), Ok(Op::Push(255)));
    assert_eq!(Op::parse("PopRegister C"), Ok(Op::PopRegister(Register::C)));
    assert_eq!(Op::parse("PopRegister 2"), Ok(Op::PopRegister(Register::C)));
    assert_eq!(Op::parse("AddStack"), Ok(Op::AddStack));
    assert_eq!(
        Op::parse("AddRegister A B"),
        Ok(Op::AddRegister(Register::A, Register::B))
    );
    assert_eq!(Op::parse("Signal $f0"), Ok(Op::Signal(0xf0)));
}

#[test]
fn parse_skips_repeated_separators() {
    assert_eq!(Op::parse("   Push    %1010   "), Ok(Op::Push(10)));
    assert_eq!(Op::parse("\tAddStack\r"), Ok(Op::AddStack));
}

#[test]
fn parse_errors_name_the_offending_token() {
    assert_eq!(Op::parse(""), Err(ParseError::Empty));
    assert_eq!(Op::parse("    "), Err(ParseError::Empty));
    assert_eq!(
        Op::parse("Jump 3"),
        Err(ParseError::UnknownMnemonic("Jump".to_string()))
    );
    assert_eq!(
        Op::parse("Push"),
        Err(ParseError::WrongArgumentCount {
            mnemonic: "Push".to_string(),
            expected: 1,
            found: 0
        })
    );
    assert_eq!(
        Op::parse("AddStack 1"),
        Err(ParseError::WrongArgumentCount {
            mnemonic: "AddStack".to_string(),
            expected: 0,
            found: 1
        })
    );
    assert_eq!(
        Op::parse("Push 256"),
        Err(ParseError::InvalidNumber("256".to_string()))
    );
    assert_eq!(
        Op::parse("Signal x"),
        Err(ParseError::InvalidNumber("x".to_string()))
    );
    assert_eq!(
        Op::parse("PopRegister 8"),
        Err(ParseError::InvalidRegister("8".to_string()))
    );
    assert_eq!(
        Op::parse("AddRegister A X"),
        Err(ParseError::InvalidRegister("X".to_string()))
    );
    assert_eq!(
        Op::parse("AddRegister Q B"),
        Err(ParseError::InvalidRegister("Q".to_string()))
    );
}

#[test]
fn parsed_text_encodes_to_words() {
    let lines = ["Push 10", "Push 8", "AddStack"];
    let words: Vec<u16> = lines.iter().map(|l| Op::parse(l).unwrap().encode()).collect();
    assert_eq!(words, vec![0x0a01, 0x0801, 0x0003]);
}

#[test]
fn conversions_match_codec() {
    assert_eq!(Op::try_from(0x0a01u16), Ok(Op::Push(10)));
    assert_eq!(
        Op::try_from(0x0007u16),
        Err(DecodeError::UnknownOpcode { opcode: 7, word: 7 })
    );
    assert_eq!(u16::from(Op::Signal(3)), 0x0305);
    assert_eq!(u16::try_from(Op::PopRegister(Register::A)), Ok(0x0002));
    assert_eq!(
        Op::try_from("AddRegister C M".to_string()),
        Ok(Op::AddRegister(Register::C, Register::M))
    );
    assert_eq!(
        Op::try_from("Pop A".to_string()),
        Err(ParseError::UnknownMnemonic("Pop".to_string()))
    );
}
