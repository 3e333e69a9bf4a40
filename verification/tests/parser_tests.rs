use skye_emulator::opcodes::{Data, OpCode, OpCodeIdentity, OpCodeType};
use skye_emulator::parser::{
    check_op_code, decode, get_oc_id, get_oc_type, parse_oc, parse_text, DecodeError, ParseError,
};

#[test]
fn test_line() {
    let oc: OpCode = parse_oc("0FFF".to_owned()).unwrap();
    assert_eq!(
        (oc.op_code, oc.oc_type, oc.oc_id),
        (0x0FFF, OpCodeType::CALL(1), OpCodeIdentity::CallMach)
    );
}

#[test]
fn test_text() {
    let ocs: Vec<OpCode> = parse_text("0FFF\n0222\nF355\n8AB3".to_owned()).unwrap();
    let expected: Vec<OpCode> = vec![
        OpCode { oc_type: OpCodeType::CALL(1), oc_id: OpCodeIdentity::CallMach, op_code: 0x0FFF },
        OpCode { oc_type: OpCodeType::CALL(1), oc_id: OpCodeIdentity::CallMach, op_code: 0x0222 },
        OpCode { oc_type: OpCodeType::MEM(16), oc_id: OpCodeIdentity::DumpRegsToMemR, op_code: 0xF355 },
        OpCode { oc_type: OpCodeType::BITOP(4), oc_id: OpCodeIdentity::XorRR, op_code: 0x8AB3 },
    ];
    assert_eq!(ocs, expected);
}

fn decoded(word: u16) -> (OpCodeIdentity, Data) {
    let oc: OpCode = decode(word).unwrap();
    assert_eq!(oc.op_code, word);
    (oc.oc_id, oc.get_data())
}

#[test]
fn decodes_the_named_words() {
    assert_eq!(decoded(0x00E0), (OpCodeIdentity::ClrDisp, Data::Null));
    assert_eq!(decoded(0x00EE), (OpCodeIdentity::RetSub, Data::Null));
    assert_eq!(decoded(0x1ABC), (OpCodeIdentity::JumpAddr, Data::NNN(0xABC)));
    assert_eq!(decoded(0x6A12), (OpCodeIdentity::SetRC, Data::XNN(0xA, 0x12)));
    assert_eq!(decoded(0x8AB4), (OpCodeIdentity::AddRR, Data::XY(0xA, 0xB)));
    assert_eq!(decoded(0xDAB4), (OpCodeIdentity::DrawDispRRC, Data::XYN(0xA, 0xB, 4)));
    assert_eq!(decoded(0xF355), (OpCodeIdentity::DumpRegsToMemR, Data::X(3)));
    assert_eq!(decoded(0x0FFF), (OpCodeIdentity::CallMach, Data::NNN(0xFFF)));
}

#[test]
fn decodes_every_family() {
    let table: [(u16, OpCodeIdentity, OpCodeType); 35] = [
        (0x0234, OpCodeIdentity::CallMach, OpCodeType::CALL(1)),
        (0x00E0, OpCodeIdentity::ClrDisp, OpCodeType::DISPLAY(1)),
        (0x00EE, OpCodeIdentity::RetSub, OpCodeType::FLOW(1)),
        (0x1234, OpCodeIdentity::JumpAddr, OpCodeType::FLOW(2)),
        (0x2234, OpCodeIdentity::CallSub, OpCodeType::FLOW(4)),
        (0x3234, OpCodeIdentity::SkipEqRC, OpCodeType::COND(1)),
        (0x4234, OpCodeIdentity::SkipNqRC, OpCodeType::COND(2)),
        (0x5230, OpCodeIdentity::SkipEqRR, OpCodeType::COND(4)),
        (0x6234, OpCodeIdentity::SetRC, OpCodeType::CONST(1)),
        (0x7234, OpCodeIdentity::AddNcRC, OpCodeType::CONST(2)),
        (0x8230, OpCodeIdentity::SetRR, OpCodeType::ASSIG(1)),
        (0x8231, OpCodeIdentity::OrRR, OpCodeType::BITOP(1)),
        (0x8232, OpCodeIdentity::AndRR, OpCodeType::BITOP(2)),
        (0x8233, OpCodeIdentity::XorRR, OpCodeType::BITOP(4)),
        (0x8234, OpCodeIdentity::AddRR, OpCodeType::MATH(1)),
        (0x8235, OpCodeIdentity::SubRRR, OpCodeType::MATH(2)),
        (0x8236, OpCodeIdentity::RshiftR, OpCodeType::BITOP(8)),
        (0x8237, OpCodeIdentity::SubLRR, OpCodeType::MATH(4)),
        (0x823E, OpCodeIdentity::LshiftR, OpCodeType::BITOP(16)),
        (0x9230, OpCodeIdentity::SkipNqRR, OpCodeType::COND(8)),
        (0xA234, OpCodeIdentity::SetAddrRegC, OpCodeType::MEM(1)),
        (0xB234, OpCodeIdentity::JumpAddrCR, OpCodeType::FLOW(8)),
        (0xC234, OpCodeIdentity::RandRC, OpCodeType::RAND(1)),
        (0xD234, OpCodeIdentity::DrawDispRRC, OpCodeType::DISPLAY(2)),
        (0xE29E, OpCodeIdentity::SkipKeyPressedR, OpCodeType::KEYOP(1)),
        (0xE2A1, OpCodeIdentity::SkipNKeyPressedR, OpCodeType::KEYOP(2)),
        (0xF207, OpCodeIdentity::GetDelayR, OpCodeType::TIMER(1)),
        (0xF20A, OpCodeIdentity::AwaitGetKeyDownR, OpCodeType::KEYOP(4)),
        (0xF215, OpCodeIdentity::SetDelayR, OpCodeType::TIMER(2)),
        (0xF218, OpCodeIdentity::SetSoundR, OpCodeType::SOUND(1)),
        (0xF21E, OpCodeIdentity::AddAddrRegR, OpCodeType::MEM(2)),
        (0xF229, OpCodeIdentity::SetAddrRegSpriteR, OpCodeType::MEM(4)),
        (0xF233, OpCodeIdentity::SetBcdR, OpCodeType::MEM(8)),
        (0xF255, OpCodeIdentity::DumpRegsToMemR, OpCodeType::MEM(16)),
        (0xF265, OpCodeIdentity::LoadRegsFromMemR, OpCodeType::MEM(32)),
    ];
    for (word, id, kind) in table {
        assert_eq!(get_oc_id(word), Some(id));
        assert_eq!(get_oc_type(word), Some(kind));
        assert_eq!(decode(word), Ok(OpCode { oc_type: kind, oc_id: id, op_code: word }));
    }
}

#[test]
fn rejects_words_that_match_no_pattern() {
    for word in [0x0000u16, 0x0123, 0x01FF, 0x5231, 0x8238, 0x823F, 0x9231, 0xE29F, 0xE000, 0xF200, 0xF2FF] {
        assert_eq!(get_oc_id(word), None);
        assert_eq!(get_oc_type(word), None);
        assert_eq!(decode(word), Err(DecodeError::Unrecognized));
    }
}

#[test]
fn low_byte_selects_clear_and_return_under_a_zero_nibble() {
    assert_eq!(get_oc_id(0x02E0), Some(OpCodeIdentity::ClrDisp));
    assert_eq!(get_oc_id(0x0FEE), Some(OpCodeIdentity::RetSub));
    assert_eq!(get_oc_id(0x02E1), Some(OpCodeIdentity::CallMach));
    assert_eq!(get_oc_id(0x01E1), None);
}

#[test]
fn every_word_decodes_to_operands_in_range() {
    for word in 0..=0xFFFFu16 {
        if let Ok(oc) = decode(word) {
            assert_eq!(Some(oc.oc_id), get_oc_id(word));
            assert_eq!(Some(oc.oc_type), get_oc_type(word));
            match oc.get_data() {
                Data::NNN(address) => assert_eq!(address, word & 0x0FFF),
                Data::XNN(x, constant) => {
                    assert_eq!((x as u16, constant as u16), ((word >> 8) & 0xF, word & 0xFF))
                }
                Data::XYN(x, y, n) => assert_eq!(
                    (x as u16, y as u16, n as u16),
                    ((word >> 8) & 0xF, (word >> 4) & 0xF, word & 0xF)
                ),
                Data::XY(x, y) => {
                    assert_eq!((x as u16, y as u16), ((word >> 8) & 0xF, (word >> 4) & 0xF))
                }
                Data::X(x) => assert_eq!(x as u16, (word >> 8) & 0xF),
                Data::Null => assert!(word & 0xFF == 0xE0 || word & 0xFF == 0xEE),
            }
        } else {
            assert_eq!(get_oc_id(word), None);
        }
    }
}

#[test]
fn checks_tokens() {
    assert!(check_op_code(&"0FFF".to_owned()));
    assert!(check_op_code(&"abCD".to_owned()));
    assert!(check_op_code(&"0000".to_owned()));
    assert!(!check_op_code(&"".to_owned()));
    assert!(!check_op_code(&"FFF".to_owned()));
    assert!(!check_op_code(&"0FFFF".to_owned()));
    assert!(!check_op_code(&"0FFG".to_owned()));
    assert!(!check_op_code(&" FFF".to_owned()));
    assert!(!check_op_code(&"0x1F".to_owned()));
    assert!(!check_op_code(&"ééé1".to_owned()));
    assert!(!check_op_code(&"éé".to_owned()));
}

#[test]
fn parses_tokens_in_either_case() {
    let upper: OpCode = parse_oc("8AB4".to_owned()).unwrap();
    let lower: OpCode = parse_oc("8ab4".to_owned()).unwrap();
    assert_eq!(upper, lower);
    assert_eq!(upper.op_code, 0x8AB4);
    assert_eq!(upper.oc_id, OpCodeIdentity::AddRR);
    assert_eq!(parse_oc("f355".to_owned()).unwrap().op_code, 0xF355);
}

#[test]
fn token_errors() {
    assert_eq!(parse_oc("12".to_owned()), Err(DecodeError::Malformed));
    assert_eq!(parse_oc("12345".to_owned()), Err(DecodeError::Malformed));
    assert_eq!(parse_oc("12G4".to_owned()), Err(DecodeError::Malformed));
    assert_eq!(parse_oc("1234 ".to_owned()), Err(DecodeError::Malformed));
    assert_eq!(parse_oc("#123".to_owned()), Err(DecodeError::Malformed));
    assert_eq!(parse_oc("0000".to_owned()), Err(DecodeError::Unrecognized));
    assert_eq!(parse_oc("5AB1".to_owned()), Err(DecodeError::Unrecognized));
}

#[test]
fn text_line_endings() {
    let expected: Vec<OpCode> = vec![decode(0x0FFF).unwrap(), decode(0x1234).unwrap()];
    assert_eq!(parse_text("0FFF\n1234".to_owned()), Ok(expected.clone()));
    assert_eq!(parse_text("0FFF\n1234\n".to_owned()), Ok(expected.clone()));
    assert_eq!(parse_text("0FFF\r\n1234\r\n".to_owned()), Ok(expected.clone()));
    assert_eq!(parse_text("".to_owned()), Ok(Vec::new()));
}

#[test]
fn text_errors_name_the_first_bad_line() {
    assert_eq!(
        parse_text("0FFF\n12G4\n0000".to_owned()),
        Err(ParseError { line: 2, token: "12G4".to_owned(), error: DecodeError::Malformed })
    );
    assert_eq!(
        parse_text("0FFF\n1234\n0000\nzz".to_owned()),
        Err(ParseError { line: 3, token: "0000".to_owned(), error: DecodeError::Unrecognized })
    );
    assert_eq!(
        parse_text("0FFF\n\n1234".to_owned()),
        Err(ParseError { line: 2, token: "".to_owned(), error: DecodeError::Malformed })
    );
    assert_eq!(
        parse_text("\n".to_owned()),
        Err(ParseError { line: 1, token: "".to_owned(), error: DecodeError::Malformed })
    );
    assert_eq!(
        parse_text("1234\r".to_owned()),
        Err(ParseError { line: 1, token: "1234\r".to_owned(), error: DecodeError::Malformed })
    );
    assert_eq!(
        parse_text(" 1234\n".to_owned()),
        Err(ParseError { line: 1, token: " 1234".to_owned(), error: DecodeError::Malformed })
    );
    assert_eq!(
        parse_text("1234\nab\u{e9}d\n".to_owned()),
        Err(ParseError { line: 2, token: "ab\u{e9}d".to_owned(), error: DecodeError::Malformed })
    );
}
