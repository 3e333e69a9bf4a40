//! The decoder: from a 16-bit word, or from its text of four hexadecimal
//! characters, to a typed instruction; and from a program text, one
//! instruction per line, to the sequence of its instructions.

use vstd::prelude::*;

pub use crate::opcodes::{OpCode, OpCodeIdentity, OpCodeType};
use crate::opcodes::{lemma_fields_by_mask, low_byte, nibble1, nibble2, nibble4};

verus! {

/// Why a token is no instruction.
#[derive(Debug, Clone, Copy, PartialEq, Eq, Structural)]
pub enum DecodeError {
    /// The token is not made of exactly four hexadecimal characters.
    Malformed,
    /// The word matches no instruction pattern.
    Unrecognized,
}

/// A line of a program text that could not be decoded.
#[derive(Debug, Clone, PartialEq, Eq)]
pub struct ParseError {
    /// The number of the line, the first line being line 1.
    pub line: usize,
    /// The text of the line, without its line ending.
    pub token: String,
    /// What is wrong with it.
    pub error: DecodeError,
}

/// The instruction that `word` encodes, if it encodes one. The first nibble
/// selects the instruction or a family of them; within a family the last
/// nibble or the low byte selects.
pub open spec fn identity(word: u16) -> Option<OpCodeIdentity> {
    let w1 = nibble1(word);
    let w4 = nibble4(word);
    let low = low_byte(word);
    if w1 == 0x0 {
        if low == 0xE0 {
            Some(OpCodeIdentity::ClrDisp)
        } else if low == 0xEE {
            Some(OpCodeIdentity::RetSub)
        } else if nibble2(word) >= 0x2 {
            Some(OpCodeIdentity::CallMach)
        } else {
            None
        }
    } else if w1 == 0x1 {
        Some(OpCodeIdentity::JumpAddr)
    } else if w1 == 0x2 {
        Some(OpCodeIdentity::CallSub)
    } else if w1 == 0x3 {
        Some(OpCodeIdentity::SkipEqRC)
    } else if w1 == 0x4 {
        Some(OpCodeIdentity::SkipNqRC)
    } else if w1 == 0x5 {
        if w4 == 0x0 {
            Some(OpCodeIdentity::SkipEqRR)
        } else {
            None
        }
    } else if w1 == 0x6 {
        Some(OpCodeIdentity::SetRC)
    } else if w1 == 0x7 {
        Some(OpCodeIdentity::AddNcRC)
    } else if w1 == 0x8 {
        if w4 == 0x0 {
            Some(OpCodeIdentity::SetRR)
        } else if w4 == 0x1 {
            Some(OpCodeIdentity::OrRR)
        } else if w4 == 0x2 {
            Some(OpCodeIdentity::AndRR)
        } else if w4 == 0x3 {
            Some(OpCodeIdentity::XorRR)
        } else if w4 == 0x4 {
            Some(OpCodeIdentity::AddRR)
        } else if w4 == 0x5 {
            Some(OpCodeIdentity::SubRRR)
        } else if w4 == 0x6 {
            Some(OpCodeIdentity::RshiftR)
        } else if w4 == 0x7 {
            Some(OpCodeIdentity::SubLRR)
        } else if w4 == 0xE {
            Some(OpCodeIdentity::LshiftR)
        } else {
            None
        }
    } else if w1 == 0x9 {
        if w4 == 0x0 {
            Some(OpCodeIdentity::SkipNqRR)
        } else {
            None
        }
    } else if w1 == 0xA {
        Some(OpCodeIdentity::SetAddrRegC)
    } else if w1 == 0xB {
        Some(OpCodeIdentity::JumpAddrCR)
    } else if w1 == 0xC {
        Some(OpCodeIdentity::RandRC)
    } else if w1 == 0xD {
        Some(OpCodeIdentity::DrawDispRRC)
    } else if w1 == 0xE {
        if low == 0x9E {
            Some(OpCodeIdentity::SkipKeyPressedR)
        } else if low == 0xA1 {
            Some(OpCodeIdentity::SkipNKeyPressedR)
        } else {
            None
        }
    } else {
        if low == 0x07 {
            Some(OpCodeIdentity::GetDelayR)
        } else if low == 0x0A {
            Some(OpCodeIdentity::AwaitGetKeyDownR)
        } else if low == 0x15 {
            Some(OpCodeIdentity::SetDelayR)
        } else if low == 0x18 {
            Some(OpCodeIdentity::SetSoundR)
        } else if low == 0x1E {
            Some(OpCodeIdentity::AddAddrRegR)
        } else if low == 0x29 {
            Some(OpCodeIdentity::SetAddrRegSpriteR)
        } else if low == 0x33 {
            Some(OpCodeIdentity::SetBcdR)
        } else if low == 0x55 {
            Some(OpCodeIdentity::DumpRegsToMemR)
        } else if low == 0x65 {
            Some(OpCodeIdentity::LoadRegsFromMemR)
        } else {
            None
        }
    }
}

/// The kind of each instruction.
pub open spec fn category(id: OpCodeIdentity) -> OpCodeType {
    match id {
        OpCodeIdentity::CallMach => OpCodeType::CALL(1),
        OpCodeIdentity::ClrDisp => OpCodeType::DISPLAY(1),
        OpCodeIdentity::RetSub => OpCodeType::FLOW(1),
        OpCodeIdentity::JumpAddr => OpCodeType::FLOW(2),
        OpCodeIdentity::CallSub => OpCodeType::FLOW(4),
        OpCodeIdentity::SkipEqRC => OpCodeType::COND(1),
        OpCodeIdentity::SkipNqRC => OpCodeType::COND(2),
        OpCodeIdentity::SkipEqRR => OpCodeType::COND(4),
        OpCodeIdentity::SetRC => OpCodeType::CONST(1),
        OpCodeIdentity::AddNcRC => OpCodeType::CONST(2),
        OpCodeIdentity::SetRR => OpCodeType::ASSIG(1),
        OpCodeIdentity::OrRR => OpCodeType::BITOP(1),
        OpCodeIdentity::AndRR => OpCodeType::BITOP(2),
        OpCodeIdentity::XorRR => OpCodeType::BITOP(4),
        OpCodeIdentity::AddRR => OpCodeType::MATH(1),
        OpCodeIdentity::SubRRR => OpCodeType::MATH(2),
        OpCodeIdentity::RshiftR => OpCodeType::BITOP(8),
        OpCodeIdentity::SubLRR => OpCodeType::MATH(4),
        OpCodeIdentity::LshiftR => OpCodeType::BITOP(16),
        OpCodeIdentity::SkipNqRR => OpCodeType::COND(8),
        OpCodeIdentity::SetAddrRegC => OpCodeType::MEM(1),
        OpCodeIdentity::JumpAddrCR => OpCodeType::FLOW(8),
        OpCodeIdentity::RandRC => OpCodeType::RAND(1),
        OpCodeIdentity::DrawDispRRC => OpCodeType::DISPLAY(2),
        OpCodeIdentity::SkipKeyPressedR => OpCodeType::KEYOP(1),
        OpCodeIdentity::SkipNKeyPressedR => OpCodeType::KEYOP(2),
        OpCodeIdentity::GetDelayR => OpCodeType::TIMER(1),
        OpCodeIdentity::AwaitGetKeyDownR => OpCodeType::KEYOP(4),
        OpCodeIdentity::SetDelayR => OpCodeType::TIMER(2),
        OpCodeIdentity::SetSoundR => OpCodeType::SOUND(1),
        OpCodeIdentity::AddAddrRegR => OpCodeType::MEM(2),
        OpCodeIdentity::SetAddrRegSpriteR => OpCodeType::MEM(4),
        OpCodeIdentity::SetBcdR => OpCodeType::MEM(8),
        OpCodeIdentity::DumpRegsToMemR => OpCodeType::MEM(16),
        OpCodeIdentity::LoadRegsFromMemR => OpCodeType::MEM(32),
    }
}

/// What decoding `word` gives: the instruction with its kind and the word
/// itself, or `Unrecognized`.
pub open spec fn decode_word(word: u16) -> Result<OpCode, DecodeError> {
    match identity(word) {
        Some(id) => Ok(OpCode { oc_type: category(id), oc_id: id, op_code: word }),
        None => Err(DecodeError::Unrecognized),
    }
}

/// The value of a hexadecimal digit, in either case.
pub open spec fn hex_value(c: char) -> Option<u16> {
    if '0' <= c <= '9' {
        Some((c as u16 - '0' as u16) as u16)
    } else if 'a' <= c <= 'f' {
        Some((c as u16 - 'a' as u16 + 10) as u16)
    } else if 'A' <= c <= 'F' {
        Some((c as u16 - 'A' as u16 + 10) as u16)
    } else {
        None
    }
}

/// A token is well formed when it is exactly four hexadecimal digits.
pub open spec fn well_formed(token: Seq<char>) -> bool {
    token.len() == 4 && forall|i: int| 0 <= i < 4 ==> (#[trigger] hex_value(token[i])) is Some
}

/// The word that a well-formed token writes, most significant digit first.
pub open spec fn token_word(token: Seq<char>) -> u16 {
    (0x1000 * hex_value(token[0])->0 + 0x100 * hex_value(token[1])->0 + 0x10 * hex_value(
        token[2],
    )->0 + hex_value(token[3])->0) as u16
}

/// What decoding a token gives: `Malformed` unless it is well formed, and
/// else what decoding its word gives.
pub open spec fn decode_token(token: Seq<char>) -> Result<OpCode, DecodeError> {
    if well_formed(token) {
        decode_word(token_word(token))
    } else {
        Err(DecodeError::Malformed)
    }
}

/// The number of characters of `text` before its first line feed, or its
/// length where it holds none.
pub open spec fn line_length(text: Seq<char>) -> nat
    decreases text.len(),
{
    if text.len() == 0 || text[0] == '\n' {
        0
    } else {
        1 + line_length(text.drop_first())
    }
}

/// `line` without the carriage return at its end, if it ends in one.
pub open spec fn without_carriage_return(line: Seq<char>) -> Seq<char> {
    if line.len() > 0 && line.last() == '\r' {
        line.drop_last()
    } else {
        line
    }
}

/// The lines of `text`. A line ends at a line feed, or at a carriage return
/// directly followed by one; neither belongs to the line. What follows the
/// last line feed is a line too, unless it is empty.
pub open spec fn lines(text: Seq<char>) -> Seq<Seq<char>>
    decreases text.len(),
{
    if text.len() == 0 {
        Seq::empty()
    } else {
        let n = line_length(text);
        if n >= text.len() {
            seq![text]
        } else {
            seq![without_carriage_return(text.take(n as int))] + lines(text.skip((n + 1) as int))
        }
    }
}

/// The length of a line is that of the text at most, and the character that
/// stops the line is a line feed.
pub proof fn lemma_line_length_bounds(text: Seq<char>)
    ensures
        line_length(text) <= text.len(),
        line_length(text) < text.len() ==> text[line_length(text) as int] == '\n',
        forall|i: int| 0 <= i < line_length(text) ==> text[i] != '\n',
    decreases text.len(),
{
    if text.len() == 0 || text[0] == '\n' {
    } else {
        let rest = text.drop_first();
        lemma_line_length_bounds(rest);
        assert forall|i: int| 0 <= i < line_length(text) implies text[i] != '\n' by {
            if i > 0 {
                assert(text[i] == rest[i - 1]);
            }
        }
        if line_length(text) < text.len() {
            assert(text[line_length(text) as int] == rest[line_length(rest) as int]);
        }
    }
}

/// A stretch without a line feed that ends the text, or that a line feed
/// follows, is the first line.
proof fn lemma_line_length_is(text: Seq<char>, n: int)
    requires
        0 <= n <= text.len(),
        forall|i: int| 0 <= i < n ==> text[i] != '\n',
        n < text.len() ==> text[n] == '\n',
    ensures
        line_length(text) == n,
    decreases n,
{
    if n > 0 {
        let rest = text.drop_first();
        assert forall|i: int| 0 <= i < n - 1 implies rest[i] != '\n' by {
            assert(rest[i] == text[i + 1]);
        }
        lemma_line_length_is(rest, n - 1);
    }
}

/// The instruction that `op_code` encodes, if any.
pub fn get_oc_id(op_code: u16) -> (id: Option<OpCodeIdentity>)
    ensures
        id == identity(op_code),
{
    proof {
        lemma_fields_by_mask(op_code);
    }
    let w1: u16 = (op_code & 0xF000) >> 12;
    let w2: u16 = (op_code & 0x0F00) >> 8;
    let w4: u16 = op_code & 0x000F;
    let w34: u16 = op_code & 0x00FF;
    if w1 == 0x0 {
        if w34 == 0xE0 {
            return Some(OpCodeIdentity::ClrDisp);
        }
        if w34 == 0xEE {
            return Some(OpCodeIdentity::RetSub);
        }
        if w2 >= 0x2 {
            return Some(OpCodeIdentity::CallMach);
        }
        return None;
    }
    if w1 == 0x1 {
        return Some(OpCodeIdentity::JumpAddr);
    }
    if w1 == 0x2 {
        return Some(OpCodeIdentity::CallSub);
    }
    if w1 == 0x3 {
        return Some(OpCodeIdentity::SkipEqRC);
    }
    if w1 == 0x4 {
        return Some(OpCodeIdentity::SkipNqRC);
    }
    if w1 == 0x5 {
        if w4 == 0x0 {
            return Some(OpCodeIdentity::SkipEqRR);
        }
        return None;
    }
    if w1 == 0x6 {
        return Some(OpCodeIdentity::SetRC);
    }
    if w1 == 0x7 {
        return Some(OpCodeIdentity::AddNcRC);
    }
    if w1 == 0x8 {
        if w4 == 0x0 {
            return Some(OpCodeIdentity::SetRR);
        }
        if w4 == 0x1 {
            return Some(OpCodeIdentity::OrRR);
        }
        if w4 == 0x2 {
            return Some(OpCodeIdentity::AndRR);
        }
        if w4 == 0x3 {
            return Some(OpCodeIdentity::XorRR);
        }
        if w4 == 0x4 {
            return Some(OpCodeIdentity::AddRR);
        }
        if w4 == 0x5 {
            return Some(OpCodeIdentity::SubRRR);
        }
        if w4 == 0x6 {
            return Some(OpCodeIdentity::RshiftR);
        }
        if w4 == 0x7 {
            return Some(OpCodeIdentity::SubLRR);
        }
        if w4 == 0xE {
            return Some(OpCodeIdentity::LshiftR);
        }
        return None;
    }
    if w1 == 0x9 {
        if w4 == 0x0 {
            return Some(OpCodeIdentity::SkipNqRR);
        }
        return None;
    }
    if w1 == 0xA {
        return Some(OpCodeIdentity::SetAddrRegC);
    }
    if w1 == 0xB {
        return Some(OpCodeIdentity::JumpAddrCR);
    }
    if w1 == 0xC {
        return Some(OpCodeIdentity::RandRC);
    }
    if w1 == 0xD {
        return Some(OpCodeIdentity::DrawDispRRC);
    }
    if w1 == 0xE {
        if w34 == 0x9E {
            return Some(OpCodeIdentity::SkipKeyPressedR);
        }
        if w34 == 0xA1 {
            return Some(OpCodeIdentity::SkipNKeyPressedR);
        }
        return None;
    }
    if w34 == 0x07 {
        return Some(OpCodeIdentity::GetDelayR);
    }
    if w34 == 0x0A {
        return Some(OpCodeIdentity::AwaitGetKeyDownR);
    }
    if w34 == 0x15 {
        return Some(OpCodeIdentity::SetDelayR);
    }
    if w34 == 0x18 {
        return Some(OpCodeIdentity::SetSoundR);
    }
    if w34 == 0x1E {
        return Some(OpCodeIdentity::AddAddrRegR);
    }
    if w34 == 0x29 {
        return Some(OpCodeIdentity::SetAddrRegSpriteR);
    }
    if w34 == 0x33 {
        return Some(OpCodeIdentity::SetBcdR);
    }
    if w34 == 0x55 {
        return Some(OpCodeIdentity::DumpRegsToMemR);
    }
    if w34 == 0x65 {
        return Some(OpCodeIdentity::LoadRegsFromMemR);
    }
    None
}

/// The kind of the instruction that `op_code` encodes, if it encodes one.
pub fn get_oc_type(op_code: u16) -> (oc_type: Option<OpCodeType>)
    ensures
        oc_type == match identity(op_code) {
            Some(id) => Some(category(id)),
            None => None,
        },
{
    proof {
        lemma_fields_by_mask(op_code);
    }
    let w1: u16 = (op_code & 0xF000) >> 12;
    let w2: u16 = (op_code & 0x0F00) >> 8;
    let w4: u16 = op_code & 0x000F;
    let w34: u16 = op_code & 0x00FF;
    if w1 == 0x0 {
        if w34 == 0xE0 {
            return Some(OpCodeType::DISPLAY(1));
        }
        if w34 == 0xEE {
            return Some(OpCodeType::FLOW(1));
        }
        if w2 >= 0x2 {
            return Some(OpCodeType::CALL(1));
        }
        return None;
    }
    if w1 == 0x1 {
        return Some(OpCodeType::FLOW(2));
    }
    if w1 == 0x2 {
        return Some(OpCodeType::FLOW(4));
    }
    if w1 == 0x3 {
        return Some(OpCodeType::COND(1));
    }
    if w1 == 0x4 {
        return Some(OpCodeType::COND(2));
    }
    if w1 == 0x5 {
        if w4 == 0x0 {
            return Some(OpCodeType::COND(4));
        }
        return None;
    }
    if w1 == 0x6 {
        return Some(OpCodeType::CONST(1));
    }
    if w1 == 0x7 {
        return Some(OpCodeType::CONST(2));
    }
    if w1 == 0x8 {
        if w4 == 0x0 {
            return Some(OpCodeType::ASSIG(1));
        }
        if w4 == 0x1 {
            return Some(OpCodeType::BITOP(1));
        }
        if w4 == 0x2 {
            return Some(OpCodeType::BITOP(2));
        }
        if w4 == 0x3 {
            return Some(OpCodeType::BITOP(4));
        }
        if w4 == 0x4 {
            return Some(OpCodeType::MATH(1));
        }
        if w4 == 0x5 {
            return Some(OpCodeType::MATH(2));
        }
        if w4 == 0x6 {
            return Some(OpCodeType::BITOP(8));
        }
        if w4 == 0x7 {
            return Some(OpCodeType::MATH(4));
        }
        if w4 == 0xE {
            return Some(OpCodeType::BITOP(16));
        }
        return None;
    }
    if w1 == 0x9 {
        if w4 == 0x0 {
            return Some(OpCodeType::COND(8));
        }
        return None;
    }
    if w1 == 0xA {
        return Some(OpCodeType::MEM(1));
    }
    if w1 == 0xB {
        return Some(OpCodeType::FLOW(8));
    }
    if w1 == 0xC {
        return Some(OpCodeType::RAND(1));
    }
    if w1 == 0xD {
        return Some(OpCodeType::DISPLAY(2));
    }
    if w1 == 0xE {
        if w34 == 0x9E {
            return Some(OpCodeType::KEYOP(1));
        }
        if w34 == 0xA1 {
            return Some(OpCodeType::KEYOP(2));
        }
        return None;
    }
    if w34 == 0x07 {
        return Some(OpCodeType::TIMER(1));
    }
    if w34 == 0x0A {
        return Some(OpCodeType::KEYOP(4));
    }
    if w34 == 0x15 {
        return Some(OpCodeType::TIMER(2));
    }
    if w34 == 0x18 {
        return Some(OpCodeType::SOUND(1));
    }
    if w34 == 0x1E {
        return Some(OpCodeType::MEM(2));
    }
    if w34 == 0x29 {
        return Some(OpCodeType::MEM(4));
    }
    if w34 == 0x33 {
        return Some(OpCodeType::MEM(8));
    }
    if w34 == 0x55 {
        return Some(OpCodeType::MEM(16));
    }
    if w34 == 0x65 {
        return Some(OpCodeType::MEM(32));
    }
    None
}

/// Decodes one word: the instruction it encodes, with its kind and the word
/// itself, or `Unrecognized` where no pattern matches.
pub fn decode(word: u16) -> (r: Result<OpCode, DecodeError>)
    ensures
        r == decode_word(word),
{
    match (get_oc_type(word), get_oc_id(word)) {
        (Some(oc_type), Some(oc_id)) => Ok(OpCode { oc_type, oc_id, op_code: word }),
        _ => Err(DecodeError::Unrecognized),
    }
}

/// The value of the hexadecimal digit `symbol`, if it is one.
fn hex_digit(symbol: char) -> (v: Option<u16>)
    ensures
        v == hex_value(symbol),
{
    match symbol {
        '0' => Some(0x0),
        '1' => Some(0x1),
        '2' => Some(0x2),
        '3' => Some(0x3),
        '4' => Some(0x4),
        '5' => Some(0x5),
        '6' => Some(0x6),
        '7' => Some(0x7),
        '8' => Some(0x8),
        '9' => Some(0x9),
        'A' | 'a' => Some(0xA),
        'B' | 'b' => Some(0xB),
        'C' | 'c' => Some(0xC),
        'D' | 'd' => Some(0xD),
        'E' | 'e' => Some(0xE),
        'F' | 'f' => Some(0xF),
        _ => None,
    }
}

/// The characters of `text`, in order.
fn chars_of(text: &str) -> (chars: Vec<char>)
    ensures
        chars@ == text@,
{
    let mut chars: Vec<char> = Vec::new();
    for c in it: text.chars()
        invariant
            it.seq() == text@,
            chars@ == it.seq().take(it.index() as int),
    {
        chars.push(c);
    }
    chars
}

/// The word that the characters from `from` up to `to` write, if they are
/// exactly four hexadecimal digits.
fn word_between(chars: &Vec<char>, from: usize, to: usize) -> (word: Option<u16>)
    requires
        from <= to <= chars.len(),
    ensures
        word is Some <==> well_formed(chars@.subrange(from as int, to as int)),
        word is Some ==> word->0 == token_word(chars@.subrange(from as int, to as int)),
{
    let ghost token = chars@.subrange(from as int, to as int);
    if to - from != 4 {
        return None;
    }
    let mut oc_val: u16 = 0;
    let mut i: usize = 0;
    while i < 4
        invariant
            i <= 4,
            to - from == 4,
            to <= chars.len(),
            token == chars@.subrange(from as int, to as int),
            forall|j: int| 0 <= j < i ==> (#[trigger] hex_value(token[j])) is Some,
            i == 0 ==> oc_val == 0,
            i == 1 ==> oc_val == hex_value(token[0])->0,
            i == 2 ==> oc_val == 0x10 * hex_value(token[0])->0 + hex_value(token[1])->0,
            i == 3 ==> oc_val == 0x100 * hex_value(token[0])->0 + 0x10 * hex_value(token[1])->0
                + hex_value(token[2])->0,
            i == 4 ==> oc_val == token_word(token),
        decreases 4 - i,
    {
        assert(token[i as int] == chars@[from + i]);
        match hex_digit(chars[from + i]) {
            Some(symb_val) => {
                oc_val = oc_val * 16 + symb_val;
            },
            None => {
                return None;
            },
        }
        i += 1;
    }
    Some(oc_val)
}

/// Decodes the characters from `from` up to `to`.
fn decode_between(chars: &Vec<char>, from: usize, to: usize) -> (r: Result<OpCode, DecodeError>)
    requires
        from <= to <= chars.len(),
    ensures
        r == decode_token(chars@.subrange(from as int, to as int)),
{
    match word_between(chars, from, to) {
        Some(word) => decode(word),
        None => Err(DecodeError::Malformed),
    }
}

/// Whether `op_code` is exactly four hexadecimal characters, in either case.
pub fn check_op_code(op_code: &String) -> (ok: bool)
    ensures
        ok == well_formed(op_code@),
{
    let chars = chars_of(op_code.as_str());
    assert(chars@.subrange(0, chars@.len() as int) == chars@);
    word_between(&chars, 0, chars.len()).is_some()
}

/// Decodes the text of one instruction: four hexadecimal characters, most
/// significant first. `Malformed` where the text is anything else,
/// `Unrecognized` where its word matches no instruction pattern.
pub fn parse_oc(op_code: String) -> (r: Result<OpCode, DecodeError>)
    ensures
        r == decode_token(op_code@),
{
    let chars = chars_of(op_code.as_str());
    assert(chars@.subrange(0, chars@.len() as int) == chars@);
    decode_between(&chars, 0, chars.len())
}

/// Decodes a program text, one instruction per line. Succeeds when every
/// line decodes, with the instructions in the order of their lines; else
/// reports the first line that does not, by its number, its text and its
/// fault.
pub fn parse_text(text: String) -> (r: Result<Vec<OpCode>, ParseError>)
    ensures
        match r {
            Ok(program) => {
                &&& program@.len() == lines(text@).len()
                &&& forall|i: int|
                    0 <= i < program@.len() ==> decode_token(#[trigger] lines(text@)[i]) == Ok::<
                        OpCode,
                        DecodeError,
                    >(program@[i])
            },
            Err(e) => {
                &&& 1 <= e.line <= lines(text@).len()
                &&& forall|i: int|
                    0 <= i < e.line - 1 ==> decode_token(#[trigger] lines(text@)[i]) is Ok
                &&& decode_token(lines(text@)[e.line - 1]) == Err::<OpCode, DecodeError>(e.error)
                &&& e.token@ == lines(text@)[e.line - 1]
            },
        },
{
    let chars = chars_of(text.as_str());
    let n = chars.len();
    let mut lns: Vec<OpCode> = Vec::new();
    let mut start: usize = 0;
    let ghost mut done: Seq<Seq<char>> = Seq::empty();
    assert(text@.skip(0) == text@);
    while start < n
        invariant
            start <= n,
            n == chars@.len(),
            chars@ == text@,
            lines(text@) == done + lines(text@.skip(start as int)),
            done.len() == lns@.len(),
            lns@.len() <= start,
            forall|i: int|
                0 <= i < done.len() ==> decode_token(#[trigger] done[i]) == Ok::<
                    OpCode,
                    DecodeError,
                >(lns@[i]),
        decreases n - start,
    {
        let ghost rest = text@.skip(start as int);
        let mut end: usize = start;
        while end < n && chars[end] != '\n'
            invariant
                start <= end <= n,
                n == chars@.len(),
                forall|i: int| start <= i < end ==> chars@[i] != '\n',
            decreases n - end,
        {
            end += 1;
        }
        proof {
            assert forall|i: int| 0 <= i < end - start implies rest[i] != '\n' by {
                assert(rest[i] == chars@[start + i]);
            }
            lemma_line_length_is(rest, end - start);
        }
        let mut stop: usize = end;
        if end < n && start < end && chars[end - 1] == '\r' {
            stop = end - 1;
        }
        let ghost line = chars@.subrange(start as int, stop as int);
        proof {
            if end < n {
                let whole = rest.take(end - start);
                assert(whole == chars@.subrange(start as int, end as int));
                if start < end && chars@[end - 1] == '\r' {
                    assert(whole.last() == '\r');
                    assert(whole.drop_last() == line);
                } else {
                    assert(without_carriage_return(whole) == line);
                }
                assert(rest.skip(end - start + 1) == text@.skip(end + 1));
                assert(lines(rest) == seq![line] + lines(text@.skip(end + 1)));
            } else {
                assert(line == rest);
                assert(lines(rest) == seq![line]);
                assert(lines(text@.skip(n as int)) == Seq::<Seq<char>>::empty());
            }
        }
        match decode_between(&chars, start, stop) {
            Ok(oc) => {
                lns.push(oc);
            },
            Err(error) => {
                let token = text.as_str().substring_char(start, stop).to_owned();
                proof {
                    let after = if end < n {
                        lines(text@.skip(end + 1))
                    } else {
                        Seq::<Seq<char>>::empty()
                    };
                    assert(lines(text@) == done + (seq![line] + after));
                    assert(lines(text@)[done.len() as int] == line);
                    assert forall|i: int| 0 <= i < done.len() implies decode_token(
                        #[trigger] lines(text@)[i],
                    ) is Ok by {
                        assert(lines(text@)[i] == done[i]);
                    }
                }
                return Err(ParseError { line: lns.len() + 1, token, error });
            },
        }
        proof {
            let after = if end < n {
                lines(text@.skip(end + 1))
            } else {
                Seq::<Seq<char>>::empty()
            };
            assert(done + (seq![line] + after) == done.push(line) + after);
            done = done.push(line);
        }
        start = if end < n {
            end + 1
        } else {
            n
        };
    }
    proof {
        assert(lines(text@.skip(n as int)) == Seq::<Seq<char>>::empty());
        assert(lines(text@) == done);
    }
    Ok(lns)
}

} // verus!
