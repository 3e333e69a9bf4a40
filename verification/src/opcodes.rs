//! The instruction data model: what an instruction is, and how its operands
//! are laid out in the four nibbles of its 16-bit word.

use vstd::prelude::*;

verus! {

/// The kind of work an instruction does. The number tells the instructions
/// of one kind apart: it is a power of two, in the order of their words.
#[derive(Debug, Clone, Copy, PartialEq, Eq, Structural)]
pub enum OpCodeType {
    /// Calls into machine code.
    CALL(u8),
    /// Clears or draws on the display.
    DISPLAY(u8),
    /// Jumps, calls and returns.
    FLOW(u8),
    /// Conditional skips.
    COND(u8),
    /// Operations of a register with a constant.
    CONST(u8),
    /// Register assignment.
    ASSIG(u8),
    /// Bitwise operations.
    BITOP(u8),
    /// Arithmetic.
    MATH(u8),
    /// Memory and the index register.
    MEM(u8),
    /// Random numbers.
    RAND(u8),
    /// Keypad input.
    KEYOP(u8),
    /// The delay timer.
    TIMER(u8),
    /// The sound timer.
    SOUND(u8),
    /// Binary-coded decimal.
    BCD(u8),
}

/// Which instruction a word is.
#[derive(Debug, Clone, Copy, PartialEq, Eq, Structural)]
pub enum OpCodeIdentity {
    /// Call a machine code routine.
    CallMach,
    /// Clear the display.
    ClrDisp,
    /// Return from a subroutine.
    RetSub,
    /// Jump to an address.
    JumpAddr,
    /// Call a subroutine.
    CallSub,
    /// Skip if a register equals a constant.
    SkipEqRC,
    /// Skip if a register differs from a constant.
    SkipNqRC,
    /// Skip if two registers are equal.
    SkipEqRR,
    /// Store a constant in a register.
    SetRC,
    /// Add a constant to a register, without a carry flag.
    AddNcRC,
    /// Copy a register.
    SetRR,
    /// Bitwise or of two registers.
    OrRR,
    /// Bitwise and of two registers.
    AndRR,
    /// Bitwise xor of two registers.
    XorRR,
    /// Add a register to a register, with carry.
    AddRR,
    /// Subtract the second register from the first.
    SubRRR,
    /// Shift a register right by one.
    RshiftR,
    /// Subtract the first register from the second.
    SubLRR,
    /// Shift a register left by one.
    LshiftR,
    /// Skip if two registers differ.
    SkipNqRR,
    /// Set the index register to a constant.
    SetAddrRegC,
    /// Jump to a constant plus `V0`.
    JumpAddrCR,
    /// Store a masked random number in a register.
    RandRC,
    /// Draw a sprite.
    DrawDispRRC,
    /// Skip if the key named by a register is pressed.
    SkipKeyPressedR,
    /// Skip if the key named by a register is not pressed.
    SkipNKeyPressedR,
    /// Read the delay timer.
    GetDelayR,
    /// Wait for a key and store it.
    AwaitGetKeyDownR,
    /// Set the delay timer.
    SetDelayR,
    /// Set the sound timer.
    SetSoundR,
    /// Add a register to the index register.
    AddAddrRegR,
    /// Point the index register at the glyph of a digit.
    SetAddrRegSpriteR,
    /// Store the decimal digits of a register.
    SetBcdR,
    /// Store `V0` up to a register in memory.
    DumpRegsToMemR,
    /// Load `V0` up to a register from memory.
    LoadRegsFromMemR,
}

/// One instruction: its kind, its identity, and the word it was decoded from.
#[derive(Debug, Clone, Copy, PartialEq, Eq, Structural)]
pub struct OpCode {
    pub oc_type: OpCodeType,
    pub oc_id: OpCodeIdentity,
    pub op_code: u16,
}

/// The operands of an instruction, in one of six shapes.
#[derive(Debug, Clone, Copy, PartialEq, Eq, Structural)]
pub enum Data {
    /// A 12-bit address.
    NNN(u16),
    /// A register and an 8-bit constant.
    XNN(u8, u8),
    /// Two registers and a 4-bit constant.
    XYN(u8, u8, u8),
    /// Two registers.
    XY(u8, u8),
    /// One register.
    X(u8),
    /// No operand.
    Null,
}

/// The most significant nibble of `word`.
pub open spec fn nibble1(word: u16) -> u8 {
    (word / 0x1000) as u8
}

/// The second nibble of `word`: where a first register stands.
pub open spec fn nibble2(word: u16) -> u8 {
    (word / 0x100 % 0x10) as u8
}

/// The third nibble of `word`: where a second register stands.
pub open spec fn nibble3(word: u16) -> u8 {
    (word / 0x10 % 0x10) as u8
}

/// The least significant nibble of `word`.
pub open spec fn nibble4(word: u16) -> u8 {
    (word % 0x10) as u8
}

/// The low byte of `word`: where an 8-bit constant stands.
pub open spec fn low_byte(word: u16) -> u8 {
    (word % 0x100) as u8
}

/// The low twelve bits of `word`: where an address stands.
pub open spec fn address(word: u16) -> u16 {
    word % 0x1000
}

/// The operands that the instruction `id` reads from `word`.
pub open spec fn operands(id: OpCodeIdentity, word: u16) -> Data {
    match id {
        OpCodeIdentity::ClrDisp | OpCodeIdentity::RetSub => Data::Null,
        OpCodeIdentity::CallMach
        | OpCodeIdentity::JumpAddr
        | OpCodeIdentity::CallSub
        | OpCodeIdentity::SetAddrRegC
        | OpCodeIdentity::JumpAddrCR => Data::NNN(address(word)),
        OpCodeIdentity::SkipEqRC
        | OpCodeIdentity::SkipNqRC
        | OpCodeIdentity::SetRC
        | OpCodeIdentity::AddNcRC
        | OpCodeIdentity::RandRC => Data::XNN(nibble2(word), low_byte(word)),
        OpCodeIdentity::DrawDispRRC => Data::XYN(nibble2(word), nibble3(word), nibble4(word)),
        OpCodeIdentity::SkipEqRR
        | OpCodeIdentity::SetRR
        | OpCodeIdentity::OrRR
        | OpCodeIdentity::AndRR
        | OpCodeIdentity::XorRR
        | OpCodeIdentity::AddRR
        | OpCodeIdentity::SubRRR
        | OpCodeIdentity::SubLRR
        | OpCodeIdentity::SkipNqRR => Data::XY(nibble2(word), nibble3(word)),
        OpCodeIdentity::RshiftR
        | OpCodeIdentity::LshiftR
        | OpCodeIdentity::SkipKeyPressedR
        | OpCodeIdentity::SkipNKeyPressedR
        | OpCodeIdentity::GetDelayR
        | OpCodeIdentity::AwaitGetKeyDownR
        | OpCodeIdentity::SetDelayR
        | OpCodeIdentity::SetSoundR
        | OpCodeIdentity::AddAddrRegR
        | OpCodeIdentity::SetAddrRegSpriteR
        | OpCodeIdentity::SetBcdR
        | OpCodeIdentity::DumpRegsToMemR
        | OpCodeIdentity::LoadRegsFromMemR => Data::X(nibble2(word)),
    }
}

/// The masks and shifts that cut a word into its fields compute the
/// quotients and remainders above.
pub proof fn lemma_fields_by_mask(word: u16)
    by (bit_vector)
    ensures
        (word & 0xf000) >> 12 == word / 0x1000,
        (word & 0x0f00) >> 8 == word / 0x100 % 0x10,
        (word & 0x00f0) >> 4 == word / 0x10 % 0x10,
        word & 0x000f == word % 0x10,
        word & 0x00ff == word % 0x100,
        word & 0x0fff == word % 0x1000,
{
}

impl Data {
    /// Every register is one of the sixteen, an address has twelve bits and a
    /// sprite height four.
    pub open spec fn in_range(self) -> bool {
        match self {
            Data::NNN(address) => address <= 0xfff,
            Data::XNN(x, _) => x <= 0xf,
            Data::XYN(x, y, n) => x <= 0xf && y <= 0xf && n <= 0xf,
            Data::XY(x, y) => x <= 0xf && y <= 0xf,
            Data::X(x) => x <= 0xf,
            Data::Null => true,
        }
    }

    /// The address in `data`.
    pub fn nnn(data: u16) -> (d: Data)
        ensures
            d == Data::NNN(address(data)),
    {
        proof {
            lemma_fields_by_mask(data);
        }
        Data::NNN(data & 0x0FFF)
    }

    /// The first register and the constant in `data`.
    pub fn xnn(data: u16) -> (d: Data)
        ensures
            d == Data::XNN(nibble2(data), low_byte(data)),
    {
        proof {
            lemma_fields_by_mask(data);
        }
        Data::XNN(((data & 0x0F00) >> 8) as u8, (data & 0x00FF) as u8)
    }

    /// The two registers and the height in `data`.
    pub fn xyn(data: u16) -> (d: Data)
        ensures
            d == Data::XYN(nibble2(data), nibble3(data), nibble4(data)),
    {
        proof {
            lemma_fields_by_mask(data);
        }
        Data::XYN(
            ((data & 0x0F00) >> 8) as u8,
            ((data & 0x00F0) >> 4) as u8,
            (data & 0x000F) as u8,
        )
    }

    /// The two registers in `data`.
    pub fn xy(data: u16) -> (d: Data)
        ensures
            d == Data::XY(nibble2(data), nibble3(data)),
    {
        proof {
            lemma_fields_by_mask(data);
        }
        Data::XY(((data & 0x0F00) >> 8) as u8, ((data & 0x00F0) >> 4) as u8)
    }

    /// The first register in `data`.
    pub fn x(data: u16) -> (d: Data)
        ensures
            d == Data::X(nibble2(data)),
    {
        proof {
            lemma_fields_by_mask(data);
        }
        Data::X(((data & 0x0F00) >> 8) as u8)
    }

    /// No operand.
    pub fn null() -> (d: Data)
        ensures
            d == Data::Null,
    {
        Data::Null
    }
}

impl OpCode {
    /// The operands of this instruction, read from its word in the shape that
    /// its identity asks for.
    pub fn get_data(&self) -> (d: Data)
        ensures
            d == operands(self.oc_id, self.op_code),
            d.in_range(),
    {
        match self.oc_id {
            OpCodeIdentity::ClrDisp | OpCodeIdentity::RetSub => Data::null(),
            OpCodeIdentity::CallMach
            | OpCodeIdentity::JumpAddr
            | OpCodeIdentity::CallSub
            | OpCodeIdentity::SetAddrRegC
            | OpCodeIdentity::JumpAddrCR => Data::nnn(self.op_code),
            OpCodeIdentity::SkipEqRC
            | OpCodeIdentity::SkipNqRC
            | OpCodeIdentity::SetRC
            | OpCodeIdentity::AddNcRC
            | OpCodeIdentity::RandRC => Data::xnn(self.op_code),
            OpCodeIdentity::DrawDispRRC => Data::xyn(self.op_code),
            OpCodeIdentity::SkipEqRR
            | OpCodeIdentity::SetRR
            | OpCodeIdentity::OrRR
            | OpCodeIdentity::AndRR
            | OpCodeIdentity::XorRR
            | OpCodeIdentity::AddRR
            | OpCodeIdentity::SubRRR
            | OpCodeIdentity::SubLRR
            | OpCodeIdentity::SkipNqRR => Data::xy(self.op_code),
            OpCodeIdentity::RshiftR
            | OpCodeIdentity::LshiftR
            | OpCodeIdentity::SkipKeyPressedR
            | OpCodeIdentity::SkipNKeyPressedR
            | OpCodeIdentity::GetDelayR
            | OpCodeIdentity::AwaitGetKeyDownR
            | OpCodeIdentity::SetDelayR
            | OpCodeIdentity::SetSoundR
            | OpCodeIdentity::AddAddrRegR
            | OpCodeIdentity::SetAddrRegSpriteR
            | OpCodeIdentity::SetBcdR
            | OpCodeIdentity::DumpRegsToMemR
            | OpCodeIdentity::LoadRegsFromMemR => Data::x(self.op_code),
        }
    }
}

/// Whatever the identity and the word, the operands read from it are in
/// range: a register index is at most 15, an address at most `0xFFF`.
pub proof fn lemma_operands_in_range(id: OpCodeIdentity, word: u16)
    ensures
        operands(id, word).in_range(),
{
}

} // verus!
