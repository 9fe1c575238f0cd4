use vstd::prelude::*;

verus! {

/// The operation that an instruction word selects. The operands stay in the
/// word; each operation reads the fields it needs from it.
#[derive(Clone, Copy, Debug, PartialEq, Eq, Structural)]
pub enum Instruction {
    Cls,
    Ret,
    Jmp,
    Call,
    SeByte,
    SneByte,
    SeRegister,
    LdByte,
    AddByte,
    LdRegister,
    Or,
    And,
    Xor,
    AddRegisters,
    SubRegisters,
    Shr,
    SubnRegisters,
    Shl,
    SneRegister,
    LdI,
    JmpV0,
    Rand,
    Draw,
    SkipKeyPressed,
    SkipKeyNotPressed,
    LdDelayTimer,
    LdKeyPress,
    SetDelayTimer,
    SetSoundTimer,
    AddIndexRegister,
    LdSprite,
    LdBcd,
    LdRegistersIntoIndexRegister,
    ReadIndexRegisterIntoRegisters,
}

/// Why an instruction word could not be decoded.
#[derive(Clone, Copy, Debug, PartialEq, Eq, Structural)]
pub enum DecodeError {
    /// No operation is assigned to the word.
    UnknownOpcode,
}

/// Bits 15 to 12 of the word: the instruction family.
pub open spec fn family(word: u16) -> u16 {
    (word & 0xF000) >> 12
}

/// Bits 11 to 8 of the word: the index of register `Vx`.
pub open spec fn field_x(word: u16) -> u16 {
    (word & 0x0F00) >> 8
}

/// Bits 7 to 4 of the word: the index of register `Vy`.
pub open spec fn field_y(word: u16) -> u16 {
    (word & 0x00F0) >> 4
}

/// Bits 3 to 0 of the word.
pub open spec fn field_n(word: u16) -> u16 {
    word & 0x000F
}

/// The low byte of the word: an immediate operand.
pub open spec fn field_kk(word: u16) -> u16 {
    word & 0x00FF
}

/// The low twelve bits of the word: an address.
pub open spec fn field_nnn(word: u16) -> u16 {
    word & 0x0FFF
}

/// The four nibbles and the wider fields are the digits of the word in base
/// sixteen: the word is rebuilt from them, and each stays in its range.
pub proof fn lemma_fields(word: u16)
    ensures
        family(word) < 16,
        field_x(word) < 16,
        field_y(word) < 16,
        field_n(word) < 16,
        field_kk(word) < 256,
        field_nnn(word) < 4096,
        word == family(word) * 4096 + field_x(word) * 256 + field_y(word) * 16 + field_n(word),
        field_kk(word) == field_y(word) * 16 + field_n(word),
        field_nnn(word) == field_x(word) * 256 + field_kk(word),
{
    assert(((word & 0xF000) >> 12) < 16 && ((word & 0x0F00) >> 8) < 16 && ((word & 0x00F0) >> 4)
        < 16 && (word & 0x000F) < 16 && (word & 0x00FF) < 256 && (word & 0x0FFF) < 4096)
        by (bit_vector);
    assert(word == ((word & 0xF000) >> 12) * 4096 + ((word & 0x0F00) >> 8) * 256 + ((word
        & 0x00F0) >> 4) * 16 + (word & 0x000F)) by (bit_vector);
    assert((word & 0x00FF) == ((word & 0x00F0) >> 4) * 16 + (word & 0x000F)) by (bit_vector);
    assert((word & 0x0FFF) == ((word & 0x0F00) >> 8) * 256 + (word & 0x00FF)) by (bit_vector);
}

/// The operation of family 0, chosen by the lowest nibble.
pub open spec fn decode_family_0(word: u16) -> Option<Instruction> {
    let n = field_n(word);
    if n == 0x0 {
        Some(Instruction::Cls)
    } else if n == 0xE {
        Some(Instruction::Ret)
    } else {
        None
    }
}

/// The operation of family 8, chosen by the lowest nibble.
pub open spec fn decode_family_8(word: u16) -> Option<Instruction> {
    let n = field_n(word);
    if n == 0x0 {
        Some(Instruction::LdRegister)
    } else if n == 0x1 {
        Some(Instruction::Or)
    } else if n == 0x2 {
        Some(Instruction::And)
    } else if n == 0x3 {
        Some(Instruction::Xor)
    } else if n == 0x4 {
        Some(Instruction::AddRegisters)
    } else if n == 0x5 {
        Some(Instruction::SubRegisters)
    } else if n == 0x6 {
        Some(Instruction::Shr)
    } else if n == 0x7 {
        Some(Instruction::SubnRegisters)
    } else if n == 0xE {
        Some(Instruction::Shl)
    } else {
        None
    }
}

/// The operation of family E, chosen by the low byte.
pub open spec fn decode_family_e(word: u16) -> Option<Instruction> {
    let kk = field_kk(word);
    if kk == 0x9E {
        Some(Instruction::SkipKeyPressed)
    } else if kk == 0xA1 {
        Some(Instruction::SkipKeyNotPressed)
    } else {
        None
    }
}

/// The operation of family F, chosen by the low byte.
pub open spec fn decode_family_f(word: u16) -> Option<Instruction> {
    let kk = field_kk(word);
    if kk == 0x07 {
        Some(Instruction::LdDelayTimer)
    } else if kk == 0x0A {
        Some(Instruction::LdKeyPress)
    } else if kk == 0x15 {
        Some(Instruction::SetDelayTimer)
    } else if kk == 0x18 {
        Some(Instruction::SetSoundTimer)
    } else if kk == 0x1E {
        Some(Instruction::AddIndexRegister)
    } else if kk == 0x29 {
        Some(Instruction::LdSprite)
    } else if kk == 0x33 {
        Some(Instruction::LdBcd)
    } else if kk == 0x55 {
        Some(Instruction::LdRegistersIntoIndexRegister)
    } else if kk == 0x65 {
        Some(Instruction::ReadIndexRegisterIntoRegisters)
    } else {
        None
    }
}

/// The operation that a word selects, or `None` where no operation is
/// assigned to it. The family nibble decides; families 0, 8, E and F look
/// at the low end of the word as well.
pub open spec fn decode(word: u16) -> Option<Instruction> {
    let f = family(word);
    if f == 0x0 {
        decode_family_0(word)
    } else if f == 0x1 {
        Some(Instruction::Jmp)
    } else if f == 0x2 {
        Some(Instruction::Call)
    } else if f == 0x3 {
        Some(Instruction::SeByte)
    } else if f == 0x4 {
        Some(Instruction::SneByte)
    } else if f == 0x5 {
        Some(Instruction::SeRegister)
    } else if f == 0x6 {
        Some(Instruction::LdByte)
    } else if f == 0x7 {
        Some(Instruction::AddByte)
    } else if f == 0x8 {
        decode_family_8(word)
    } else if f == 0x9 {
        Some(Instruction::SneRegister)
    } else if f == 0xA {
        Some(Instruction::LdI)
    } else if f == 0xB {
        Some(Instruction::JmpV0)
    } else if f == 0xC {
        Some(Instruction::Rand)
    } else if f == 0xD {
        Some(Instruction::Draw)
    } else if f == 0xE {
        decode_family_e(word)
    } else {
        decode_family_f(word)
    }
}

/// What the decoder answers for `decoded`: the operation, or the error
/// where there is none.
pub open spec fn unknown_if_none(decoded: Option<Instruction>) -> Result<Instruction, DecodeError> {
    match decoded {
        Some(instruction) => Ok(instruction),
        None => Err(DecodeError::UnknownOpcode),
    }
}

/// The family nibble, bits 15 to 12 of the word.
pub fn operand_family(opcode: u16) -> (f: u16)
    ensures
        f == family(opcode),
        f < 16,
{
    assert(((opcode & 0xF000) >> 12) < 16) by (bit_vector);
    (opcode & 0xF000) >> 12
}

/// Index of register `Vx`, read from bits 11 to 8 of the word.
pub fn operand_x(opcode: u16) -> (x: usize)
    ensures
        x == field_x(opcode),
        x < 16,
{
    assert(((opcode & 0x0F00) >> 8) < 16) by (bit_vector);
    ((opcode & 0x0F00) >> 8) as usize
}

/// Index of register `Vy`, read from bits 7 to 4 of the word.
pub fn operand_y(opcode: u16) -> (y: usize)
    ensures
        y == field_y(opcode),
        y < 16,
{
    assert(((opcode & 0x00F0) >> 4) < 16) by (bit_vector);
    ((opcode & 0x00F0) >> 4) as usize
}

/// The lowest nibble of the word.
pub fn operand_n(opcode: u16) -> (n: usize)
    ensures
        n == field_n(opcode),
        n < 16,
{
    assert((opcode & 0x000F) < 16) by (bit_vector);
    (opcode & 0x000F) as usize
}

/// The low byte of the word.
pub fn operand_kk(opcode: u16) -> (kk: u8)
    ensures
        kk == field_kk(opcode),
{
    assert((opcode & 0x00FF) < 256) by (bit_vector);
    (opcode & 0x00FF) as u8
}

/// The low twelve bits of the word.
pub fn operand_nnn(opcode: u16) -> (nnn: u16)
    ensures
        nnn == field_nnn(opcode),
        nnn < 4096,
{
    assert((opcode & 0x0FFF) < 4096) by (bit_vector);
    opcode & 0x0FFF
}

/// Picks the operation of a word of family 0 by its lowest nibble.
pub fn select_00e_instruction(opcode: u16) -> (result: Result<Instruction, DecodeError>)
    ensures
        result == unknown_if_none(decode_family_0(opcode)),
{
    let last_digit = operand_n(opcode);
    match last_digit {
        0x0 => Ok(Instruction::Cls),
        0xE => Ok(Instruction::Ret),
        _ => Err(DecodeError::UnknownOpcode),
    }
}

/// Picks the operation of a word of family 8 by its lowest nibble.
pub fn select_8_instruction(opcode: u16) -> (result: Result<Instruction, DecodeError>)
    ensures
        result == unknown_if_none(decode_family_8(opcode)),
{
    let last_digit = operand_n(opcode);
    match last_digit {
        0x0 => Ok(Instruction::LdRegister),
        0x1 => Ok(Instruction::Or),
        0x2 => Ok(Instruction::And),
        0x3 => Ok(Instruction::Xor),
        0x4 => Ok(Instruction::AddRegisters),
        0x5 => Ok(Instruction::SubRegisters),
        0x6 => Ok(Instruction::Shr),
        0x7 => Ok(Instruction::SubnRegisters),
        0xE => Ok(Instruction::Shl),
        _ => Err(DecodeError::UnknownOpcode),
    }
}

/// Picks the operation of a word of family E by its low byte.
pub fn select_e_instruction(opcode: u16) -> (result: Result<Instruction, DecodeError>)
    ensures
        result == unknown_if_none(decode_family_e(opcode)),
{
    let last_two_digits = operand_kk(opcode);
    match last_two_digits {
        0x9E => Ok(Instruction::SkipKeyPressed),
        0xA1 => Ok(Instruction::SkipKeyNotPressed),
        _ => Err(DecodeError::UnknownOpcode),
    }
}

/// Picks the operation of a word of family F by its low byte.
pub fn select_f_instruction(opcode: u16) -> (result: Result<Instruction, DecodeError>)
    ensures
        result == unknown_if_none(decode_family_f(opcode)),
{
    let last_two_digits = operand_kk(opcode);
    match last_two_digits {
        0x07 => Ok(Instruction::LdDelayTimer),
        0x0A => Ok(Instruction::LdKeyPress),
        0x15 => Ok(Instruction::SetDelayTimer),
        0x18 => Ok(Instruction::SetSoundTimer),
        0x1E => Ok(Instruction::AddIndexRegister),
        0x29 => Ok(Instruction::LdSprite),
        0x33 => Ok(Instruction::LdBcd),
        0x55 => Ok(Instruction::LdRegistersIntoIndexRegister),
        0x65 => Ok(Instruction::ReadIndexRegisterIntoRegisters),
        _ => Err(DecodeError::UnknownOpcode),
    }
}

/// Decodes an instruction word: gives the operation that the word
/// selects, or `UnknownOpcode` where no operation is assigned to it.
pub fn select_instruction(opcode: u16) -> (result: Result<Instruction, DecodeError>)
    ensures
        result == unknown_if_none(decode(opcode)),
{
    let first_digit = operand_family(opcode);
    match first_digit {
        0x0 => select_00e_instruction(opcode),
        0x1 => Ok(Instruction::Jmp),
        0x2 => Ok(Instruction::Call),
        0x3 => Ok(Instruction::SeByte),
        0x4 => Ok(Instruction::SneByte),
        0x5 => Ok(Instruction::SeRegister),
        0x6 => Ok(Instruction::LdByte),
        0x7 => Ok(Instruction::AddByte),
        0x8 => select_8_instruction(opcode),
        0x9 => Ok(Instruction::SneRegister),
        0xA => Ok(Instruction::LdI),
        0xB => Ok(Instruction::JmpV0),
        0xC => Ok(Instruction::Rand),
        0xD => Ok(Instruction::Draw),
        0xE => select_e_instruction(opcode),
        0xF => select_f_instruction(opcode),
        _ => Err(DecodeError::UnknownOpcode),
    }
}

} // verus!
