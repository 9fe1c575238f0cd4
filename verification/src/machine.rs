use crate::constants::{FONT_SET, FONT_SET_SIZE, FONT_SET_START_ADDRESS, PROGRAM_START_ADDRESS};
use crate::opcode::{decode, field_kk, field_n, field_nnn, field_x, field_y, Instruction};
use crate::utils::bit_of;
use vstd::prelude::*;

verus! {

/// Number of general-purpose registers.
pub const REGISTER_COUNT: usize = 16;

/// Number of bytes of addressable memory.
pub const MEMORY_SIZE: usize = 4096;

/// Number of return addresses that the call stack holds.
pub const STACK_SIZE: usize = 16;

/// Number of keys on the keypad.
pub const KEY_COUNT: usize = 16;

/// Number of pixel rows of the display.
pub const DISPLAY_HEIGHT: usize = 32;

/// Number of pixel columns of the display.
pub const DISPLAY_WIDTH: usize = 64;

/// The largest number of instruction words that fit between the program
/// start address and the end of memory.
pub const MAX_PROGRAM_WORDS: usize = 1792;

/// The value `v` reduced to eight bits.
pub open spec fn wrap8(v: int) -> u8 {
    (v % 256) as u8
}

/// The value `v` reduced to sixteen bits.
pub open spec fn wrap16(v: int) -> u16 {
    (v % 65536) as u16
}

/// The architectural state of the machine as mathematical values. A lit
/// pixel is `true`; `display[r][c]` is the pixel in row `r`, column `c`.
#[verifier::ext_equal]
pub struct Machine {
    pub registers: Seq<u8>,
    pub memory: Seq<u8>,
    pub index_register: u16,
    pub pc: u16,
    pub stack: Seq<u16>,
    pub sp: u8,
    pub delay_timer: u8,
    pub sound_timer: u8,
    pub keypad: Seq<u8>,
    pub display: Seq<Seq<bool>>,
}

/// The index of the first key at or after `start` that is held down, or 16
/// where there is none.
pub open spec fn first_pressed_from(keypad: Seq<u8>, start: int) -> int
    decreases 16 - start,
{
    if start >= 16 {
        16
    } else if keypad[start] != 0 {
        start
    } else {
        first_pressed_from(keypad, start + 1)
    }
}

impl Machine {
    /// The shape that every machine state has: sixteen registers, 4096
    /// bytes of memory, sixteen stack slots of which at most sixteen are in
    /// use, sixteen keys, and 32 rows of 64 pixels.
    pub open spec fn wf(self) -> bool {
        &&& self.registers.len() == 16
        &&& self.memory.len() == 4096
        &&& self.stack.len() == 16
        &&& self.sp <= 16
        &&& self.keypad.len() == 16
        &&& self.display.len() == 32
        &&& forall|r: int| 0 <= r < 32 ==> (#[trigger] self.display[r]).len() == 64
    }

    /// The value of register `Vx` for the instruction word `w`.
    pub open spec fn vx(self, w: u16) -> u8 {
        self.registers[field_x(w) as int]
    }

    /// The value of register `Vy` for the instruction word `w`.
    pub open spec fn vy(self, w: u16) -> u8 {
        self.registers[field_y(w) as int]
    }

    /// The state with the program counter moved past the next instruction
    /// where `skip` holds, and unchanged where it does not.
    pub open spec fn skip_if(self, skip: bool) -> Machine {
        Machine { pc: if skip { wrap16(self.pc + 2) } else { self.pc }, ..self }
    }

    /// The state with `flag` in register VF and then `value` in register
    /// `Vx`: where `Vx` is VF itself, `value` is what remains.
    pub open spec fn with_flag_and_vx(self, w: u16, flag: u8, value: u8) -> Machine {
        Machine {
            registers: self.registers.update(0xF, flag).update(field_x(w) as int, value),
            ..self
        }
    }

    /// The state with `value` in register `Vx`.
    pub open spec fn with_vx(self, w: u16, value: u8) -> Machine {
        Machine { registers: self.registers.update(field_x(w) as int, value), ..self }
    }

    /// `00E0`: every pixel dark.
    pub open spec fn cls(self) -> Machine {
        Machine { display: Seq::new(32, |r: int| Seq::new(64, |c: int| false)), ..self }
    }

    /// `00EE`: the top return address popped into the program counter.
    pub open spec fn ret(self) -> Machine {
        Machine { sp: (self.sp - 1) as u8, pc: self.stack[self.sp - 1], ..self }
    }

    /// `1nnn`: the program counter at `nnn`.
    pub open spec fn jmp(self, w: u16) -> Machine {
        Machine { pc: field_nnn(w), ..self }
    }

    /// `2nnn`: the program counter pushed, then set to `nnn`.
    pub open spec fn call(self, w: u16) -> Machine {
        Machine {
            stack: self.stack.update(self.sp as int, self.pc),
            sp: (self.sp + 1) as u8,
            pc: field_nnn(w),
            ..self
        }
    }

    /// `3xkk`: skip the next instruction where `Vx == kk`.
    pub open spec fn se_byte(self, w: u16) -> Machine {
        self.skip_if(self.vx(w) == field_kk(w))
    }

    /// `4xkk`: skip the next instruction where `Vx != kk`.
    pub open spec fn sne_byte(self, w: u16) -> Machine {
        self.skip_if(self.vx(w) != field_kk(w))
    }

    /// `5xy0`: skip the next instruction where `Vx == Vy`.
    pub open spec fn se_register(self, w: u16) -> Machine {
        self.skip_if(self.vx(w) == self.vy(w))
    }

    /// `6xkk`: `kk` in `Vx`.
    pub open spec fn ld_byte(self, w: u16) -> Machine {
        self.with_vx(w, field_kk(w) as u8)
    }

    /// `7xkk`: `Vx + kk`, reduced to eight bits, in `Vx`; no flag changes.
    pub open spec fn add_byte(self, w: u16) -> Machine {
        self.with_vx(w, wrap8(self.vx(w) + field_kk(w)))
    }

    /// `8xy0`: `Vy` in `Vx`.
    pub open spec fn ld_register(self, w: u16) -> Machine {
        self.with_vx(w, self.vy(w))
    }

    /// `8xy1`: `Vx | Vy` in `Vx`.
    pub open spec fn or(self, w: u16) -> Machine {
        self.with_vx(w, self.vx(w) | self.vy(w))
    }

    /// `8xy2`: `Vx & Vy` in `Vx`.
    pub open spec fn and(self, w: u16) -> Machine {
        self.with_vx(w, self.vx(w) & self.vy(w))
    }

    /// `8xy3`: `Vx ^ Vy` in `Vx`.
    pub open spec fn xor(self, w: u16) -> Machine {
        self.with_vx(w, self.vx(w) ^ self.vy(w))
    }

    /// `8xy4`: VF is 1 where `Vx + Vy` exceeds eight bits and 0 where it
    /// does not; then the sum, reduced to eight bits, in `Vx`.
    pub open spec fn add_registers(self, w: u16) -> Machine {
        let sum = self.vx(w) + self.vy(w);
        self.with_flag_and_vx(w, if sum > 255 { 1u8 } else { 0u8 }, wrap8(sum))
    }

    /// `8xy5`: VF is 1 where `Vx > Vy` and 0 where it is not; then
    /// `Vx - Vy`, reduced to eight bits, in `Vx`.
    pub open spec fn sub_registers(self, w: u16) -> Machine {
        self.with_flag_and_vx(
            w,
            if self.vx(w) > self.vy(w) { 1u8 } else { 0u8 },
            wrap8(self.vx(w) - self.vy(w)),
        )
    }

    /// `8xy6`: VF is the lowest bit of `Vy`; then `Vy` shifted right by one
    /// in `Vx`.
    pub open spec fn shr(self, w: u16) -> Machine {
        self.with_flag_and_vx(w, self.vy(w) & 1, self.vy(w) >> 1)
    }

    /// `8xy7`: VF is 1 where `Vy > Vx` and 0 where it is not; then
    /// `Vy - Vx`, reduced to eight bits, in `Vx`.
    pub open spec fn subn_registers(self, w: u16) -> Machine {
        self.with_flag_and_vx(
            w,
            if self.vy(w) > self.vx(w) { 1u8 } else { 0u8 },
            wrap8(self.vy(w) - self.vx(w)),
        )
    }

    /// `8xyE`: VF is the highest bit of `Vy`; then `Vy` shifted left by one,
    /// reduced to eight bits, in `Vx`.
    pub open spec fn shl(self, w: u16) -> Machine {
        self.with_flag_and_vx(w, (self.vy(w) & 0x80) >> 7, self.vy(w) << 1)
    }

    /// `9xy0`: skip the next instruction where `Vx != Vy`.
    pub open spec fn sne_register(self, w: u16) -> Machine {
        self.skip_if(self.vx(w) != self.vy(w))
    }

    /// `Annn`: `nnn` in the index register.
    pub open spec fn ld_i(self, w: u16) -> Machine {
        Machine { index_register: field_nnn(w), ..self }
    }

    /// `Bnnn`: the program counter at `nnn + V0`.
    pub open spec fn jmp_v0(self, w: u16) -> Machine {
        Machine { pc: (field_nnn(w) + self.registers[0]) as u16, ..self }
    }

    /// `Cxkk`: `random & kk` in `Vx`, for the byte `random` that the
    /// generator gave.
    pub open spec fn rand(self, w: u16, random: u8) -> Machine {
        self.with_vx(w, random & (field_kk(w) as u8))
    }

    /// Whether the sprite at the index register has a set bit in row `i`,
    /// column `j`; column 0 is the most significant bit of the row's byte.
    pub open spec fn sprite_bit(self, i: int, j: int) -> bool {
        bit_of(self.memory[self.index_register + i], j) == 1
    }

    /// Whether the sprite of `n` rows, drawn with its top left corner at
    /// column `x` and row `y`, has a set bit that lands on the pixel in row
    /// `r`, column `c`. Rows wrap after 32 and columns after 64, so the row
    /// of the sprite that reaches `r` is `r - y` modulo 32, and likewise for
    /// the column.
    pub open spec fn sprite_covers(self, x: int, y: int, n: int, r: int, c: int) -> bool {
        let i = (r - y) % 32;
        let j = (c - x) % 64;
        i < n && j < 8 && self.sprite_bit(i, j)
    }

    /// Whether bit (`i`, `j`) of the sprite is set and lands on a lit pixel.
    pub open spec fn sprite_hits(self, x: int, y: int, i: int, j: int) -> bool {
        self.sprite_bit(i, j) && self.display[(y + i) % 32][(x + j) % 64]
    }

    /// Whether any set bit of the sprite of `n` rows lands on a lit pixel.
    pub open spec fn sprite_collides(self, x: int, y: int, n: int) -> bool {
        exists|i: int, j: int|
            0 <= i < n && 0 <= j < 8 && #[trigger] self.sprite_hits(x, y, i, j)
    }

    /// `Dxyn`: the sprite of `n` rows at the index register combined into
    /// the display by exclusive or, with its top left corner at column `Vx`
    /// and row `Vy`, wrapping at the edges; VF is 1 where a lit pixel went
    /// dark and 0 where none did.
    pub open spec fn draw(self, w: u16) -> Machine {
        let x = self.vx(w) as int;
        let y = self.vy(w) as int;
        let n = field_n(w) as int;
        Machine {
            display: Seq::new(
                32,
                |r: int|
                    Seq::new(
                        64,
                        |c: int| self.display[r][c] != self.sprite_covers(x, y, n, r, c),
                    ),
            ),
            registers: self.registers.update(
                0xF,
                if self.sprite_collides(x, y, n) { 1u8 } else { 0u8 },
            ),
            ..self
        }
    }

    /// `Ex9E`: skip the next instruction where key `Vx` is held down.
    pub open spec fn skip_key_pressed(self, w: u16) -> Machine {
        self.skip_if(self.keypad[self.vx(w) as int] == 1)
    }

    /// `ExA1`: skip the next instruction where key `Vx` is up.
    pub open spec fn skip_key_not_pressed(self, w: u16) -> Machine {
        self.skip_if(self.keypad[self.vx(w) as int] == 0)
    }

    /// `Fx07`: the delay timer in `Vx`.
    pub open spec fn ld_delay_timer(self, w: u16) -> Machine {
        self.with_vx(w, self.delay_timer)
    }

    /// `Fx0A`: the index of the first key held down in `Vx`; where no key
    /// is down, the program counter moved back by two instead, so that the
    /// same instruction is fetched again.
    pub open spec fn ld_key_press(self, w: u16) -> Machine {
        let key = first_pressed_from(self.keypad, 0);
        if key < 16 {
            self.with_vx(w, key as u8)
        } else {
            Machine { pc: wrap16(self.pc - 2), ..self }
        }
    }

    /// `Fx15`: `Vx` in the delay timer.
    pub open spec fn set_delay_timer(self, w: u16) -> Machine {
        Machine { delay_timer: self.vx(w), ..self }
    }

    /// `Fx18`: `Vx` in the sound timer.
    pub open spec fn set_sound_timer(self, w: u16) -> Machine {
        Machine { sound_timer: self.vx(w), ..self }
    }

    /// `Fx1E`: the index register raised by `Vx`, reduced to sixteen bits.
    pub open spec fn add_index_register(self, w: u16) -> Machine {
        Machine { index_register: wrap16(self.index_register + self.vx(w)), ..self }
    }

    /// `Fx29`: the address of the font glyph for `Vx` in the index register:
    /// five bytes per glyph from the start of the font.
    pub open spec fn ld_sprite(self, w: u16) -> Machine {
        Machine { index_register: (FONT_SET_START_ADDRESS + self.vx(w) * 5) as u16, ..self }
    }

    /// `Fx33`: the decimal digits of `Vx` in memory at the index register:
    /// hundreds, then tens, then ones.
    pub open spec fn ld_bcd(self, w: u16) -> Machine {
        let v = self.vx(w);
        let i = self.index_register as int;
        Machine {
            memory: self.memory.update(i, v / 100).update(i + 1, (v / 10) % 10).update(
                i + 2,
                v % 10,
            ),
            ..self
        }
    }

    /// `Fx55`: registers `V0` to `Vx` copied to memory at the index
    /// register, which then moves past them.
    pub open spec fn ld_registers_into_index_register(self, w: u16) -> Machine {
        let x = field_x(w) as int;
        let i = self.index_register as int;
        Machine {
            memory: Seq::new(
                4096,
                |a: int| if i <= a <= i + x { self.registers[a - i] } else { self.memory[a] },
            ),
            index_register: (i + x + 1) as u16,
            ..self
        }
    }

    /// `Fx65`: memory at the index register copied into registers `V0` to
    /// `Vx`; the index register then moves past what was read.
    pub open spec fn read_index_register_into_registers(self, w: u16) -> Machine {
        let x = field_x(w) as int;
        let i = self.index_register as int;
        Machine {
            registers: Seq::new(
                16,
                |k: int| if k <= x { self.memory[i + k] } else { self.registers[k] },
            ),
            index_register: (i + x + 1) as u16,
            ..self
        }
    }

    /// Whether `instruction` with the operands of `w` is defined in this
    /// state: the stack neither underflows nor overflows, a key index is a
    /// key, and every memory access stays below the end of memory.
    pub open spec fn can_execute(self, instruction: Instruction, w: u16) -> bool {
        match instruction {
            Instruction::Ret => self.sp >= 1,
            Instruction::Call => self.sp < 16,
            Instruction::Draw => field_n(w) == 0 || self.index_register + field_n(w) <= 4096,
            Instruction::SkipKeyPressed => self.vx(w) < 16,
            Instruction::SkipKeyNotPressed => self.vx(w) < 16,
            Instruction::LdBcd => self.index_register + 2 < 4096,
            Instruction::LdRegistersIntoIndexRegister => self.index_register + field_x(w) < 4096,
            Instruction::ReadIndexRegisterIntoRegisters => self.index_register + field_x(w)
                < 4096,
            _ => true,
        }
    }

    /// The state after `instruction` with the operands of `w`; `random` is
    /// the byte that the generator gives, which only `Cxkk` reads.
    pub open spec fn execute(self, instruction: Instruction, w: u16, random: u8) -> Machine {
        match instruction {
            Instruction::Cls => self.cls(),
            Instruction::Ret => self.ret(),
            Instruction::Jmp => self.jmp(w),
            Instruction::Call => self.call(w),
            Instruction::SeByte => self.se_byte(w),
            Instruction::SneByte => self.sne_byte(w),
            Instruction::SeRegister => self.se_register(w),
            Instruction::LdByte => self.ld_byte(w),
            Instruction::AddByte => self.add_byte(w),
            Instruction::LdRegister => self.ld_register(w),
            Instruction::Or => self.or(w),
            Instruction::And => self.and(w),
            Instruction::Xor => self.xor(w),
            Instruction::AddRegisters => self.add_registers(w),
            Instruction::SubRegisters => self.sub_registers(w),
            Instruction::Shr => self.shr(w),
            Instruction::SubnRegisters => self.subn_registers(w),
            Instruction::Shl => self.shl(w),
            Instruction::SneRegister => self.sne_register(w),
            Instruction::LdI => self.ld_i(w),
            Instruction::JmpV0 => self.jmp_v0(w),
            Instruction::Rand => self.rand(w, random),
            Instruction::Draw => self.draw(w),
            Instruction::SkipKeyPressed => self.skip_key_pressed(w),
            Instruction::SkipKeyNotPressed => self.skip_key_not_pressed(w),
            Instruction::LdDelayTimer => self.ld_delay_timer(w),
            Instruction::LdKeyPress => self.ld_key_press(w),
            Instruction::SetDelayTimer => self.set_delay_timer(w),
            Instruction::SetSoundTimer => self.set_sound_timer(w),
            Instruction::AddIndexRegister => self.add_index_register(w),
            Instruction::LdSprite => self.ld_sprite(w),
            Instruction::LdBcd => self.ld_bcd(w),
            Instruction::LdRegistersIntoIndexRegister => self.ld_registers_into_index_register(w),
            Instruction::ReadIndexRegisterIntoRegisters => self.read_index_register_into_registers(w),
        }
    }

    /// Whether the word `w` can be handed to the dispatcher in this state:
    /// either no operation is assigned to it, or its operation is defined
    /// here.
    pub open spec fn can_execute_opcode(self, w: u16) -> bool {
        decode(w) matches Some(instruction) ==> self.can_execute(instruction, w)
    }

    /// The instruction word at the program counter: the byte at the
    /// program counter is its low byte, the byte after it its high byte.
    pub open spec fn fetch(self) -> u16 {
        (self.memory[self.pc + 1] * 256 + self.memory[self.pc as int]) as u16
    }

    /// The state with the program counter past the fetched word.
    pub open spec fn advance(self) -> Machine {
        Machine { pc: (self.pc + 2) as u16, ..self }
    }

    /// The state with each timer that is not zero lowered by one.
    pub open spec fn tick(self) -> Machine {
        Machine {
            delay_timer: if self.delay_timer > 0 {
                (self.delay_timer - 1) as u8
            } else {
                0u8
            },
            sound_timer: if self.sound_timer > 0 {
                (self.sound_timer - 1) as u8
            } else {
                0u8
            },
            ..self
        }
    }

    /// Whether one cycle is defined in this state: both bytes of the next
    /// word lie in memory, and the word can be handed to the dispatcher.
    pub open spec fn can_cycle(self) -> bool {
        &&& self.pc + 1 < 4096
        &&& self.can_execute_opcode(self.fetch())
    }

    /// The state after one cycle whose word selects `instruction`: fetch,
    /// move the program counter past the word, execute, then lower the
    /// timers.
    pub open spec fn cycle(self, instruction: Instruction, random: u8) -> Machine {
        self.advance().execute(instruction, self.fetch(), random).tick()
    }

    /// The state with the built-in font in memory.
    pub open spec fn load_fontset(self) -> Machine {
        Machine {
            memory: Seq::new(
                4096,
                |a: int|
                    if FONT_SET_START_ADDRESS <= a < FONT_SET_START_ADDRESS + FONT_SET_SIZE {
                        FONT_SET@[a - FONT_SET_START_ADDRESS]
                    } else {
                        self.memory[a]
                    },
            ),
            ..self
        }
    }

    /// The state with the instruction words `words` in memory from the
    /// program start address on, two bytes per word, the low byte first.
    pub open spec fn load_opcodes_into_memory(self, words: Seq<u16>) -> Machine {
        Machine {
            memory: Seq::new(
                4096,
                |a: int|
                    if PROGRAM_START_ADDRESS <= a < PROGRAM_START_ADDRESS + 2 * words.len() {
                        let k = (a - PROGRAM_START_ADDRESS) / 2;
                        if (a - PROGRAM_START_ADDRESS) % 2 == 0 {
                            (words[k] % 256) as u8
                        } else {
                            (words[k] / 256) as u8
                        }
                    } else {
                        self.memory[a]
                    },
            ),
            ..self
        }
    }
}

/// The state of a machine that was just switched on: everything zero, every
/// pixel dark, the program counter at the program start address.
pub open spec fn blank_machine() -> Machine {
    Machine {
        registers: Seq::new(16, |i: int| 0u8),
        memory: Seq::new(4096, |i: int| 0u8),
        index_register: 0,
        pc: PROGRAM_START_ADDRESS as u16,
        stack: Seq::new(16, |i: int| 0u16),
        sp: 0,
        delay_timer: 0,
        sound_timer: 0,
        keypad: Seq::new(16, |i: int| 0u8),
        display: Seq::new(32, |r: int| Seq::new(64, |c: int| false)),
    }
}

} // verus!
