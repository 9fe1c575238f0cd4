use crate::input::{key_of, keys_after_event, InputEvent};
use crate::machine::{first_pressed_from, Machine};
use crate::program::{
    digits_value, hex_digit, is_separator, is_space, pieces_length, split_words, trimmed,
};
use crate::opcode::{decode, family, field_n, field_x, field_y, lemma_fields, Instruction};
use crate::utils::{bit_of, bits_of};
use vstd::prelude::*;

verus! {

/// The eight values that `bits_of` gives are the binary digits of the
/// byte, most significant first: each is 0 or 1, and weighted by the powers
/// of two from 128 down to 1 they add up to the byte.
pub proof fn lemma_bits_are_binary_digits(byte: u8)
    ensures
        bits_of(byte).len() == 8,
        forall|i: int| 0 <= i < 8 ==> bits_of(byte)[i] == 0 || bits_of(byte)[i] == 1,
        byte == 128 * bits_of(byte)[0] + 64 * bits_of(byte)[1] + 32 * bits_of(byte)[2] + 16
            * bits_of(byte)[3] + 8 * bits_of(byte)[4] + 4 * bits_of(byte)[5] + 2 * bits_of(
            byte,
        )[6] + bits_of(byte)[7],
{
    assert forall|i: int| 0 <= i < 8 implies bits_of(byte)[i] == 0 || bits_of(byte)[i] == 1 by {
        let s = (7 - i) as u8;
        assert((byte >> s) & 1 == 0 || (byte >> s) & 1 == 1) by (bit_vector);
    }
    assert(byte == 128 * ((byte >> 7u8) & 1) + 64 * ((byte >> 6u8) & 1) + 32 * ((byte >> 5u8) & 1)
        + 16 * ((byte >> 4u8) & 1) + 8 * ((byte >> 3u8) & 1) + 4 * ((byte >> 2u8) & 1) + 2 * ((byte
        >> 1u8) & 1) + ((byte >> 0u8) & 1)) by (bit_vector);
    assert(bits_of(byte)[0] == bit_of(byte, 0));
    assert(bits_of(byte)[1] == bit_of(byte, 1));
    assert(bits_of(byte)[2] == bit_of(byte, 2));
    assert(bits_of(byte)[3] == bit_of(byte, 3));
    assert(bits_of(byte)[4] == bit_of(byte, 4));
    assert(bits_of(byte)[5] == bit_of(byte, 5));
    assert(bits_of(byte)[6] == bit_of(byte, 6));
    assert(bits_of(byte)[7] == bit_of(byte, 7));
}

/// Every operation keeps the shape of the state: the stack pointer stays
/// within the sixteen slots, and no register, memory cell, key or pixel is
/// added or lost.
pub proof fn lemma_execute_preserves_wf(m: Machine, instruction: Instruction, w: u16, random: u8)
    requires
        m.wf(),
        m.can_execute(instruction, w),
    ensures
        m.execute(instruction, w, random).wf(),
{
    lemma_fields(w);
}

/// Only `Cxkk` reads the random byte: every other operation gives the same
/// state whatever the byte is.
pub proof fn lemma_random_only_for_rand(
    m: Machine,
    instruction: Instruction,
    w: u16,
    r1: u8,
    r2: u8,
)
    requires
        instruction != Instruction::Rand,
    ensures
        m.execute(instruction, w, r1) == m.execute(instruction, w, r2),
{
}

/// Every word of the families 1 to 7 and 9 to D selects an operation; a
/// word of family 8 does so exactly where its lowest nibble is 0 to 7 or E,
/// and a word of family 0 exactly where it is 0 or E.
pub proof fn lemma_decode_defined(w: u16)
    ensures
        (1 <= family(w) <= 7 || 9 <= family(w) <= 0xD) ==> decode(w) is Some,
        family(w) == 8 ==> (decode(w) is Some <==> (field_n(w) <= 7 || field_n(w) == 0xE)),
        family(w) == 0 ==> (decode(w) is Some <==> (field_n(w) == 0 || field_n(w) == 0xE)),
{
    lemma_fields(w);
}

/// `7xkk` adds modulo 256 and touches no other register, VF included.
pub proof fn lemma_add_byte_wraps(m: Machine, w: u16)
    requires
        m.wf(),
    ensures
        m.add_byte(w).registers[field_x(w) as int] == (m.vx(w) + crate::opcode::field_kk(w)) % 256,
        forall|k: int|
            0 <= k < 16 && k != field_x(w) ==> m.add_byte(w).registers[k] == m.registers[k],
{
    lemma_fields(w);
}

/// `8xy4` loses nothing of the sum: VF holds the carry, so that `Vx` and
/// 256 times VF together are `Vx + Vy` as it was. This is for a target
/// other than VF, which otherwise holds the sum and not the carry.
pub proof fn lemma_add_registers_carry(m: Machine, w: u16)
    requires
        m.wf(),
        field_x(w) != 0xF,
    ensures
        m.add_registers(w).registers[0xF] == if m.vx(w) + m.vy(w) > 255 {
            1int
        } else {
            0int
        },
        m.add_registers(w).registers[field_x(w) as int] + 256 * m.add_registers(w).registers[0xF]
            == m.vx(w) + m.vy(w),
{
    lemma_fields(w);
}

/// `8xy5` sets VF to 1 exactly where `Vx > Vy`, and where VF is 0 the
/// difference has wrapped: `Vx` is then `Vx - Vy + 256`, but for equal
/// operands, where it is 0. For a target other than VF.
pub proof fn lemma_sub_registers_borrow(m: Machine, w: u16)
    requires
        m.wf(),
        field_x(w) != 0xF,
    ensures
        m.sub_registers(w).registers[0xF] == 1 <==> m.vx(w) > m.vy(w),
        m.sub_registers(w).registers[0xF] == 0 <==> m.vx(w) <= m.vy(w),
        m.sub_registers(w).registers[field_x(w) as int] == if m.vx(w) >= m.vy(w) {
            m.vx(w) - m.vy(w)
        } else {
            m.vx(w) - m.vy(w) + 256
        },
{
    lemma_fields(w);
}

/// `8xy7` is `8xy5` with the operands exchanged: VF is 1 exactly where
/// `Vy > Vx`, and `Vx` becomes `Vy - Vx` modulo 256. For a target other
/// than VF.
pub proof fn lemma_subn_registers_borrow(m: Machine, w: u16)
    requires
        m.wf(),
        field_x(w) != 0xF,
    ensures
        m.subn_registers(w).registers[0xF] == 1 <==> m.vy(w) > m.vx(w),
        m.subn_registers(w).registers[0xF] == 0 <==> m.vy(w) <= m.vx(w),
        m.subn_registers(w).registers[field_x(w) as int] == if m.vy(w) >= m.vx(w) {
            m.vy(w) - m.vx(w)
        } else {
            m.vy(w) - m.vx(w) + 256
        },
{
    lemma_fields(w);
}

/// The shifts read `Vy`, not `Vx`: after `8xy6`, twice `Vx` plus VF is
/// `Vy` as it was; after `8xyE`, `Vx` plus 256 times VF is twice `Vy`.
/// What `Vx` held before plays no part. For a target other than VF.
pub proof fn lemma_shifts_read_vy(m: Machine, w: u16)
    requires
        m.wf(),
        field_x(w) != 0xF,
    ensures
        2 * m.shr(w).registers[field_x(w) as int] + m.shr(w).registers[0xF] == m.vy(w),
        m.shr(w).registers[0xF] <= 1,
        m.shl(w).registers[field_x(w) as int] + 256 * m.shl(w).registers[0xF] == 2 * m.vy(w),
        m.shl(w).registers[0xF] <= 1,
{
    lemma_fields(w);
    let v = m.vy(w);
    assert(2 * (v >> 1) + (v & 1) == v && (v & 1) <= 1) by (bit_vector);
    assert((v << 1) + 256 * ((v & 0x80) >> 7) == 2 * v && ((v & 0x80) >> 7) <= 1) by (bit_vector);
}

/// Drawing is an exclusive or that wraps at the edges: bit (`i`, `j`) of
/// the sprite lands on the pixel in row `(Vy + i) mod 32`, column
/// `(Vx + j) mod 64`, and flips it exactly where the bit is set.
pub proof fn lemma_draw_wraps(m: Machine, w: u16, i: int, j: int)
    requires
        m.wf(),
        0 <= i < field_n(w),
        0 <= j < 8,
    ensures
        m.draw(w).display[(m.vy(w) + i) % 32][(m.vx(w) + j) % 64] == (m.display[(m.vy(w) + i)
            % 32][(m.vx(w) + j) % 64] != m.sprite_bit(i, j)),
{
    lemma_fields(w);
    let r = (m.vy(w) + i) % 32;
    let c = (m.vx(w) + j) % 64;
    assert((r - m.vy(w)) % 32 == i);
    assert((c - m.vx(w)) % 64 == j);
}

/// Drawing leaves every pixel alone that no bit of the sprite lands on:
/// a pixel changes only where it is the target of some bit (`i`, `j`) that
/// is set.
pub proof fn lemma_draw_changes_only_targets(m: Machine, w: u16, r: int, c: int)
    requires
        m.wf(),
        0 <= r < 32,
        0 <= c < 64,
        m.draw(w).display[r][c] != m.display[r][c],
    ensures
        exists|i: int, j: int|
            0 <= i < field_n(w) && 0 <= j < 8 && r == (m.vy(w) + i) % 32 && c == (m.vx(w) + j) % 64
                && #[trigger] m.sprite_bit(i, j),
{
    lemma_fields(w);
    let i = (r - m.vy(w)) % 32;
    let j = (c - m.vx(w)) % 64;
    assert(r == (m.vy(w) + i) % 32);
    assert(c == (m.vx(w) + j) % 64);
    assert(m.sprite_bit(i, j));
}

/// VF after a draw is 1 exactly where a set bit of the sprite landed on a
/// lit pixel, and 0 otherwise.
pub proof fn lemma_draw_flag(m: Machine, w: u16)
    requires
        m.wf(),
    ensures
        m.draw(w).registers[0xF] == 1 <==> m.sprite_collides(
            m.vx(w) as int,
            m.vy(w) as int,
            field_n(w) as int,
        ),
        m.draw(w).registers[0xF] == 0 <==> !m.sprite_collides(
            m.vx(w) as int,
            m.vy(w) as int,
            field_n(w) as int,
        ),
        m.draw(w).index_register == m.index_register,
        m.draw(w).memory == m.memory,
{
}

/// Drawing the same sprite twice at the same place gives back the display
/// as it was. Where the first draw met no lit pixel, it sets VF to 0, and
/// the second, where the sprite has a set bit at all, sets VF to 1.
///
/// The coordinates must come from registers other than VF, which the first
/// draw overwrites.
pub proof fn lemma_draw_twice_erases(m: Machine, w: u16)
    requires
        m.wf(),
        field_x(w) != 0xF,
        field_y(w) != 0xF,
    ensures
        m.draw(w).draw(w).display == m.display,
        !m.sprite_collides(m.vx(w) as int, m.vy(w) as int, field_n(w) as int) ==> {
            &&& m.draw(w).registers[0xF] == 0
            &&& (exists|i: int, j: int|
                0 <= i < field_n(w) && 0 <= j < 8 && #[trigger] m.sprite_bit(i, j))
                ==> m.draw(w).draw(w).registers[0xF] == 1
        },
{
    lemma_fields(w);
    let x = m.vx(w) as int;
    let y = m.vy(w) as int;
    let n = field_n(w) as int;
    let m1 = m.draw(w);
    assert(m1.vx(w) == m.vx(w) && m1.vy(w) == m.vy(w));
    assert forall|r: int, c: int| 0 <= r < 32 && 0 <= c < 64 implies m1.sprite_covers(
        x,
        y,
        n,
        r,
        c,
    ) == m.sprite_covers(x, y, n, r, c) by {}
    assert(m1.draw(w).display =~~= m.display);
    if !m.sprite_collides(x, y, n) && exists|i: int, j: int|
        0 <= i < n && 0 <= j < 8 && #[trigger] m.sprite_bit(i, j) {
        let (i, j) = choose|i: int, j: int|
            0 <= i < n && 0 <= j < 8 && #[trigger] m.sprite_bit(i, j);
        lemma_draw_wraps(m, w, i, j);
        assert(!m.sprite_hits(x, y, i, j));
        assert(m1.sprite_hits(x, y, i, j));
    }
}

/// `Fx33` writes the decimal digits of `Vx`: each of the three bytes is
/// at most 9, and as hundreds, tens and ones they make up `Vx`.
pub proof fn lemma_bcd_digits(m: Machine, w: u16)
    requires
        m.wf(),
        m.can_execute(Instruction::LdBcd, w),
    ensures
        ({
            let i = m.index_register as int;
            let after = m.ld_bcd(w).memory;
            &&& after[i] <= 9 && after[i + 1] <= 9 && after[i + 2] <= 9
            &&& 100 * after[i] + 10 * after[i + 1] + after[i + 2] == m.vx(w)
        }),
{
    lemma_fields(w);
}

/// `Fx55` and `Fx65` move `x + 1` registers and then advance the index
/// register by `x + 1`; storing the registers and reading them back from
/// the same address gives the registers as they were.
pub proof fn lemma_store_then_load(m: Machine, w: u16)
    requires
        m.wf(),
        m.can_execute(Instruction::LdRegistersIntoIndexRegister, w),
    ensures
        m.ld_registers_into_index_register(w).index_register == m.index_register + field_x(w) + 1,
        m.read_index_register_into_registers(w).index_register == m.index_register + field_x(w)
            + 1,
        forall|k: int|
            0 <= k <= field_x(w) ==> m.ld_registers_into_index_register(w).memory[m.index_register
                + k] == m.registers[k],
        forall|k: int|
            0 <= k <= field_x(w) ==> m.read_index_register_into_registers(w).registers[k]
                == m.memory[m.index_register + k],
        (Machine {
            index_register: m.index_register,
            ..m.ld_registers_into_index_register(w)
        }).read_index_register_into_registers(w).registers == m.registers,
{
    lemma_fields(w);
    let stored = Machine { index_register: m.index_register, ..m.ld_registers_into_index_register(w) };
    assert(stored.read_index_register_into_registers(w).registers =~= m.registers);
}

/// A cycle moves the program counter past the fetched word before the
/// operation runs, so a jump target is absolute; and after the operation
/// each timer that is not zero has gone down by exactly one. An operation
/// that sets a timer sets it before that.
pub proof fn lemma_cycle_order(m: Machine, instruction: Instruction, random: u8)
    requires
        m.wf(),
        m.can_cycle(),
        decode(m.fetch()) == Some(instruction),
    ensures
        ({
            let executed = m.advance().execute(instruction, m.fetch(), random);
            let after = m.cycle(instruction, random);
            &&& m.advance().pc == m.pc + 2
            &&& after.pc == executed.pc
            &&& after.delay_timer == if executed.delay_timer > 0 {
                executed.delay_timer - 1
            } else {
                0
            }
            &&& after.sound_timer == if executed.sound_timer > 0 {
                executed.sound_timer - 1
            } else {
                0
            }
            &&& instruction != Instruction::SetDelayTimer ==> executed.delay_timer
                == m.delay_timer
            &&& instruction != Instruction::SetSoundTimer ==> executed.sound_timer
                == m.sound_timer
            &&& instruction == Instruction::Jmp ==> after.pc == crate::opcode::field_nnn(m.fetch())
            &&& instruction == Instruction::JmpV0 ==> after.pc == crate::opcode::field_nnn(
                m.fetch(),
            ) + m.registers[0]
        }),
{
    lemma_fields(m.fetch());
}

/// While no key is held down, a cycle on `Fx0A` leaves the registers and
/// the program counter as they were, so the next cycle fetches the same
/// word again.
pub proof fn lemma_wait_key_repeats(m: Machine, random: u8)
    requires
        m.wf(),
        m.pc + 1 < 4096,
        decode(m.fetch()) == Some(Instruction::LdKeyPress),
        forall|k: int| 0 <= k < 16 ==> m.keypad[k] == 0,
    ensures
        m.cycle(Instruction::LdKeyPress, random).registers == m.registers,
        m.cycle(Instruction::LdKeyPress, random).pc == m.pc,
        m.cycle(Instruction::LdKeyPress, random).fetch() == m.fetch(),
        m.advance().ld_key_press(m.fetch()).pc == m.advance().pc - 2,
{
    lemma_no_key_pressed(m.keypad, 0);
}

/// Where no key from `start` on is held down, the search for one finds
/// none.
pub proof fn lemma_no_key_pressed(keypad: Seq<u8>, start: int)
    requires
        0 <= start <= 16,
        forall|k: int| start <= k < 16 ==> keypad[k] == 0,
    ensures
        first_pressed_from(keypad, start) == 16,
    decreases 16 - start,
{
    if start < 16 {
        lemma_no_key_pressed(keypad, start + 1);
    }
}

/// `Fx0A` finds the first key that is held down: the key that it stores is
/// down, and no key before it is.
pub proof fn lemma_first_pressed(keypad: Seq<u8>, start: int)
    requires
        0 <= start <= 16,
    ensures
        start <= first_pressed_from(keypad, start) <= 16,
        first_pressed_from(keypad, start) < 16 ==> keypad[first_pressed_from(keypad, start)] != 0,
        forall|k: int| start <= k < first_pressed_from(keypad, start) ==> keypad[k] == 0,
    decreases 16 - start,
{
    if start < 16 && keypad[start] == 0 {
        lemma_first_pressed(keypad, start + 1);
    }
}

/// What the loader writes, the cycle reads back: with the words `words`
/// loaded, the word fetched at the address of the `k`-th word is
/// `words[k]`.
pub proof fn lemma_load_then_fetch(m: Machine, words: Seq<u16>, k: int)
    requires
        m.wf(),
        words.len() <= 1792,
        0 <= k < words.len(),
    ensures
        (Machine {
            pc: (0x200 + 2 * k) as u16,
            ..m.load_opcodes_into_memory(words)
        }).fetch() == words[k],
        forall|a: int| 0 <= a < 0x200 ==> m.load_opcodes_into_memory(words).memory[a] == m.memory[a],
{
    let loaded = Machine { pc: (0x200 + 2 * k) as u16, ..m.load_opcodes_into_memory(words) };
    let a = 0x200 + 2 * k;
    assert((a - 0x200) / 2 == k && (a - 0x200) % 2 == 0);
    assert((a + 1 - 0x200) / 2 == k && (a + 1 - 0x200) % 2 == 1);
    assert(loaded.memory[a] == (words[k] % 256) as u8);
    assert(loaded.memory[a + 1] == (words[k] / 256) as u8);
}

/// A cycle keeps an even program counter even, whatever operation runs,
/// but for the jumps, the call and the return, whose targets the program
/// chooses.
pub proof fn lemma_cycle_keeps_pc_even(m: Machine, instruction: Instruction, random: u8)
    requires
        m.wf(),
        m.can_cycle(),
        decode(m.fetch()) == Some(instruction),
        m.pc % 2 == 0,
        instruction != Instruction::Jmp,
        instruction != Instruction::JmpV0,
        instruction != Instruction::Call,
        instruction != Instruction::Ret,
    ensures
        m.cycle(instruction, random).pc % 2 == 0,
        m.pc <= m.cycle(instruction, random).pc <= m.pc + 4,
{
    lemma_fields(m.fetch());
    if instruction == Instruction::LdKeyPress {
        lemma_first_pressed(m.keypad, 0);
    }
}

/// The sixteen keys of the keypad each have exactly one key of the
/// keyboard: no two key codes stand for the same key, and every key has a
/// code.
pub proof fn lemma_keys_are_one_to_one(a: i32, b: i32, key: u8)
    ensures
        key_of(a) is Some && key_of(a) == key_of(b) ==> a == b,
        key_of(a) matches Some(k) ==> k < 16,
        key < 16 ==> exists|code: i32| #[trigger] key_of(code) == Some(key),
{
    if key < 16 {
        let code: i32 = if key == 0x1 {
            49
        } else if key == 0x2 {
            50
        } else if key == 0x3 {
            51
        } else if key == 0xC {
            52
        } else if key == 0x4 {
            113
        } else if key == 0x5 {
            119
        } else if key == 0x6 {
            101
        } else if key == 0xD {
            114
        } else if key == 0x7 {
            97
        } else if key == 0x8 {
            115
        } else if key == 0x9 {
            100
        } else if key == 0xE {
            102
        } else if key == 0xA {
            122
        } else if key == 0x0 {
            120
        } else if key == 0xB {
            99
        } else {
            118
        };
        assert(key_of(code) == Some(key));
    }
}

/// A key that goes down and then comes up leaves the keypad as it was
/// where the key was up before; and an event never changes a cell other
/// than that of its key.
pub proof fn lemma_key_down_then_up(keys: Seq<u8>, code: i32)
    requires
        keys.len() == 16,
        key_of(code) matches Some(key) ==> keys[key as int] == 0,
    ensures
        keys_after_event(
            keys_after_event(keys, InputEvent::KeyDown { keycode: Some(code) }),
            InputEvent::KeyUp { keycode: Some(code) },
        ) == keys,
{
    let down = keys_after_event(keys, InputEvent::KeyDown { keycode: Some(code) });
    let up = keys_after_event(down, InputEvent::KeyUp { keycode: Some(code) });
    assert(up =~= keys);
}

/// Trimming cuts white space off both ends and nothing else: the trimmed
/// text is the part of the text from `a` to `b`, all before `a` and all
/// from `b` on is white space, and the part neither starts nor ends with
/// white space.
pub proof fn lemma_trimmed_is_the_middle(s: Seq<char>) -> (range: (int, int))
    ensures
        0 <= range.0 <= range.1 <= s.len(),
        trimmed(s) == s.subrange(range.0, range.1),
        forall|k: int| 0 <= k < range.0 ==> is_space(s[k]),
        forall|k: int| range.1 <= k < s.len() ==> is_space(s[k]),
        range.0 < range.1 ==> !is_space(s[range.0]) && !is_space(s[range.1 - 1]),
    decreases s.len(),
{
    if s.len() > 0 && is_space(s[0]) {
        let rest = s.drop_first();
        let (a, b) = lemma_trimmed_is_the_middle(rest);
        assert(rest.subrange(a, b) =~= s.subrange(a + 1, b + 1));
        assert forall|k: int| 0 <= k < a + 1 implies is_space(s[k]) by {
            if k > 0 {
                assert(s[k] == rest[k - 1]);
            }
        }
        assert forall|k: int| b + 1 <= k < s.len() implies is_space(s[k]) by {
            assert(s[k] == rest[k - 1]);
        }
        if a < b {
            assert(s[a + 1] == rest[a] && s[b] == rest[b - 1]);
        }
        (a + 1, b + 1)
    } else if s.len() > 0 && is_space(s.last()) {
        let rest = s.drop_last();
        let (a, b) = lemma_trimmed_is_the_middle(rest);
        assert(rest.subrange(a, b) =~= s.subrange(a, b));
        assert forall|k: int| 0 <= k < a implies is_space(s[k]) by {
            assert(s[k] == rest[k]);
        }
        assert forall|k: int| b <= k < s.len() implies is_space(s[k]) by {
            if k < s.len() - 1 {
                assert(s[k] == rest[k]);
            }
        }
        if a < b {
            assert(s[a] == rest[a] && s[b - 1] == rest[b - 1]);
        }
        (a, b)
    } else {
        assert(s.subrange(0, s.len() as int) =~= s);
        (0, s.len() as int)
    }
}

/// Cutting a text at its separators gives pieces that hold no separator,
/// and their lengths and the separators between them make up the text.
pub proof fn lemma_pieces_hold_no_separator(s: Seq<char>)
    ensures
        split_words(s).len() >= 1,
        forall|k: int, i: int|
            0 <= k < split_words(s).len() && 0 <= i < split_words(s)[k].len() ==> !is_separator(
                #[trigger] split_words(s)[k][i],
            ),
        pieces_length(split_words(s)) + split_words(s).len() - 1 == s.len(),
    decreases s.len(),
{
    if s.len() > 0 {
        let before = split_words(s.drop_last());
        lemma_pieces_hold_no_separator(s.drop_last());
        let after = split_words(s);
        if is_separator(s.last()) {
            assert(after.drop_last() =~= before);
            assert(pieces_length(after) == pieces_length(before));
        } else {
            assert(after.drop_last() =~= before.drop_last());
            assert(after.last().len() == before.last().len() + 1);
            assert(pieces_length(before) == pieces_length(before.drop_last())
                + before.last().len());
            assert(pieces_length(after) == pieces_length(before) + 1);
        }
    } else {
        let only = split_words(s);
        assert(only.drop_last() =~= Seq::<Seq<char>>::empty());
        assert(pieces_length(only.drop_last()) == 0);
        assert(pieces_length(only) == 0);
    }
}

/// The number that a piece writes is that of the standard notation: a
/// piece of digits, extended by one digit, writes sixteen times the number
/// plus the digit.
pub proof fn lemma_digits_extend(digits: Seq<char>, c: char)
    ensures
        digits_value(digits.push(c)) == match (digits_value(digits), hex_digit(c)) {
            (Some(v), Some(d)) => Some(16 * v + d),
            _ => None,
        },
        hex_digit(c) matches Some(d) ==> 0 <= d < 16,
        digits_value(digits) matches Some(v) ==> v >= 0,
    decreases digits.len(),
{
    assert(digits.push(c).drop_last() =~= digits);
    if digits.len() > 0 {
        lemma_digits_extend(digits.drop_last(), digits.last());
        assert(digits.drop_last().push(digits.last()) =~= digits);
    }
}

} // verus!
