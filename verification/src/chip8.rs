use crate::constants::{
    FONT_SET, FONT_SET_SIZE, FONT_SET_START_ADDRESS, PIXEL_OFF, PIXEL_ON, PROGRAM_START_ADDRESS,
};
use crate::machine::{blank_machine, first_pressed_from, Machine, MAX_PROGRAM_WORDS};
use crate::opcode::{
    decode, field_x, operand_kk, operand_n, operand_nnn, operand_x, operand_y, select_instruction,
    DecodeError, Instruction,
};
use crate::program::{
    all_words_valid, is_first_invalid, opcodes_of, parse_instructions, LoadError,
};
use crate::utils::get_bits_of_byte;
use rand::rngs::ThreadRng;
use rand::Rng;
use vstd::prelude::*;

verus! {

/// The handle of `rand`'s generator that is local to the thread. Nothing
/// inside it is visible here.
#[verifier::external_type_specification]
#[verifier::external_body]
pub struct ExThreadRng(ThreadRng);

/// Calls `rand::thread_rng`, which hands out the calling thread's
/// generator, seeded by the operating system when the thread first asks for
/// it. It takes no argument, and nothing is claimed of the handle.
#[verifier::external_body]
fn thread_generator() -> ThreadRng {
    rand::thread_rng()
}

/// Calls `Rng::gen::<u8>` on the generator, which takes the next 32 bits
/// of its stream and keeps the low eight. Nothing is claimed of the byte:
/// every value of `u8` can come back, and two calls may differ.
#[verifier::external_body]
fn next_random_byte(rng: &mut ThreadRng) -> u8 {
    rng.gen::<u8>()
}

/// The machine: registers, memory, program counter, call stack, timers,
/// keypad and display, and the generator that `Cxkk` draws from.
#[derive(Debug)]
pub struct Chip8 {
    registers: [u8; 16],
    memory: [u8; 4096],
    index_register: u16,
    pc: u16,
    stack: [u16; 16],
    sp: u8,
    delay_timer: u8,
    sound_timer: u8,
    keypad: [u8; 16],
    display_memory: [[u32; 64]; 32],
    rng: ThreadRng,
}

impl View for Chip8 {
    type V = Machine;

    closed spec fn view(&self) -> Machine {
        Machine {
            registers: self.registers@,
            memory: self.memory@,
            index_register: self.index_register,
            pc: self.pc,
            stack: self.stack@,
            sp: self.sp,
            delay_timer: self.delay_timer,
            sound_timer: self.sound_timer,
            keypad: self.keypad@,
            display: grid_view(self.display_memory),
        }
    }
}

/// The framebuffer as rows of pixels: a cell that holds `PIXEL_ON` is a lit
/// pixel.
spec fn grid_view(cells: [[u32; 64]; 32]) -> Seq<Seq<bool>> {
    Seq::new(32, |r: int| Seq::new(64, |c: int| cells@[r]@[c] == PIXEL_ON))
}

/// Whether the sprite bit (`a`, `b`) comes before (`i`, `j`) when the bits
/// are taken row by row.
spec fn bit_before(a: int, b: int, i: int, j: int) -> bool {
    a < i || (a == i && b < j)
}

/// Whether a set bit of the sprite that comes before (`i`, `j`) lands on a
/// lit pixel of `m`.
spec fn collides_before(m: Machine, x: int, y: int, i: int, j: int) -> bool {
    exists|a: int, b: int|
        0 <= a && 0 <= b < 8 && bit_before(a, b, i, j) && #[trigger] m.sprite_hits(x, y, a, b)
}

/// The pixel (`r`, `c`) of `m` once the sprite bits before (`i`, `j`) have
/// been combined into the display.
spec fn pixel_before(m: Machine, x: int, y: int, n: int, i: int, j: int, r: int, c: int) -> bool {
    m.display[r][c] != (m.sprite_covers(x, y, n, r, c) && bit_before(
        (r - y) % 32,
        (c - x) % 64,
        i,
        j,
    ))
}

/// Combining bit (`i`, `j`) of the sprite into the display flips the pixel
/// that the bit lands on where the bit is set, and leaves every other
/// pixel as it is.
proof fn lemma_pixel_step(m: Machine, x: int, y: int, n: int, i: int, j: int, r: int, c: int)
    requires
        0 <= x < 256,
        0 <= y < 256,
        0 <= i < n <= 15,
        0 <= j < 8,
        0 <= r < 32,
        0 <= c < 64,
    ensures
        pixel_before(m, x, y, n, i, j + 1, r, c) == if r == (y + i) % 32 && c == (x + j) % 64 {
            pixel_before(m, x, y, n, i, j, r, c) != m.sprite_bit(i, j)
        } else {
            pixel_before(m, x, y, n, i, j, r, c)
        },
        r == (y + i) % 32 && c == (x + j) % 64 ==> pixel_before(m, x, y, n, i, j, r, c)
            == m.display[r][c],
{
    let a = (r - y) % 32;
    let b = (c - x) % 64;
    if r == (y + i) % 32 && c == (x + j) % 64 {
        assert(a == i);
        assert(b == j);
    } else {
        assert(!(a == i && b == j));
    }
}

impl Chip8 {
    /// Whether the framebuffer cell in row `r`, column `c` holds a lit
    /// pixel.
    spec fn lit(&self, r: int, c: int) -> bool {
        self.display_memory@[r]@[c] == PIXEL_ON
    }

    /// The invariant of the machine: at most sixteen stack slots are in
    /// use, and every framebuffer cell is `PIXEL_ON` or `PIXEL_OFF`.
    pub closed spec fn wf(&self) -> bool {
        &&& self.sp <= 16
        &&& forall|r: int, c: int|
            0 <= r < 32 && 0 <= c < 64 ==> {
                ||| #[trigger] self.display_memory@[r]@[c] == PIXEL_ON
                ||| self.display_memory@[r]@[c] == PIXEL_OFF
            }
    }

    /// A machine that satisfies its invariant has a state of the right
    /// shape.
    pub proof fn lemma_view_wf(&self)
        requires
            self.wf(),
        ensures
            self@.wf(),
    {
    }

    /// A machine that was just switched on: everything zero, every pixel
    /// dark, the program counter at the program start address. The font is
    /// not loaded yet.
    pub fn blank() -> (c8: Chip8)
        ensures
            c8.wf(),
            c8@ == blank_machine(),
    {
        let c8 = Chip8 {
            registers: [0; 16],
            memory: [0; 4096],
            index_register: 0,
            pc: PROGRAM_START_ADDRESS as u16,
            stack: [0; 16],
            sp: 0,
            delay_timer: 0,
            sound_timer: 0,
            keypad: [0; 16],
            display_memory: [[PIXEL_OFF; 64]; 32],
            rng: thread_generator(),
        };
        assert(c8@ =~~= blank_machine());
        c8
    }

    /// Draws the next byte from the machine's generator. The state of the
    /// machine stays as it is; only the generator moves on.
    pub fn rand_byte(&mut self) -> (random: u8)
        ensures
            final(self)@ == old(self)@,
            old(self).wf() ==> final(self).wf(),
    {
        next_random_byte(&mut self.rng)
    }

    /// `00E0`: clears the display.
    pub fn cls(&mut self, _opcode: u16)
        requires
            old(self).wf(),
        ensures
            final(self).wf(),
            final(self)@ == old(self)@.cls(),
    {
        let ghost m0 = self@;
        let mut i: usize = 0;
        while i < 32
            invariant
                i <= 32,
                self.sp <= 16,
                (Machine { display: m0.display, ..self@ }) == m0,
                forall|r: int, c: int|
                    0 <= r < i && 0 <= c < 64 ==> #[trigger] self.display_memory@[r]@[c]
                        == PIXEL_OFF,
                forall|r: int, c: int|
                    i <= r < 32 && 0 <= c < 64 ==> {
                        ||| #[trigger] self.display_memory@[r]@[c] == PIXEL_ON
                        ||| self.display_memory@[r]@[c] == PIXEL_OFF
                    },
            decreases 32 - i,
        {
            let mut j: usize = 0;
            while j < 64
                invariant
                    j <= 64,
                    i < 32,
                    self.sp <= 16,
                    (Machine { display: m0.display, ..self@ }) == m0,
                    forall|r: int, c: int|
                        0 <= r < i && 0 <= c < 64 ==> #[trigger] self.display_memory@[r]@[c]
                            == PIXEL_OFF,
                    forall|c: int|
                        0 <= c < j ==> #[trigger] self.display_memory@[i as int]@[c] == PIXEL_OFF,
                    forall|r: int, c: int|
                        i < r < 32 && 0 <= c < 64 ==> {
                            ||| #[trigger] self.display_memory@[r]@[c] == PIXEL_ON
                            ||| self.display_memory@[r]@[c] == PIXEL_OFF
                        },
                decreases 64 - j,
            {
                self.display_memory[i][j] = PIXEL_OFF;
                proof {
                    assert(Machine { display: m0.display, ..self@ } =~= m0);
                }
                j += 1;
            }
            i += 1;
        }
        proof {
            assert(self@.display =~~= m0.cls().display);
            assert(self@ =~= m0.cls());
        }
    }

    /// `00EE`: returns from a subroutine: pops the top of the call stack
    /// into the program counter.
    pub fn ret(&mut self, _opcode: u16)
        requires
            old(self).wf(),
            old(self)@.can_execute(Instruction::Ret, _opcode),
        ensures
            final(self).wf(),
            final(self)@ == old(self)@.ret(),
    {
        self.sp -= 1;
        self.pc = self.stack[self.sp as usize];
    }

    /// `1nnn`: jumps to the address `nnn`.
    pub fn jmp(&mut self, opcode: u16)
        requires
            old(self).wf(),
        ensures
            final(self).wf(),
            final(self)@ == old(self)@.jmp(opcode),
    {
        self.pc = operand_nnn(opcode);
    }

    /// `2nnn`: calls the subroutine at `nnn`: pushes the program counter
    /// and jumps.
    pub fn call(&mut self, opcode: u16)
        requires
            old(self).wf(),
            old(self)@.can_execute(Instruction::Call, opcode),
        ensures
            final(self).wf(),
            final(self)@ == old(self)@.call(opcode),
    {
        self.stack[self.sp as usize] = self.pc;
        self.sp += 1;
        self.pc = operand_nnn(opcode);
    }

    /// `3xkk`: skips the next instruction where `Vx == kk`.
    pub fn se_byte(&mut self, opcode: u16)
        requires
            old(self).wf(),
        ensures
            final(self).wf(),
            final(self)@ == old(self)@.se_byte(opcode),
    {
        let x = operand_x(opcode);
        let kk = operand_kk(opcode);
        let vx = self.registers[x];
        if vx == kk {
            self.pc = self.pc.wrapping_add(0x02);
        }
    }

    /// `4xkk`: skips the next instruction where `Vx != kk`.
    pub fn sne_byte(&mut self, opcode: u16)
        requires
            old(self).wf(),
        ensures
            final(self).wf(),
            final(self)@ == old(self)@.sne_byte(opcode),
    {
        let x = operand_x(opcode);
        let kk = operand_kk(opcode);
        let vx = self.registers[x];
        if vx != kk {
            self.pc = self.pc.wrapping_add(0x02);
        }
    }

    /// `5xy0`: skips the next instruction where `Vx == Vy`.
    pub fn se_register(&mut self, opcode: u16)
        requires
            old(self).wf(),
        ensures
            final(self).wf(),
            final(self)@ == old(self)@.se_register(opcode),
    {
        let x = operand_x(opcode);
        let y = operand_y(opcode);
        let vx = self.registers[x];
        let vy = self.registers[y];
        if vx == vy {
            self.pc = self.pc.wrapping_add(2);
        }
    }

    /// `6xkk`: loads `kk` into `Vx`.
    pub fn ld_byte(&mut self, opcode: u16)
        requires
            old(self).wf(),
        ensures
            final(self).wf(),
            final(self)@ == old(self)@.ld_byte(opcode),
    {
        let x = operand_x(opcode);
        let kk = operand_kk(opcode);
        self.registers[x] = kk;
    }

    /// `7xkk`: adds `kk` to `Vx`, wrapping at eight bits. No flag changes.
    pub fn add_byte(&mut self, opcode: u16)
        requires
            old(self).wf(),
        ensures
            final(self).wf(),
            final(self)@ == old(self)@.add_byte(opcode),
    {
        let x = operand_x(opcode);
        let kk = operand_kk(opcode);
        self.registers[x] = self.registers[x].wrapping_add(kk);
    }

    /// `8xy0`: copies `Vy` into `Vx`.
    pub fn ld_register(&mut self, opcode: u16)
        requires
            old(self).wf(),
        ensures
            final(self).wf(),
            final(self)@ == old(self)@.ld_register(opcode),
    {
        let x = operand_x(opcode);
        let y = operand_y(opcode);
        self.registers[x] = self.registers[y];
    }

    /// `8xy1`: stores `Vx | Vy` in `Vx`.
    pub fn or(&mut self, opcode: u16)
        requires
            old(self).wf(),
        ensures
            final(self).wf(),
            final(self)@ == old(self)@.or(opcode),
    {
        let x = operand_x(opcode);
        let y = operand_y(opcode);
        self.registers[x] = self.registers[x] | self.registers[y];
    }

    /// `8xy2`: stores `Vx & Vy` in `Vx`.
    pub fn and(&mut self, opcode: u16)
        requires
            old(self).wf(),
        ensures
            final(self).wf(),
            final(self)@ == old(self)@.and(opcode),
    {
        let x = operand_x(opcode);
        let y = operand_y(opcode);
        self.registers[x] = self.registers[x] & self.registers[y];
    }

    /// `8xy3`: stores `Vx ^ Vy` in `Vx`.
    pub fn xor(&mut self, opcode: u16)
        requires
            old(self).wf(),
        ensures
            final(self).wf(),
            final(self)@ == old(self)@.xor(opcode),
    {
        let x = operand_x(opcode);
        let y = operand_y(opcode);
        self.registers[x] = self.registers[x] ^ self.registers[y];
    }

    /// `8xy4`: adds `Vy` to `Vx`, wrapping at eight bits. VF is set to 1
    /// where the sum did not fit and to 0 where it did, before `Vx` is
    /// written.
    pub fn add_registers(&mut self, opcode: u16)
        requires
            old(self).wf(),
        ensures
            final(self).wf(),
            final(self)@ == old(self)@.add_registers(opcode),
    {
        let x = operand_x(opcode);
        let y = operand_y(opcode);
        let res = self.registers[x].wrapping_add(self.registers[y]);
        self.registers[0xF] = if res < self.registers[x] { 1 } else { 0 };
        self.registers[x] = res;
    }

    /// `8xy5`: subtracts `Vy` from `Vx`, wrapping at eight bits. VF is set
    /// to 1 where `Vx > Vy` and to 0 where not, before `Vx` is written.
    pub fn sub_registers(&mut self, opcode: u16)
        requires
            old(self).wf(),
        ensures
            final(self).wf(),
            final(self)@ == old(self)@.sub_registers(opcode),
    {
        let x = operand_x(opcode);
        let y = operand_y(opcode);
        let vx = self.registers[x];
        let vy = self.registers[y];
        self.registers[0xF] = if vx > vy { 0x1 } else { 0x0 };
        self.registers[x] = vx.wrapping_sub(vy);
    }

    /// `8xy6`: shifts `Vy` right by one into `Vx`. VF is set to the bit
    /// that fell out, before `Vx` is written.
    pub fn shr(&mut self, opcode: u16)
        requires
            old(self).wf(),
        ensures
            final(self).wf(),
            final(self)@ == old(self)@.shr(opcode),
    {
        let x = operand_x(opcode);
        let y = operand_y(opcode);
        let vy = self.registers[y];
        let lsb = vy & 0x01;
        assert(lsb == 0 || lsb == 1) by (bit_vector)
            requires
                lsb == vy & 0x01,
        ;
        self.registers[0xF] = if lsb == 1 { 1 } else { 0 };
        self.registers[x] = vy >> 1;
    }

    /// `8xy7`: stores `Vy - Vx`, wrapping at eight bits, in `Vx`. VF is
    /// set to 1 where `Vy > Vx` and to 0 where not, before `Vx` is written.
    pub fn subn_registers(&mut self, opcode: u16)
        requires
            old(self).wf(),
        ensures
            final(self).wf(),
            final(self)@ == old(self)@.subn_registers(opcode),
    {
        let x = operand_x(opcode);
        let y = operand_y(opcode);
        let vx = self.registers[x];
        let vy = self.registers[y];
        self.registers[0xF] = if vy > vx { 0x1 } else { 0x0 };
        self.registers[x] = vy.wrapping_sub(vx);
    }

    /// `8xyE`: shifts `Vy` left by one into `Vx`. VF is set to the bit
    /// that fell out, before `Vx` is written.
    pub fn shl(&mut self, opcode: u16)
        requires
            old(self).wf(),
        ensures
            final(self).wf(),
            final(self)@ == old(self)@.shl(opcode),
    {
        let x = operand_x(opcode);
        let y = operand_y(opcode);
        let vy = self.registers[y];
        let msb = (vy & 0x80) >> 7;
        assert(msb == 0 || msb == 1) by (bit_vector)
            requires
                msb == (vy & 0x80) >> 7,
        ;
        self.registers[0xF] = if msb == 1 { 0x1 } else { 0x0 };
        self.registers[x] = vy << 1;
    }

    /// `9xy0`: skips the next instruction where `Vx != Vy`.
    pub fn sne_register(&mut self, opcode: u16)
        requires
            old(self).wf(),
        ensures
            final(self).wf(),
            final(self)@ == old(self)@.sne_register(opcode),
    {
        let x = operand_x(opcode);
        let y = operand_y(opcode);
        let vx = self.registers[x];
        let vy = self.registers[y];
        if vx != vy {
            self.pc = self.pc.wrapping_add(2);
        }
    }

    /// `Annn`: loads `nnn` into the index register.
    pub fn ld_i(&mut self, opcode: u16)
        requires
            old(self).wf(),
        ensures
            final(self).wf(),
            final(self)@ == old(self)@.ld_i(opcode),
    {
        let nnn = operand_nnn(opcode);
        self.index_register = nnn;
    }

    /// `Bnnn`: jumps to the address `nnn + V0`.
    pub fn jmp_v0(&mut self, opcode: u16)
        requires
            old(self).wf(),
        ensures
            final(self).wf(),
            final(self)@ == old(self)@.jmp_v0(opcode),
    {
        let nnn = operand_nnn(opcode);
        self.pc = nnn + self.registers[0x0] as u16;
    }

    /// `Cxkk` for a given random byte: stores `random & kk` in `Vx`.
    pub fn rand_with(&mut self, opcode: u16, random: u8)
        requires
            old(self).wf(),
        ensures
            final(self).wf(),
            final(self)@ == old(self)@.rand(opcode, random),
    {
        let x = operand_x(opcode);
        let kk = operand_kk(opcode);
        self.registers[x] = random & kk;
    }

    /// `Cxkk`: draws a byte from the generator and stores its bitwise and
    /// with `kk` in `Vx`. Which byte comes is not known: the new state is
    /// what `rand_with` gives for one of the 256 bytes.
    pub fn rand(&mut self, opcode: u16)
        requires
            old(self).wf(),
        ensures
            final(self).wf(),
            exists|random: u8| final(self)@ == #[trigger] old(self)@.rand(opcode, random),
    {
        let random = self.rand_byte();
        self.rand_with(opcode, random);
    }

    /// `Dxyn`: draws the sprite of `n` rows that memory holds at the index
    /// register, with its top left corner at column `Vx`, row `Vy`. Each
    /// set bit of the sprite flips one pixel; rows wrap after 32 and
    /// columns after 64. VF becomes 1 where a lit pixel went dark and 0
    /// where none did. The index register stays as it is.
    pub fn draw(&mut self, opcode: u16)
        requires
            old(self).wf(),
            old(self)@.can_execute(Instruction::Draw, opcode),
        ensures
            final(self).wf(),
            final(self)@ == old(self)@.draw(opcode),
    {
        let vx = self.registers[operand_x(opcode)];
        let vy = self.registers[operand_y(opcode)];
        let n = operand_n(opcode);
        let ghost m0 = self@;
        let ghost x = vx as int;
        let ghost y = vy as int;

        let mut sprite: Vec<u8> = Vec::new();
        let mut k: usize = 0;
        while k < n
            invariant
                k <= n,
                n < 16,
                n == 0 || self.index_register + n <= 4096,
                sprite@.len() == k,
                forall|a: int| 0 <= a < k ==> sprite@[a] == self.memory@[self.index_register + a],
            decreases n - k,
        {
            sprite.push(self.memory[self.index_register as usize + k]);
            k += 1;
        }

        let mut vf: u8 = 0x0;
        let mut i: usize = 0;
        while i < n
            invariant
                i <= n,
                n < 16,
                x == vx,
                y == vy,
                self.wf(),
                sprite@.len() == n,
                n == 0 || m0.index_register + n <= 4096,
                forall|a: int| 0 <= a < n ==> sprite@[a] == m0.memory[m0.index_register + a],
                m0.wf(),
                (Machine { display: m0.display, ..self@ }) == m0,
                forall|r: int, c: int|
                    0 <= r < 32 && 0 <= c < 64 ==> #[trigger] self.lit(r, c) == pixel_before(
                        m0,
                        x,
                        y,
                        n as int,
                        i as int,
                        0,
                        r,
                        c,
                    ),
                vf == 0 || vf == 1,
                vf == 1 <==> collides_before(m0, x, y, i as int, 0),
            decreases n - i,
        {
            let row = (vy as usize + i) % 32;
            let pixels = get_bits_of_byte(sprite[i]);
            let mut j: usize = 0;
            while j < 8
                invariant
                    j <= 8,
                    i < n,
                    n < 16,
                    x == vx,
                    y == vy,
                    row == (y + i) % 32,
                    self.wf(),
                    m0.index_register + n <= 4096,
                    pixels@ == crate::utils::bits_of(m0.memory[m0.index_register + i]),
                    m0.wf(),
                    (Machine { display: m0.display, ..self@ }) == m0,
                    forall|r: int, c: int|
                        0 <= r < 32 && 0 <= c < 64 ==> #[trigger] self.lit(r, c)
                            == pixel_before(m0, x, y, n as int, i as int, j as int, r, c),
                    vf == 0 || vf == 1,
                    vf == 1 <==> collides_before(m0, x, y, i as int, j as int),
                decreases 8 - j,
            {
                let col = (vx as usize + j) % 64;
                let ghost before = *self;
                assert((pixels@[j as int] == 1) == m0.sprite_bit(i as int, j as int));
                proof {
                    lemma_pixel_step(m0, x, y, n as int, i as int, j as int, row as int, col as int);
                    assert(before.lit(row as int, col as int) == m0.display[row as int][col as int]);
                }
                if pixels[j] == 1_u8 {
                    if self.display_memory[row][col] == PIXEL_ON {
                        vf = 0x1;
                        self.display_memory[row][col] = PIXEL_OFF;
                    } else {
                        self.display_memory[row][col] = PIXEL_ON;
                    }
                }
                proof {
                    let hit = m0.sprite_hits(x, y, i as int, j as int);
                    assert(vf == 1 <==> (collides_before(m0, x, y, i as int, j as int) || hit));
                    assert forall|r: int, c: int| 0 <= r < 32 && 0 <= c < 64 implies #[trigger]
                        self.lit(r, c) == pixel_before(
                        m0,
                        x,
                        y,
                        n as int,
                        i as int,
                        j + 1,
                        r,
                        c,
                    ) by {
                        lemma_pixel_step(m0, x, y, n as int, i as int, j as int, r, c);
                        assert(before.lit(r, c) == pixel_before(
                            m0,
                            x,
                            y,
                            n as int,
                            i as int,
                            j as int,
                            r,
                            c,
                        ));
                    }
                    assert(Machine { display: m0.display, ..self@ } =~= m0);
                }
                j += 1;
            }
            i += 1;
        }

        let ghost drawn = *self;
        self.registers[0xF] = vf;
        proof {
            assert(collides_before(m0, x, y, n as int, 0) == m0.sprite_collides(x, y, n as int));
            let m1 = m0.draw(opcode);
            assert(x == m0.vx(opcode) && y == m0.vy(opcode));
            assert(self@.registers =~= m1.registers);
            assert forall|r: int, c: int| 0 <= r < 32 && 0 <= c < 64 implies self@.display[r][c]
                == m1.display[r][c] by {
                assert(drawn.lit(r, c) == pixel_before(m0, x, y, n as int, n as int, 0, r, c));
            }
            assert(self@.display =~~= m1.display);
            assert(self@ =~= m1);
        }
    }
}

impl Chip8 {
    /// `Ex9E`: skips the next instruction where the key with the value of
    /// `Vx` is held down.
    pub fn skip_key_pressed(&mut self, opcode: u16)
        requires
            old(self).wf(),
            old(self)@.can_execute(Instruction::SkipKeyPressed, opcode),
        ensures
            final(self).wf(),
            final(self)@ == old(self)@.skip_key_pressed(opcode),
    {
        let vx = self.registers[operand_x(opcode)];
        if self.keypad[vx as usize] == 1 {
            self.pc = self.pc.wrapping_add(2);
        }
    }

    /// `ExA1`: skips the next instruction where the key with the value of
    /// `Vx` is up.
    pub fn skip_key_not_pressed(&mut self, opcode: u16)
        requires
            old(self).wf(),
            old(self)@.can_execute(Instruction::SkipKeyNotPressed, opcode),
        ensures
            final(self).wf(),
            final(self)@ == old(self)@.skip_key_not_pressed(opcode),
    {
        let vx = self.registers[operand_x(opcode)];
        if self.keypad[vx as usize] == 0 {
            self.pc = self.pc.wrapping_add(2);
        }
    }

    /// `Fx07`: copies the delay timer into `Vx`.
    pub fn ld_delay_timer(&mut self, opcode: u16)
        requires
            old(self).wf(),
        ensures
            final(self).wf(),
            final(self)@ == old(self)@.ld_delay_timer(opcode),
    {
        let x = operand_x(opcode);
        self.registers[x] = self.delay_timer;
    }

    /// `Fx0A`: waits for a key: stores the index of the first key that is
    /// held down in `Vx`. Where no key is down, moves the program counter
    /// back by two, so that the next cycle runs this instruction again.
    pub fn ld_key_press(&mut self, opcode: u16)
        requires
            old(self).wf(),
        ensures
            final(self).wf(),
            final(self)@ == old(self)@.ld_key_press(opcode),
    {
        let x = operand_x(opcode);
        let mut i: usize = 0;
        while i < 16
            invariant
                i <= 16,
                x < 16,
                x == field_x(opcode),
                self.wf(),
                *self == *old(self),
                first_pressed_from(self.keypad@, 0) == first_pressed_from(self.keypad@, i as int),
            decreases 16 - i,
        {
            if self.keypad[i] != 0 {
                self.registers[x] = i as u8;
                return ;
            }
            i += 1;
        }
        self.pc = self.pc.wrapping_sub(2);
    }

    /// `Fx15`: copies `Vx` into the delay timer.
    pub fn set_delay_timer(&mut self, opcode: u16)
        requires
            old(self).wf(),
        ensures
            final(self).wf(),
            final(self)@ == old(self)@.set_delay_timer(opcode),
    {
        let vx = self.registers[operand_x(opcode)];
        self.delay_timer = vx;
    }

    /// `Fx18`: copies `Vx` into the sound timer.
    pub fn set_sound_timer(&mut self, opcode: u16)
        requires
            old(self).wf(),
        ensures
            final(self).wf(),
            final(self)@ == old(self)@.set_sound_timer(opcode),
    {
        let vx = self.registers[operand_x(opcode)];
        self.sound_timer = vx;
    }

    /// `Fx1E`: adds `Vx` to the index register, wrapping at sixteen bits.
    pub fn add_index_register(&mut self, opcode: u16)
        requires
            old(self).wf(),
        ensures
            final(self).wf(),
            final(self)@ == old(self)@.add_index_register(opcode),
    {
        let vx = self.registers[operand_x(opcode)];
        self.index_register = self.index_register.wrapping_add(vx as u16);
    }

    /// `Fx29`: points the index register at the font glyph for the value
    /// of `Vx`: five bytes per glyph from the start of the font.
    pub fn ld_sprite(&mut self, opcode: u16)
        requires
            old(self).wf(),
        ensures
            final(self).wf(),
            final(self)@ == old(self)@.ld_sprite(opcode),
    {
        let vx = self.registers[operand_x(opcode)];
        self.index_register = FONT_SET_START_ADDRESS as u16 + (vx as u16) * 5;
    }

    /// `Fx33`: writes the three decimal digits of `Vx` to memory at the
    /// index register: hundreds, tens, ones.
    pub fn ld_bcd(&mut self, opcode: u16)
        requires
            old(self).wf(),
            old(self)@.can_execute(Instruction::LdBcd, opcode),
        ensures
            final(self).wf(),
            final(self)@ == old(self)@.ld_bcd(opcode),
    {
        let vx = self.registers[operand_x(opcode)];
        let base = self.index_register as usize;
        self.memory[base] = vx / 100;
        self.memory[base + 1] = (vx / 10) % 10;
        self.memory[base + 2] = vx % 10;
    }

    /// `Fx55`: copies registers `V0` to `Vx` to memory at the index
    /// register, then moves the index register past them.
    pub fn ld_registers_into_index_register(&mut self, opcode: u16)
        requires
            old(self).wf(),
            old(self)@.can_execute(Instruction::LdRegistersIntoIndexRegister, opcode),
        ensures
            final(self).wf(),
            final(self)@ == old(self)@.ld_registers_into_index_register(opcode),
    {
        let x = operand_x(opcode);
        let base = self.index_register as usize;
        let ghost m0 = self@;
        let mut i: usize = 0;
        while i <= x
            invariant
                i <= x + 1,
                x < 16,
                base + x < 4096,
                base == m0.index_register,
                self.wf(),
                (Machine { memory: m0.memory, ..self@ }) == m0,
                forall|a: int|
                    0 <= a < 4096 ==> self.memory@[a] == if base <= a < base + i {
                        m0.registers[a - base]
                    } else {
                        m0.memory[a]
                    },
            decreases x + 1 - i,
        {
            self.memory[base + i] = self.registers[i];
            proof {
                assert(Machine { memory: m0.memory, ..self@ } =~= m0);
            }
            i += 1;
        }
        self.index_register = (base + x + 1) as u16;
        proof {
            assert(self@.memory =~= m0.ld_registers_into_index_register(opcode).memory);
        }
    }

    /// `Fx65`: copies memory at the index register into registers `V0` to
    /// `Vx`, then moves the index register past what was read.
    pub fn read_index_register_into_registers(&mut self, opcode: u16)
        requires
            old(self).wf(),
            old(self)@.can_execute(Instruction::ReadIndexRegisterIntoRegisters, opcode),
        ensures
            final(self).wf(),
            final(self)@ == old(self)@.read_index_register_into_registers(opcode),
    {
        let x = operand_x(opcode);
        let base = self.index_register as usize;
        let ghost m0 = self@;
        let mut i: usize = 0;
        while i <= x
            invariant
                i <= x + 1,
                x < 16,
                base + x < 4096,
                base == m0.index_register,
                self.wf(),
                (Machine { registers: m0.registers, ..self@ }) == m0,
                forall|k: int|
                    0 <= k < 16 ==> self.registers@[k] == if k < i {
                        m0.memory[base + k]
                    } else {
                        m0.registers[k]
                    },
            decreases x + 1 - i,
        {
            self.registers[i] = self.memory[base + i];
            proof {
                assert(Machine { registers: m0.registers, ..self@ } =~= m0);
            }
            i += 1;
        }
        self.index_register = (base + x + 1) as u16;
        proof {
            assert(self@.registers =~= m0.read_index_register_into_registers(opcode).registers);
        }
    }
}

impl Chip8 {
    /// Whether `instruction` with the operands of `opcode` is defined in
    /// the present state: the test to make before `dispatch`.
    pub fn can_execute(&self, instruction: Instruction, opcode: u16) -> (ok: bool)
        requires
            self.wf(),
        ensures
            ok == self@.can_execute(instruction, opcode),
    {
        let x = operand_x(opcode);
        let n = operand_n(opcode);
        let base = self.index_register as usize;
        match instruction {
            Instruction::Ret => self.sp >= 1,
            Instruction::Call => self.sp < 16,
            Instruction::Draw => n == 0 || base + n <= 4096,
            Instruction::SkipKeyPressed => self.registers[x] < 16,
            Instruction::SkipKeyNotPressed => self.registers[x] < 16,
            Instruction::LdBcd => base + 2 < 4096,
            Instruction::LdRegistersIntoIndexRegister => base + x < 4096,
            Instruction::ReadIndexRegisterIntoRegisters => base + x < 4096,
            _ => true,
        }
    }

    /// Whether `opcode` can be handed to `execute_opcode` in the present
    /// state.
    pub fn can_execute_opcode(&self, opcode: u16) -> (ok: bool)
        requires
            self.wf(),
        ensures
            ok == self@.can_execute_opcode(opcode),
    {
        match select_instruction(opcode) {
            Ok(instruction) => self.can_execute(instruction, opcode),
            Err(_) => true,
        }
    }

    /// Whether `cycle` can run in the present state.
    pub fn can_cycle(&self) -> (ok: bool)
        requires
            self.wf(),
        ensures
            ok == self@.can_cycle(),
    {
        if self.pc as usize + 1 < 4096 {
            let opcode = self.fetch();
            self.can_execute_opcode(opcode)
        } else {
            false
        }
    }

    /// Reads the instruction word at the program counter: the byte there is
    /// the low byte of the word, the byte after it the high byte.
    pub fn fetch(&self) -> (opcode: u16)
        requires
            self@.pc + 1 < 4096,
        ensures
            opcode == self@.fetch(),
    {
        let opcode_first_byte = self.memory[self.pc as usize] as u16;
        let opcode_second_byte = self.memory[self.pc as usize + 1] as u16;
        assert((opcode_second_byte << 8) | opcode_first_byte == opcode_second_byte * 256
            + opcode_first_byte) by (bit_vector)
            requires
                opcode_first_byte < 256,
                opcode_second_byte < 256,
        ;
        (opcode_second_byte << 8) | opcode_first_byte
    }

    /// Runs the operation `instruction` with the operands of `opcode`,
    /// with `random` as the byte that `Cxkk` gets from the generator. No
    /// other operation reads `random`.
    pub fn dispatch_with(&mut self, instruction: Instruction, opcode: u16, random: u8)
        requires
            old(self).wf(),
            old(self)@.can_execute(instruction, opcode),
        ensures
            final(self).wf(),
            final(self)@ == old(self)@.execute(instruction, opcode, random),
    {
        match instruction {
            Instruction::Cls => self.cls(opcode),
            Instruction::Ret => self.ret(opcode),
            Instruction::Jmp => self.jmp(opcode),
            Instruction::Call => self.call(opcode),
            Instruction::SeByte => self.se_byte(opcode),
            Instruction::SneByte => self.sne_byte(opcode),
            Instruction::SeRegister => self.se_register(opcode),
            Instruction::LdByte => self.ld_byte(opcode),
            Instruction::AddByte => self.add_byte(opcode),
            Instruction::LdRegister => self.ld_register(opcode),
            Instruction::Or => self.or(opcode),
            Instruction::And => self.and(opcode),
            Instruction::Xor => self.xor(opcode),
            Instruction::AddRegisters => self.add_registers(opcode),
            Instruction::SubRegisters => self.sub_registers(opcode),
            Instruction::Shr => self.shr(opcode),
            Instruction::SubnRegisters => self.subn_registers(opcode),
            Instruction::Shl => self.shl(opcode),
            Instruction::SneRegister => self.sne_register(opcode),
            Instruction::LdI => self.ld_i(opcode),
            Instruction::JmpV0 => self.jmp_v0(opcode),
            Instruction::Rand => self.rand_with(opcode, random),
            Instruction::Draw => self.draw(opcode),
            Instruction::SkipKeyPressed => self.skip_key_pressed(opcode),
            Instruction::SkipKeyNotPressed => self.skip_key_not_pressed(opcode),
            Instruction::LdDelayTimer => self.ld_delay_timer(opcode),
            Instruction::LdKeyPress => self.ld_key_press(opcode),
            Instruction::SetDelayTimer => self.set_delay_timer(opcode),
            Instruction::SetSoundTimer => self.set_sound_timer(opcode),
            Instruction::AddIndexRegister => self.add_index_register(opcode),
            Instruction::LdSprite => self.ld_sprite(opcode),
            Instruction::LdBcd => self.ld_bcd(opcode),
            Instruction::LdRegistersIntoIndexRegister => self.ld_registers_into_index_register(
                opcode,
            ),
            Instruction::ReadIndexRegisterIntoRegisters => self.read_index_register_into_registers(
                opcode,
            ),
        }
    }

    /// Runs the operation `instruction` with the operands of `opcode`. For
    /// `Cxkk` a byte is drawn from the generator; the new state is what
    /// `dispatch_with` gives for one byte `random`.
    pub fn dispatch(&mut self, instruction: Instruction, opcode: u16)
        requires
            old(self).wf(),
            old(self)@.can_execute(instruction, opcode),
        ensures
            final(self).wf(),
            exists|random: u8|
                final(self)@ == #[trigger] old(self)@.execute(instruction, opcode, random),
    {
        let ghost m0 = self@;
        match instruction {
            Instruction::Rand => {
                self.rand(opcode);
                proof {
                    let random = choose|random: u8| self@ == #[trigger] m0.rand(opcode, random);
                    assert(self@ == m0.execute(instruction, opcode, random));
                }
            },
            _ => {
                self.dispatch_with(instruction, opcode, 0);
            },
        }
    }

    /// Decodes `opcode` and runs its operation, with `random` as the byte
    /// that `Cxkk` gets. Where no operation is assigned to the word,
    /// nothing changes and the error comes back.
    pub fn execute_opcode_with(&mut self, opcode: u16, random: u8) -> (result: Result<
        (),
        DecodeError,
    >)
        requires
            old(self).wf(),
            old(self)@.can_execute_opcode(opcode),
        ensures
            final(self).wf(),
            match decode(opcode) {
                Some(instruction) => result is Ok && final(self)@ == old(self)@.execute(
                    instruction,
                    opcode,
                    random,
                ),
                None => result == Err::<(), DecodeError>(DecodeError::UnknownOpcode)
                    && final(self)@ == old(self)@,
            },
    {
        match select_instruction(opcode) {
            Ok(instruction) => {
                self.dispatch_with(instruction, opcode, random);
                Ok(())
            },
            Err(e) => Err(e),
        }
    }

    /// Decodes `opcode` and runs its operation. Where no operation is
    /// assigned to the word, nothing changes and the error comes back. The
    /// new state is what `execute_opcode_with` gives for one byte `random`.
    pub fn execute_opcode(&mut self, opcode: u16) -> (result: Result<(), DecodeError>)
        requires
            old(self).wf(),
            old(self)@.can_execute_opcode(opcode),
        ensures
            final(self).wf(),
            match decode(opcode) {
                Some(instruction) => result is Ok && exists|random: u8|
                    final(self)@ == #[trigger] old(self)@.execute(instruction, opcode, random),
                None => result == Err::<(), DecodeError>(DecodeError::UnknownOpcode)
                    && final(self)@ == old(self)@,
            },
    {
        match select_instruction(opcode) {
            Ok(instruction) => {
                self.dispatch(instruction, opcode);
                Ok(())
            },
            Err(e) => Err(e),
        }
    }

    /// Lowers each timer that is not zero by one.
    pub fn tick_timers(&mut self)
        requires
            old(self).wf(),
        ensures
            final(self).wf(),
            final(self)@ == old(self)@.tick(),
    {
        if self.delay_timer > 0 {
            self.delay_timer -= 1;
        }
        if self.sound_timer > 0 {
            self.sound_timer -= 1;
        }
    }

    /// One cycle with `random` as the byte that `Cxkk` gets: fetches the
    /// word at the program counter, moves the program counter past it, runs
    /// the word's operation, and then lowers each timer that is not zero by
    /// one. Where no operation is assigned to the word, the cycle ends with
    /// the error right after the program counter has moved; the timers stay
    /// as they are.
    pub fn cycle_with(&mut self, random: u8) -> (result: Result<(), DecodeError>)
        requires
            old(self).wf(),
            old(self)@.can_cycle(),
        ensures
            final(self).wf(),
            match decode(old(self)@.fetch()) {
                Some(instruction) => result is Ok && final(self)@ == old(self)@.cycle(
                    instruction,
                    random,
                ),
                None => result == Err::<(), DecodeError>(DecodeError::UnknownOpcode)
                    && final(self)@ == old(self)@.advance(),
            },
    {
        let opcode = self.fetch();
        self.pc += 2;
        match self.execute_opcode_with(opcode, random) {
            Ok(()) => {},
            Err(e) => {
                return Err(e);
            },
        }
        self.tick_timers();
        Ok(())
    }

    /// One cycle: fetches the word at the program counter, moves the
    /// program counter past it, runs the word's operation, and then lowers
    /// each timer that is not zero by one. Where no operation is assigned
    /// to the word, the cycle ends with the error right after the program
    /// counter has moved; the timers stay as they are. The new state is
    /// what `cycle_with` gives for one byte `random`.
    pub fn cycle(&mut self) -> (result: Result<(), DecodeError>)
        requires
            old(self).wf(),
            old(self)@.can_cycle(),
        ensures
            final(self).wf(),
            match decode(old(self)@.fetch()) {
                Some(instruction) => result is Ok && exists|random: u8|
                    final(self)@ == #[trigger] old(self)@.cycle(instruction, random),
                None => result == Err::<(), DecodeError>(DecodeError::UnknownOpcode)
                    && final(self)@ == old(self)@.advance(),
            },
    {
        let ghost m0 = self@;
        let opcode = self.fetch();
        self.pc += 2;
        let ghost m1 = self@;
        match self.execute_opcode(opcode) {
            Ok(()) => {},
            Err(e) => {
                return Err(e);
            },
        }
        let ghost m2 = self@;
        self.tick_timers();
        proof {
            let instruction = decode(opcode)->0;
            let random = choose|random: u8|
                m2 == #[trigger] m1.execute(instruction, opcode, random);
            assert(self@ == m0.cycle(instruction, random));
        }
        Ok(())
    }
}

impl Chip8 {
    /// Writes the built-in font into memory from the font start address
    /// on.
    pub fn load_fontset(&mut self)
        requires
            old(self).wf(),
        ensures
            final(self).wf(),
            final(self)@ == old(self)@.load_fontset(),
    {
        let ghost m0 = self@;
        let mut i: usize = 0;
        while i < FONT_SET_SIZE
            invariant
                i <= FONT_SET_SIZE,
                self.wf(),
                (Machine { memory: m0.memory, ..self@ }) == m0,
                forall|a: int|
                    0 <= a < 4096 ==> self.memory@[a] == if FONT_SET_START_ADDRESS <= a
                        < FONT_SET_START_ADDRESS + i {
                        FONT_SET@[a - FONT_SET_START_ADDRESS]
                    } else {
                        m0.memory[a]
                    },
            decreases FONT_SET_SIZE - i,
        {
            self.memory[FONT_SET_START_ADDRESS + i] = FONT_SET[i];
            proof {
                assert(Machine { memory: m0.memory, ..self@ } =~= m0);
            }
            i += 1;
        }
        proof {
            assert(self@.memory =~= m0.load_fontset().memory);
        }
    }

    /// Writes the instruction words `opcodes` into memory from the program
    /// start address on, two bytes per word, the low byte first.
    pub fn load_opcodes_into_memory(&mut self, opcodes: &Vec<u16>)
        requires
            old(self).wf(),
            opcodes@.len() <= MAX_PROGRAM_WORDS,
        ensures
            final(self).wf(),
            final(self)@ == old(self)@.load_opcodes_into_memory(opcodes@),
    {
        let ghost m0 = self@;
        let mut i: usize = PROGRAM_START_ADDRESS;
        let mut k: usize = 0;
        while k < opcodes.len()
            invariant
                k <= opcodes@.len(),
                opcodes@.len() <= MAX_PROGRAM_WORDS,
                i == PROGRAM_START_ADDRESS + 2 * k,
                self.wf(),
                (Machine { memory: m0.memory, ..self@ }) == m0,
                self.memory@ == m0.load_opcodes_into_memory(opcodes@.take(k as int)).memory,
            decreases opcodes@.len() - k,
        {
            let opcode = opcodes[k];
            let little_end = (opcode & 0x00FF) as u8;
            let big_end = ((opcode & 0xFF00) >> 8) as u8;
            assert(opcode & 0x00FF == opcode % 256 && (opcode & 0xFF00) >> 8 == opcode / 256)
                by (bit_vector);
            self.memory[i] = little_end;
            self.memory[i + 1] = big_end;
            proof {
                assert(Machine { memory: m0.memory, ..self@ } =~= m0);
                let before = opcodes@.take(k as int);
                let after = opcodes@.take(k + 1);
                assert(forall|a: int| 0 <= a < k ==> before[a] == after[a]);
                assert(after[k as int] == opcode);
                assert(self.memory@ =~= m0.load_opcodes_into_memory(after).memory);
            }
            i += 2;
            k += 1;
        }
        proof {
            assert(opcodes@.take(opcodes@.len() as int) =~= opcodes@);
        }
    }
}

impl Chip8 {
    /// The program counter.
    pub fn pc(&self) -> (pc: u16)
        ensures
            pc == self@.pc,
    {
        self.pc
    }

    /// Moves the program counter to `pc`.
    pub fn set_pc(&mut self, pc: u16)
        requires
            old(self).wf(),
        ensures
            final(self).wf(),
            final(self)@ == (Machine { pc, ..old(self)@ }),
    {
        self.pc = pc;
    }

    /// The index register.
    pub fn index_register(&self) -> (index_register: u16)
        ensures
            index_register == self@.index_register,
    {
        self.index_register
    }

    /// Sets the index register to `index_register`.
    pub fn set_index_register(&mut self, index_register: u16)
        requires
            old(self).wf(),
        ensures
            final(self).wf(),
            final(self)@ == (Machine { index_register, ..old(self)@ }),
    {
        self.index_register = index_register;
    }

    /// The stack pointer: the number of return addresses on the call
    /// stack.
    pub fn sp(&self) -> (sp: u8)
        ensures
            sp == self@.sp,
    {
        self.sp
    }

    /// Sets the stack pointer to `sp`, which is at most the size of the
    /// call stack.
    pub fn set_sp(&mut self, sp: u8)
        requires
            old(self).wf(),
            sp <= 16,
        ensures
            final(self).wf(),
            final(self)@ == (Machine { sp, ..old(self)@ }),
    {
        self.sp = sp;
    }

    /// The delay timer.
    pub fn delay_timer(&self) -> (delay_timer: u8)
        ensures
            delay_timer == self@.delay_timer,
    {
        self.delay_timer
    }

    /// Sets the delay timer to `value`.
    pub fn set_delay_timer_value(&mut self, value: u8)
        requires
            old(self).wf(),
        ensures
            final(self).wf(),
            final(self)@ == (Machine { delay_timer: value, ..old(self)@ }),
    {
        self.delay_timer = value;
    }

    /// The sound timer.
    pub fn sound_timer(&self) -> (sound_timer: u8)
        ensures
            sound_timer == self@.sound_timer,
    {
        self.sound_timer
    }

    /// Sets the sound timer to `value`.
    pub fn set_sound_timer_value(&mut self, value: u8)
        requires
            old(self).wf(),
        ensures
            final(self).wf(),
            final(self)@ == (Machine { sound_timer: value, ..old(self)@ }),
    {
        self.sound_timer = value;
    }

    /// The value of register `index`.
    pub fn register(&self, index: usize) -> (value: u8)
        requires
            index < 16,
        ensures
            value == self@.registers[index as int],
    {
        self.registers[index]
    }

    /// Writes `value` into register `index`.
    pub fn set_register(&mut self, index: usize, value: u8)
        requires
            old(self).wf(),
            index < 16,
        ensures
            final(self).wf(),
            final(self)@ == (Machine {
                registers: old(self)@.registers.update(index as int, value),
                ..old(self)@
            }),
    {
        self.registers[index] = value;
    }

    /// The byte of memory at `address`.
    pub fn memory(&self, address: usize) -> (value: u8)
        requires
            address < 4096,
        ensures
            value == self@.memory[address as int],
    {
        self.memory[address]
    }

    /// Writes `value` into memory at `address`.
    pub fn set_memory(&mut self, address: usize, value: u8)
        requires
            old(self).wf(),
            address < 4096,
        ensures
            final(self).wf(),
            final(self)@ == (Machine {
                memory: old(self)@.memory.update(address as int, value),
                ..old(self)@
            }),
    {
        self.memory[address] = value;
    }

    /// The return address in slot `index` of the call stack.
    pub fn stack(&self, index: usize) -> (value: u16)
        requires
            index < 16,
        ensures
            value == self@.stack[index as int],
    {
        self.stack[index]
    }

    /// Writes `value` into slot `index` of the call stack.
    pub fn set_stack(&mut self, index: usize, value: u16)
        requires
            old(self).wf(),
            index < 16,
        ensures
            final(self).wf(),
            final(self)@ == (Machine {
                stack: old(self)@.stack.update(index as int, value),
                ..old(self)@
            }),
    {
        self.stack[index] = value;
    }

    /// Whether the pixel in row `row`, column `column` is lit.
    pub fn pixel(&self, row: usize, column: usize) -> (lit: bool)
        requires
            row < 32,
            column < 64,
        ensures
            lit == self@.display[row as int][column as int],
    {
        self.display_memory[row][column] == PIXEL_ON
    }

    /// Lights the pixel in row `row`, column `column`, or darkens it.
    pub fn set_pixel(&mut self, row: usize, column: usize, lit: bool)
        requires
            old(self).wf(),
            row < 32,
            column < 64,
        ensures
            final(self).wf(),
            final(self)@ == (Machine {
                display: old(self)@.display.update(
                    row as int,
                    old(self)@.display[row as int].update(column as int, lit),
                ),
                ..old(self)@
            }),
    {
        self.display_memory[row][column] = if lit { PIXEL_ON } else { PIXEL_OFF };
        proof {
            assert(self@.display =~~= old(self)@.display.update(
                row as int,
                old(self)@.display[row as int].update(column as int, lit),
            ));
        }
    }

    /// A copy of the framebuffer: 32 rows of 64 cells, each `PIXEL_ON` for
    /// a lit pixel and `PIXEL_OFF` for a dark one.
    pub fn get_display_memory(&self) -> (cells: [[u32; 64]; 32])
        requires
            self.wf(),
        ensures
            forall|r: int, c: int|
                0 <= r < 32 && 0 <= c < 64 ==> #[trigger] cells@[r]@[c] == if self@.display[r][c] {
                    PIXEL_ON
                } else {
                    PIXEL_OFF
                },
    {
        self.display_memory
    }

    /// The keypad, for the input side to set and clear keys: one cell per
    /// key, 1 while the key is held down and 0 while it is up.
    pub fn get_keypad(&mut self) -> (keys: &mut [u8; 16])
        ensures
            keys@ == old(self)@.keypad,
            final(self)@ == (Machine { keypad: final(keys)@, ..old(self)@ }),
            old(self).wf() ==> final(self).wf(),
    {
        &mut self.keypad
    }
}

impl Chip8 {
    /// Reads the program text `instructions` and writes its words into
    /// memory from the program start address on. Where the text is not a
    /// program, or is too long for the memory, nothing is written and the
    /// error says why.
    pub fn load_instructions(&mut self, instructions: &str) -> (result: Result<(), LoadError>)
        requires
            old(self).wf(),
        ensures
            final(self).wf(),
            match result {
                Ok(()) => {
                    &&& all_words_valid(instructions@)
                    &&& opcodes_of(instructions@).len() <= MAX_PROGRAM_WORDS
                    &&& final(self)@ == old(self)@.load_opcodes_into_memory(
                        opcodes_of(instructions@),
                    )
                },
                Err(LoadError::InvalidWord { index }) => {
                    &&& is_first_invalid(instructions@, index as int)
                    &&& final(self)@ == old(self)@
                },
                Err(LoadError::ProgramTooLarge) => {
                    &&& all_words_valid(instructions@)
                    &&& opcodes_of(instructions@).len() > MAX_PROGRAM_WORDS
                    &&& final(self)@ == old(self)@
                },
            },
    {
        match parse_instructions(instructions) {
            Ok(opcodes) => {
                if opcodes.len() > MAX_PROGRAM_WORDS {
                    Err(LoadError::ProgramTooLarge)
                } else {
                    self.load_opcodes_into_memory(&opcodes);
                    Ok(())
                }
            },
            Err(e) => Err(e),
        }
    }

    /// Creates a machine that is ready to run the program whose text is
    /// `instructions`: everything zero, the program counter at the program
    /// start address, the font in memory and the program after it.
    pub fn new(instructions: &str) -> (result: Result<Chip8, LoadError>)
        ensures
            match result {
                Ok(c8) => {
                    &&& c8.wf()
                    &&& all_words_valid(instructions@)
                    &&& opcodes_of(instructions@).len() <= MAX_PROGRAM_WORDS
                    &&& c8@ == blank_machine().load_fontset().load_opcodes_into_memory(
                        opcodes_of(instructions@),
                    )
                },
                Err(LoadError::InvalidWord { index }) => is_first_invalid(
                    instructions@,
                    index as int,
                ),
                Err(LoadError::ProgramTooLarge) => {
                    &&& all_words_valid(instructions@)
                    &&& opcodes_of(instructions@).len() > MAX_PROGRAM_WORDS
                },
            },
    {
        let mut c8 = Chip8::blank();
        c8.load_fontset();
        match c8.load_instructions(instructions) {
            Ok(()) => Ok(c8),
            Err(e) => Err(e),
        }
    }
}

} // verus!
