use chip8::chip8::Chip8;
use chip8::constants::{FONT_SET, FONT_SET_START_ADDRESS, PIXEL_OFF, PROGRAM_START_ADDRESS};

#[test]
fn chip8_test_chip8_constructor() {
    let c8 = Chip8::blank();
    assert_eq!(c8.pc(), 0x200);
}

#[test]
fn chip8_test_load_opcodes_into_memory() {
    let mut c8 = Chip8::blank();
    let opcodes = vec![0x6000u16, 0x6100u16, 0xa222u16];

    c8.load_opcodes_into_memory(&opcodes);

    let expected_byte_order = vec![
        0x00u8,
        0x60u8,
        0x00u8,
        0x61u8,
        0x22u8,
        0xa2u8,
    ];

    // assert that nothing is loaded into reserved memory
    for i in 0..PROGRAM_START_ADDRESS {
        assert_eq!(c8.memory(i), 0);
    }

    // assert that instructions are loaded into memory starting at 0x2000
    for i in 0..(opcodes.len() * 2) {
        let address = i + PROGRAM_START_ADDRESS;
        assert_eq!(c8.memory(address), expected_byte_order[i]);
    }
}

#[test]
fn chip8_test_load_fontset() {
    let mut c8 = Chip8::blank();

    c8.load_fontset();

    for i in 0..FONT_SET.len() {
        let address = FONT_SET_START_ADDRESS + i;
        assert_eq!(c8.memory(address), FONT_SET[i]);
    }
}

#[test]
fn chip8_test_cls() {
    let mut c8 = Chip8::blank();

    // setup: Fill certain pixels on the display
    c8.set_pixel(23, 35, true);
    c8.set_pixel(12, 63, true);
    c8.set_pixel(8, 40, true);

    c8.cls(0x00e0);

    assert_eq!(c8.get_display_memory()[23][35], PIXEL_OFF);
    assert_eq!(c8.get_display_memory()[12][63], PIXEL_OFF);
    assert_eq!(c8.get_display_memory()[8][40], PIXEL_OFF);
}

#[test]
fn chip8_test_ret() {
    let mut c8 = Chip8::blank();

    // setup: Point pc to somewhere random and add a return address to the stack
    c8.set_pc(0x512);
    c8.set_stack(0, 0x208);
    c8.set_sp(1);

    c8.ret(0x00ee);

    assert_eq!(c8.pc(), 0x208);
    assert_eq!(c8.sp(), 0);
}

#[test]
fn chip8_test_jmp() {
    let mut c8 = Chip8::blank();

    c8.set_pc(0x220);

    c8.jmp(0x1bea);

    assert_eq!(c8.pc(), 0xbea);
}

#[test]
fn chip8_test_call() {
    let mut c8 = Chip8::blank();
    c8.set_pc(0x220);

    c8.set_stack(0, 0x208);
    c8.set_sp(1);

    c8.call(0x2512);

    assert_eq!(c8.pc(), 0x512);
    assert_eq!(c8.stack(0), 0x208);
    assert_eq!(c8.stack(1), 0x220);
    assert_eq!(c8.sp(), 2)
}

#[test]
fn chip8_test_se_byte_should_skip() {
    let mut c8 = Chip8::blank();

    c8.set_pc(0x220);
    c8.set_register(10, 0x32);

    c8.se_byte(0x3a32);

    assert_eq!(c8.pc(), 0x0222);
}

#[test]
fn chip8_test_se_byte_shouldnt_skip() {
    let mut c8 = Chip8::blank();

    c8.set_pc(0x220);
    c8.set_register(0xa, 0x32);

    c8.se_byte(0x3abc);

    assert_eq!(c8.pc(), 0x0220);
}

#[test]
fn chip8_test_sne_should_skip() {
    let mut c8 = Chip8::blank();

    c8.set_pc(0x220);
    c8.set_register(0xa, 0x32);

    c8.sne_byte(0x4abc);

    assert_eq!(c8.pc(), 0x0222);
}

#[test]
fn chip8_test_sne_shouldnt_skip() {
    let mut c8 = Chip8::blank();

    c8.set_pc(0x220);
    c8.set_register(0xa, 0x32);

    c8.sne_byte(0x4a32);

    assert_eq!(c8.pc(), 0x0220);
}

#[test]
fn chip8_test_se_register_should_skip() {
    let mut c8 = Chip8::blank();
    c8.set_pc(0x220);

    c8.set_register(10, 0x32);
    c8.set_register(3, 0x32);

    c8.se_register(0x5a30);

    assert_eq!(c8.pc(), 0x0222);
}

#[test]
fn chip8_test_se_register_shouldnt_skip() {
    let mut c8 = Chip8::blank();
    c8.set_pc(0x220);

    c8.set_register(10, 0x32);
    c8.set_register(3, 0x31);

    c8.se_register(0x5a30);

    assert_eq!(c8.pc(), 0x0220);
}

#[test]
fn chip8_test_ld_byte() {
    let mut c8 = Chip8::blank();

    c8.set_register(0xa, 0x23);

    c8.ld_byte(0x6abd);

    assert_eq!(c8.register(0xa), 0xbd);
}

#[test]
fn chip8_test_add_byte() {
    let mut c8 = Chip8::blank();

    c8.set_register(0xa, 0x23);

    c8.add_byte(0x7a05);

    assert_eq!(c8.register(0xa), 0x28);
}

#[test]
fn chip8_test_add_byte_overflow() {
    let mut c8 = Chip8::blank();
    c8.set_register(0xa, 0xFF);

    c8.add_byte(0x7a01);

    assert_eq!(c8.register(0xa), 0x0);
}

#[test]
fn chip8_test_ld_register() {
    let mut c8 = Chip8::blank();

    c8.set_register(0xa, 0x23);
    c8.set_register(0xd, 0x48);

    c8.ld_register(0x8ad0);

    assert_eq!(c8.register(0xa), 0x48);
}

#[test]
fn chip8_test_or() {
    let mut c8 = Chip8::blank();

    c8.set_register(0xa, 0x23);
    c8.set_register(0xd, 0x48);

    c8.or(0x8ad1);

    assert_eq!(c8.register(0xa), 0x23 | 0x48);
}

#[test]
fn chip8_test_and() {
    let mut c8 = Chip8::blank();

    c8.set_register(0xa, 0xF0);
    c8.set_register(0xd, 0x0F);

    c8.and(0x8ad2);

    assert_eq!(c8.register(0xa), 0x0);
}

#[test]
fn chip8_test_xor() {
    let mut c8 = Chip8::blank();

    c8.set_register(0xa, 0x23);
    c8.set_register(0xd, 0x48);

    c8.xor(0x8ad3);

    assert_eq!(c8.register(0xa), 0x23 ^ 0x48);
}

#[test]
fn chip8_test_add_registers() {
    let mut c8 = Chip8::blank();

    c8.set_register(0xa, 0x23);
    c8.set_register(0xd, 0x48);
    c8.set_register(0xf, 0x01);

    c8.add_registers(0x8ad4);

    assert_eq!(c8.register(0xa), 0x23 + 0x48);
    assert_eq!(c8.register(0xf), 0x0);
}

#[test]
fn chip8_test_add_registers_overflow() {
    let mut c8 = Chip8::blank();

    c8.set_register(0xa, 0xFF);
    c8.set_register(0xd, 0x1);
    c8.set_register(0xf, 0x0);

    c8.add_registers(0x8ad4);

    assert_eq!(c8.register(0xa), 0x0);
    assert_eq!(c8.register(0xf), 0x1);
}

#[test]
fn chip8_test_sub_registers() {
    let mut c8 = Chip8::blank();

    c8.set_register(0xa, 0xFF);
    c8.set_register(0xd, 0x1);
    c8.set_register(0xf, 0x0);

    c8.sub_registers(0x8ad5);
    
    assert_eq!(c8.register(0xa), 0xFE);
    assert_eq!(c8.register(0xf), 0x1);
}

#[test]
fn chip8_test_sub_registers_underflow() {
    let mut c8 = Chip8::blank();

    c8.set_register(0xa, 0x2);
    c8.set_register(0xd, 0xFF);
    c8.set_register(0xf, 0x0);

    c8.sub_registers(0x8ad5);
    
    assert_eq!(c8.register(0xa), 0x3);
    assert_eq!(c8.register(0xf), 0x0);
}

#[test]
fn chip8_test_shr_set_vf() {
    let mut c8 = Chip8::blank();

    c8.set_register(0xa, 0x0);
    c8.set_register(0xd, 0x1f);
    c8.set_register(0xf, 0x0);

    c8.shr(0x8ad5);

    assert_eq!(c8.register(0xa), 0xf);
    assert_eq!(c8.register(0xf), 0x1);
}

#[test]
fn chip8_test_shr_dont_set_vf() {
    let mut c8 = Chip8::blank();

    c8.set_register(0xa, 0x0);
    c8.set_register(0xd, 0x10);
    c8.set_register(0xf, 0x1);

    c8.shr(0x8ad5);

    assert_eq!(c8.register(0xa), 0x08);
    assert_eq!(c8.register(0xf), 0x0);
}

#[test]
fn chip8_test_subn_registers() {
    let mut c8 = Chip8::blank();

    c8.set_register(0xa, 0x02);
    c8.set_register(0xb, 0x0a);
    c8.set_register(0xf, 0x0);

    c8.subn_registers(0x8ab7);

    assert_eq!(c8.register(0xa), 0x08);
    assert_eq!(c8.register(0xf), 0x1);
}

#[test]
fn chip8_test_subn_registers_underflow() {
    let mut c8 = Chip8::blank();

    c8.set_register(0xa, 0x0a);
    c8.set_register(0xb, 0x02);
    c8.set_register(0xf, 0x1);

    c8.subn_registers(0x8ab7);

    assert_eq!(c8.register(0xa), 0xf8);
    assert_eq!(c8.register(0xf), 0x0);
}

#[test]
fn chip8_test_shl_set_vf() {
    let mut c8 = Chip8::blank();

    c8.set_register(0xa, 0xff);
    c8.set_register(0xc, 0x0);
    c8.set_register(0xf, 0x0);

    c8.shl(0x8cae);

    assert_eq!(c8.register(0xc), 0xfe);
    assert_eq!(c8.register(0xf), 0x1);
}

#[test]
fn chip8_test_shl_dont_set_vf() {
    let mut c8 = Chip8::blank();

    c8.set_register(0xa, 0x7f);
    c8.set_register(0xc, 0x0);
    c8.set_register(0xf, 0x1);

    c8.shl(0x8cae);

    assert_eq!(c8.register(0xc), 0xfe);
    assert_eq!(c8.register(0xf), 0x0);
}

#[test]
fn chip8_test_sne_register_skip() {
    let mut c8 = Chip8::blank();

    c8.set_pc(0x206);
    c8.set_register(0xa, 0x78);
    c8.set_register(0xb, 0x98);

    c8.sne_register(0x9ab0);

    assert_eq!(c8.pc(), 0x208);
}

#[test]
fn chip8_test_sne_register_dont_skip() {
    let mut c8 = Chip8::blank();

    c8.set_pc(0x206);
    c8.set_register(0xa, 0x78);
    c8.set_register(0xb, 0x78);

    c8.sne_register(0x9ab0);

    assert_eq!(c8.pc(), 0x206);
}

#[test]
fn chip8_test_ld_i() {
    let mut c8 = Chip8::blank();

    c8.set_index_register(0x512);

    c8.ld_i(0xaabc);

    assert_eq!(c8.index_register(), 0xabc);
}

#[test]
fn chip8_test_jmp_v0() {
    let mut c8 = Chip8::blank();

    c8.set_pc(0x224);
    c8.set_register(0, 0x10);

    c8.jmp_v0(0xBabc);

    assert_eq!(c8.pc(), 0xacc);
}
