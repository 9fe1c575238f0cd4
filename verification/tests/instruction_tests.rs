use chip8::chip8::Chip8;
use chip8::constants::{FONT_SET, FONT_SET_START_ADDRESS, PIXEL_OFF, PIXEL_ON, PROGRAM_START_ADDRESS};

const ZERO_SPRITE: [[u8; 8]; 5] = [
    [1, 1, 1, 1, 0, 0, 0, 0],
    [1, 0, 0, 1, 0, 0, 0, 0],
    [1, 0, 0, 1, 0, 0, 0, 0],
    [1, 0, 0, 1, 0, 0, 0, 0],
    [1, 1, 1, 1, 0, 0, 0, 0],
];

const ONE_SPRITE: [[u8; 8]; 5] = [
    [0, 0, 1, 0, 0, 0, 0, 0],
    [0, 1, 1, 0, 0, 0, 0, 0],
    [0, 0, 1, 0, 0, 0, 0, 0],
    [0, 0, 1, 0, 0, 0, 0, 0],
    [0, 1, 1, 1, 0, 0, 0, 0],
];

#[test]
fn test_chip8_constructor() {
    let c8 = Chip8::blank();
    assert_eq!(c8.pc(), 0x200);
}

#[test]
fn test_load_opcodes_into_memory() {
    let mut c8 = Chip8::blank();
    let opcodes = vec![0x6000u16, 0x6100u16, 0xa222u16];

    c8.load_opcodes_into_memory(&opcodes);

    let expected_byte_order = vec![
        0x00u8,
        0x60u8,
        0x00u8,
        0x61u8,
        0x22u8,
        0xa2u8,
    ];

    // assert that nothing is loaded into reserved memory
    for i in 0..PROGRAM_START_ADDRESS {
        assert_eq!(c8.memory(i), 0);
    }

    // assert that instructions are loaded into memory starting at 0x2000
    for i in 0..(opcodes.len() * 2) {
        let address = i + PROGRAM_START_ADDRESS;
        assert_eq!(c8.memory(address), expected_byte_order[i]);
    }
}

#[test]
fn test_load_fontset() {
    let mut c8 = Chip8::blank();

    c8.load_fontset();

    for i in 0..FONT_SET.len() {
        let address = FONT_SET_START_ADDRESS + i;
        assert_eq!(c8.memory(address), FONT_SET[i]);
    }
}

#[test]
fn test_cls() {
    let mut c8 = Chip8::blank();

    // setup: Fill certain pixels on the display
    c8.set_pixel(23, 35, true);
    c8.set_pixel(12, 63, true);
    c8.set_pixel(8, 40, true);

    c8.execute_opcode(0x00e0).unwrap();

    assert_eq!(c8.get_display_memory()[23][35], PIXEL_OFF);
    assert_eq!(c8.get_display_memory()[12][63], PIXEL_OFF);
    assert_eq!(c8.get_display_memory()[8][40], PIXEL_OFF);
}

#[test]
fn test_ret() {
    let mut c8 = Chip8::blank();

    // setup: Point pc to somewhere random and add a return address to the stack
    c8.set_pc(0x512);
    c8.set_stack(0, 0x208);
    c8.set_sp(1);

    c8.execute_opcode(0x00ee).unwrap();

    assert_eq!(c8.pc(), 0x208);
    assert_eq!(c8.sp(), 0);
}

#[test]
fn test_jmp() {
    let mut c8 = Chip8::blank();

    c8.set_pc(0x220);

    c8.execute_opcode(0x1bea).unwrap();

    assert_eq!(c8.pc(), 0xbea);
}

#[test]
fn test_call() {
    let mut c8 = Chip8::blank();
    c8.set_pc(0x220);

    c8.set_stack(0, 0x208);
    c8.set_sp(1);

    c8.execute_opcode(0x2512).unwrap();

    assert_eq!(c8.pc(), 0x512);
    assert_eq!(c8.stack(0), 0x208);
    assert_eq!(c8.stack(1), 0x220);
    assert_eq!(c8.sp(), 2)
}

#[test]
fn test_se_byte_should_skip() {
    let mut c8 = Chip8::blank();

    c8.set_pc(0x220);
    c8.set_register(10, 0x32);

    c8.execute_opcode(0x3a32).unwrap();

    assert_eq!(c8.pc(), 0x0222);
}

#[test]
fn test_se_byte_shouldnt_skip() {
    let mut c8 = Chip8::blank();

    c8.set_pc(0x220);
    c8.set_register(0xa, 0x32);

    c8.execute_opcode(0x3abc).unwrap();

    assert_eq!(c8.pc(), 0x0220);
}

#[test]
fn test_sne_should_skip() {
    let mut c8 = Chip8::blank();

    c8.set_pc(0x220);
    c8.set_register(0xa, 0x32);

    c8.execute_opcode(0x4abc).unwrap();

    assert_eq!(c8.pc(), 0x0222);
}

#[test]
fn test_sne_shouldnt_skip() {
    let mut c8 = Chip8::blank();

    c8.set_pc(0x220);
    c8.set_register(0xa, 0x32);

    c8.execute_opcode(0x4a32).unwrap();

    assert_eq!(c8.pc(), 0x0220);
}

#[test]
fn test_se_register_should_skip() {
    let mut c8 = Chip8::blank();
    c8.set_pc(0x220);

    c8.set_register(10, 0x32);
    c8.set_register(3, 0x32);

    c8.execute_opcode(0x5a30).unwrap();

    assert_eq!(c8.pc(), 0x0222);
}

#[test]
fn test_se_register_shouldnt_skip() {
    let mut c8 = Chip8::blank();
    c8.set_pc(0x220);

    c8.set_register(10, 0x32);
    c8.set_register(3, 0x31);

    c8.execute_opcode(0x5a30).unwrap();

    assert_eq!(c8.pc(), 0x0220);
}

#[test]
fn test_ld_byte() {
    let mut c8 = Chip8::blank();

    c8.set_register(0xa, 0x23);

    c8.execute_opcode(0x6abd).unwrap();

    assert_eq!(c8.register(0xa), 0xbd);
}

#[test]
fn test_add_byte() {
    let mut c8 = Chip8::blank();

    c8.set_register(0xa, 0x23);

    c8.execute_opcode(0x7a05).unwrap();

    assert_eq!(c8.register(0xa), 0x28);
}

#[test]
fn test_add_byte_overflow() {
    let mut c8 = Chip8::blank();
    c8.set_register(0xa, 0xFF);

    c8.execute_opcode(0x7a01).unwrap();

    assert_eq!(c8.register(0xa), 0x0);
}

#[test]
fn test_ld_register() {
    let mut c8 = Chip8::blank();

    c8.set_register(0xa, 0x23);
    c8.set_register(0xd, 0x48);

    c8.execute_opcode(0x8ad0).unwrap();

    assert_eq!(c8.register(0xa), 0x48);
}

#[test]
fn test_or() {
    let mut c8 = Chip8::blank();

    c8.set_register(0xa, 0x23);
    c8.set_register(0xd, 0x48);

    c8.execute_opcode(0x8ad1).unwrap();

    assert_eq!(c8.register(0xa), 0x23 | 0x48);
}

#[test]
fn test_and() {
    let mut c8 = Chip8::blank();

    c8.set_register(0xa, 0xF0);
    c8.set_register(0xd, 0x0F);

    c8.execute_opcode(0x8ad2).unwrap();

    assert_eq!(c8.register(0xa), 0x0);
}

#[test]
fn test_xor() {
    let mut c8 = Chip8::blank();

    c8.set_register(0xa, 0x23);
    c8.set_register(0xd, 0x48);

    c8.execute_opcode(0x8ad3).unwrap();

    assert_eq!(c8.register(0xa), 0x23 ^ 0x48);
}

#[test]
fn test_add_registers() {
    let mut c8 = Chip8::blank();

    c8.set_register(0xa, 0x23);
    c8.set_register(0xd, 0x48);
    c8.set_register(0xf, 0x01);

    c8.execute_opcode(0x8ad4).unwrap();

    assert_eq!(c8.register(0xa), 0x23 + 0x48);
    assert_eq!(c8.register(0xf), 0x0);
}

#[test]
fn test_add_registers_overflow() {
    let mut c8 = Chip8::blank();

    c8.set_register(0xa, 0xFF);
    c8.set_register(0xd, 0x1);
    c8.set_register(0xf, 0x0);

    c8.execute_opcode(0x8ad4).unwrap();

    assert_eq!(c8.register(0xa), 0x0);
    assert_eq!(c8.register(0xf), 0x1);
}

#[test]
fn test_sub_registers() {
    let mut c8 = Chip8::blank();

    c8.set_register(0xa, 0xFF);
    c8.set_register(0xd, 0x1);
    c8.set_register(0xf, 0x0);

    c8.execute_opcode(0x8ad5).unwrap();
    
    assert_eq!(c8.register(0xa), 0xFE);
    assert_eq!(c8.register(0xf), 0x1);
}

#[test]
fn test_sub_registers_underflow() {
    let mut c8 = Chip8::blank();

    c8.set_register(0xa, 0x2);
    c8.set_register(0xd, 0xFF);
    c8.set_register(0xf, 0x0);

    c8.execute_opcode(0x8ad5).unwrap();
    
    assert_eq!(c8.register(0xa), 0x3);
    assert_eq!(c8.register(0xf), 0x0);
}

#[test]
fn test_shr_set_vf() {
    let mut c8 = Chip8::blank();

    c8.set_register(0xa, 0x0);
    c8.set_register(0xd, 0x1f);
    c8.set_register(0xf, 0x0);

    c8.execute_opcode(0x8ad6).unwrap();

    assert_eq!(c8.register(0xa), 0xf);
    assert_eq!(c8.register(0xf), 0x1);
}

#[test]
fn test_shr_dont_set_vf() {
    let mut c8 = Chip8::blank();

    c8.set_register(0xa, 0x0);
    c8.set_register(0xd, 0x10);
    c8.set_register(0xf, 0x1);

    c8.execute_opcode(0x8ad6).unwrap();

    assert_eq!(c8.register(0xa), 0x08);
    assert_eq!(c8.register(0xf), 0x0);
}

#[test]
fn test_subn_registers() {
    let mut c8 = Chip8::blank();

    c8.set_register(0xa, 0x02);
    c8.set_register(0xb, 0x0a);
    c8.set_register(0xf, 0x0);

    c8.execute_opcode(0x8ab7).unwrap();

    assert_eq!(c8.register(0xa), 0x08);
    assert_eq!(c8.register(0xf), 0x1);
}

#[test]
fn test_subn_registers_underflow() {
    let mut c8 = Chip8::blank();

    c8.set_register(0xa, 0x0a);
    c8.set_register(0xb, 0x02);
    c8.set_register(0xf, 0x1);

    c8.execute_opcode(0x8ab7).unwrap();

    assert_eq!(c8.register(0xa), 0xf8);
    assert_eq!(c8.register(0xf), 0x0);
}

#[test]
fn test_shl_set_vf() {
    let mut c8 = Chip8::blank();

    c8.set_register(0xa, 0xff);
    c8.set_register(0xc, 0x0);
    c8.set_register(0xf, 0x0);

    c8.execute_opcode(0x8cae).unwrap();

    assert_eq!(c8.register(0xc), 0xfe);
    assert_eq!(c8.register(0xf), 0x1);
}

#[test]
fn test_shl_dont_set_vf() {
    let mut c8 = Chip8::blank();

    c8.set_register(0xa, 0x7f);
    c8.set_register(0xc, 0x0);
    c8.set_register(0xf, 0x1);

    c8.execute_opcode(0x8cae).unwrap();

    assert_eq!(c8.register(0xc), 0xfe);
    assert_eq!(c8.register(0xf), 0x0);
}

#[test]
fn test_sne_register_skip() {
    let mut c8 = Chip8::blank();

    c8.set_pc(0x206);
    c8.set_register(0xa, 0x78);
    c8.set_register(0xb, 0x98);

    c8.execute_opcode(0x9ab0).unwrap();

    assert_eq!(c8.pc(), 0x208);
}

#[test]
fn test_sne_register_dont_skip() {
    let mut c8 = Chip8::blank();

    c8.set_pc(0x206);
    c8.set_register(0xa, 0x78);
    c8.set_register(0xb, 0x78);

    c8.execute_opcode(0x9ab0).unwrap();

    assert_eq!(c8.pc(), 0x206);
}

#[test]
fn test_ld_i() {
    let mut c8 = Chip8::blank();

    c8.set_index_register(0x512);

    c8.execute_opcode(0xaabc).unwrap();

    assert_eq!(c8.index_register(), 0xabc);
}

#[test]
fn test_jmp_v0() {
    let mut c8 = Chip8::blank();

    c8.set_pc(0x224);
    c8.set_register(0, 0x10);

    c8.execute_opcode(0xBabc).unwrap();

    assert_eq!(c8.pc(), 0xacc);
}

#[test]
fn test_draw() {
    let mut c8 = Chip8::blank();
    c8.load_fontset();

    // load a 1 on screen starting at (0, 0)
    // the 1 sprite is located at 0x55 in memory
    c8.set_index_register(0x55);
    c8.set_register(0xa, 0x0);
    c8.set_register(0xb, 0x0);
    c8.set_register(0xf, 0x1);
    
    c8.execute_opcode(0xdab5).unwrap();

    for i in 0..5 {
        for j in 0..8 {
            let expected_value = if ONE_SPRITE[i][j] == 1 { PIXEL_ON } else { PIXEL_OFF };
            assert_eq!(c8.get_display_memory()[i][j], expected_value);
        }
    }
    assert_eq!(c8.register(0xf), 0x0);
    assert_eq!(c8.index_register(), 0x55);
}

#[test]
fn test_draw_overlapping_sprites() {
    let mut c8 = Chip8::blank();
    c8.load_fontset();

    // preload a sprite at (1, 1)
    for i in 0..5 {
        for j in 0..8 {
            c8.set_pixel(i+1, j+1, ZERO_SPRITE[i][j] == 1u8);
        }
    }

    c8.set_index_register(0x50);
    c8.set_register(0xa, 0x1);
    c8.set_register(0xb, 0x1);
    c8.set_register(0xf, 0x0);

    c8.execute_opcode(0xdab5).unwrap();

    assert_eq!(c8.register(0xf), 0x1);

    // our draw operation should have erased our existing 0 sprite
    for i in 0..32 {
        for j in 0..64 {
            assert_eq!(c8.get_display_memory()[i][j], PIXEL_OFF);
        }
    }

    assert_eq!(c8.index_register(), 0x50);
}

#[test]
fn test_draw_overflowing_sprites() {
    let mut c8 = Chip8::blank();
    c8.load_fontset();


    let mut expected_display = [[PIXEL_OFF; 64]; 32];

    let x = 61;
    let y = 29;

    for i in 0..5 {
        for j in 0..8 {
            expected_display[(y + i) % 32][(x + j) % 64] = if ZERO_SPRITE[i][j] == 1 { PIXEL_ON } else { PIXEL_OFF };
        }
    }

    c8.set_index_register(0x50);
    c8.set_register(0xa, x as u8);
    c8.set_register(0xb, y as u8);
    c8.set_register(0xf, 0x1);

    c8.execute_opcode(0xdab5).unwrap();

    assert_eq!(c8.index_register(), 0x50);
    assert_eq!(c8.register(0xf), 0x0);

    for i in 0..32 {
        for j in 0..64 {
            assert_eq!(c8.get_display_memory()[i][j], expected_display[i][j]);
        }
    }
}

#[test]
fn test_skip_key_pressed() {
    let mut c8 = Chip8::blank();

    c8.set_pc(0x224);
    c8.get_keypad()[2] = 1;
    c8.set_register(0xa, 2);

    c8.execute_opcode(0xea9e).unwrap();

    assert_eq!(c8.pc(), 0x226);
}

#[test]
fn test_skip_key_pressed_no_skip() {
    let mut c8 = Chip8::blank();

    c8.set_pc(0x224);
    c8.get_keypad()[2] = 0;
    c8.set_register(0xa, 2);

    c8.execute_opcode(0xea9e).unwrap();

    assert_eq!(c8.pc(), 0x224);
}

#[test]
fn test_skip_key_not_pressed() {
    let mut c8 = Chip8::blank();

    c8.set_pc(0x224);
    c8.get_keypad()[2] = 0;
    c8.set_register(0xa, 2);

    c8.execute_opcode(0xeaa1).unwrap();

    assert_eq!(c8.pc(), 0x226);
}

#[test]
fn test_skip_key_not_pressed_no_skip() {
    let mut c8 = Chip8::blank();

    c8.set_pc(0x224);
    c8.get_keypad()[2] = 1;
    c8.set_register(0xa, 2);

    c8.execute_opcode(0xeaa1).unwrap();

    assert_eq!(c8.pc(), 0x224);
}

#[test]
fn test_ld_delay_timer() {
    let mut c8 = Chip8::blank();
    c8.set_delay_timer_value(0x20);

    c8.execute_opcode(0xfa07).unwrap();

    assert_eq!(c8.register(0xa), 0x20);
}

#[test]
fn test_set_delay_timer() {
    let mut c8 = Chip8::blank();
    c8.set_register(0xa, 0x50);

    c8.execute_opcode(0xfa15).unwrap();

    assert_eq!(c8.delay_timer(), 0x50);
}

#[test]
fn test_ld_key_press() {
    let mut c8 = Chip8::blank();

    c8.get_keypad()[0xf] = 1;

    c8.execute_opcode(0xfa0a).unwrap();

    assert_eq!(c8.register(0xa), 0xf);
}

#[test]
fn test_ld_key_press_no_keys_pressed() {
    let mut c8 = Chip8::blank();

    c8.set_pc(0x204);
    c8.execute_opcode(0xfa0a).unwrap();

    assert_eq!(c8.pc(), 0x202);
}

#[test]
fn test_set_sound_timer() {
    let mut c8 = Chip8::blank();

    c8.set_register(0xa, 0x20);

    c8.execute_opcode(0xfa18).unwrap();

    assert_eq!(c8.sound_timer(), 0x20);
}

#[test]
fn test_add_index_register() {
    let mut c8 = Chip8::blank();

    c8.set_register(0xa, 0x2);
    c8.set_index_register(0x220);

    c8.execute_opcode(0xfa1e).unwrap();

    assert_eq!(c8.index_register(), 0x222);
}

#[test]
fn test_add_index_register_overflow() {
    let mut c8 = Chip8::blank();

    c8.set_register(0xa, 0x2);
    c8.set_index_register(0xFFFF);

    c8.execute_opcode(0xfa1e).unwrap();

    assert_eq!(c8.index_register(), 0x1);
}

#[test]
fn test_ld_sprite() {
    let mut c8 = Chip8::blank();

    c8.set_register(0xa, 0x4);

    c8.execute_opcode(0xfa29).unwrap();

    assert_eq!(c8.index_register(), 0x64);
}

#[test]
fn test_ld_sprite_zero() {
    let mut c8 = Chip8::blank();

    c8.set_register(0xa, 0x0);

    c8.execute_opcode(0xfa29).unwrap();

    assert_eq!(c8.index_register(), 0x50);
}

#[test]
fn test_ld_bcd() {
    let mut c8 = Chip8::blank();

    c8.set_register(0xa, 0xFE); // 254
    c8.set_index_register(0x100);

    c8.execute_opcode(0xfa33).unwrap();

    assert_eq!(c8.memory(0x100), 2);
    assert_eq!(c8.memory(0x101), 5);
    assert_eq!(c8.memory(0x102), 4);
}

#[test]
fn test_ld_bcd_double_digits() {
    let mut c8 = Chip8::blank();

    c8.set_register(0xa, 0x10); // 16
    c8.set_index_register(0x100);

    c8.execute_opcode(0xfa33).unwrap();

    assert_eq!(c8.memory(0x100), 0);
    assert_eq!(c8.memory(0x101), 1);
    assert_eq!(c8.memory(0x102), 6);
}

#[test]
fn test_ld_bcd_single_digits() {
    let mut c8 = Chip8::blank();

    c8.set_register(0xa, 0x2); // 2
    c8.set_index_register(0x100);

    c8.execute_opcode(0xfa33).unwrap();

    assert_eq!(c8.memory(0x100), 0);
    assert_eq!(c8.memory(0x101), 0);
    assert_eq!(c8.memory(0x102), 2);
}

#[test]
fn test_ld_registers_into_index_register() {
    let mut c8 = Chip8::blank();

    c8.set_register(0x0, 0x1);
    c8.set_register(0x1, 0x2);
    c8.set_register(0x2, 0x3);
    c8.set_register(0x3, 0x4);
    c8.set_register(0x4, 0x5);
    c8.set_index_register(0x100);

    c8.execute_opcode(0xf455).unwrap();

    assert_eq!(c8.index_register(), 0x105);

    assert_eq!(c8.memory(0x100), 0x1);
    assert_eq!(c8.memory(0x101), 0x2);
    assert_eq!(c8.memory(0x102), 0x3);
    assert_eq!(c8.memory(0x103), 0x4);
    assert_eq!(c8.memory(0x104), 0x5);
}

#[test]
fn test_read_index_register_into_registers() {
    let mut c8 = Chip8::blank();

    c8.set_memory(0x100, 0x1);
    c8.set_memory(0x101, 0x2);
    c8.set_memory(0x102, 0x3);
    c8.set_memory(0x103, 0x4);
    c8.set_memory(0x104, 0x5);

    c8.set_index_register(0x100);

    c8.execute_opcode(0xf465).unwrap();

    assert_eq!(c8.index_register(), 0x105);

    assert_eq!(c8.register(0), 0x1);
    assert_eq!(c8.register(1), 0x2);
    assert_eq!(c8.register(2), 0x3);
    assert_eq!(c8.register(3), 0x4);
    assert_eq!(c8.register(4), 0x5);
}

#[test]
fn test_cycle() {
    let mut c8 = Chip8::blank();

    // load an instruction into memory and set it to the next op
    c8.set_pc(0x200);
    c8.set_memory(0x200, 0xb5);
    c8.set_memory(0x201, 0xda);

    // set delay and sound timers
    c8.set_delay_timer_value(3);
    c8.set_sound_timer_value(4);

    // use setup for test_draw_overlapping_sprites
    c8.load_fontset();
    for i in 0..5 {
        for j in 0..8 {
            c8.set_pixel(i+1, j+1, ZERO_SPRITE[i][j] == 1u8);
        }
    }
    c8.set_index_register(0x50);
    c8.set_register(0xa, 0x1);
    c8.set_register(0xb, 0x1);
    c8.set_register(0xf, 0x0);

    c8.cycle().unwrap();

    // assert cycle operations
    assert_eq!(c8.pc(), 0x202);
    assert_eq!(c8.delay_timer(), 2);
    assert_eq!(c8.sound_timer(), 3);

    // assertions from test_draw_overlapping_sprites
    assert_eq!(c8.register(0xf), 0x1);
    for i in 0..32 {
        for j in 0..64 {
            assert_eq!(c8.get_display_memory()[i][j], PIXEL_OFF);
        }
    }
    assert_eq!(c8.index_register(), 0x50);
}
