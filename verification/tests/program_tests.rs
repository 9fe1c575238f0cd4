use chip8::chip8::Chip8;
use chip8::constants::FONT_SET;
use chip8::program::{characters, hex_digit_value, is_whitespace, parse_instructions, trim_range, LoadError};

#[test]
fn parses_words_separated_by_spaces_and_line_feeds() {
    assert_eq!(parse_instructions("6000 6100\na222"), Ok(vec![0x6000, 0x6100, 0xa222]));
    assert_eq!(parse_instructions("00E0"), Ok(vec![0x00E0]));
    assert_eq!(parse_instructions("AbCd\nffff\n0"), Ok(vec![0xABCD, 0xFFFF, 0x0]));
}

#[test]
fn trims_white_space_at_both_ends() {
    assert_eq!(parse_instructions("  \n\t6000 6100\r\n \n"), Ok(vec![0x6000, 0x6100]));
    assert_eq!(parse_instructions("\u{a0}\u{3000}1234\u{2028}\u{85}"), Ok(vec![0x1234]));
}

#[test]
fn accepts_a_plus_sign_and_leading_zeros() {
    assert_eq!(parse_instructions("+6000 +f"), Ok(vec![0x6000, 0xf]));
    assert_eq!(parse_instructions("0000000000001234"), Ok(vec![0x1234]));
    assert_eq!(parse_instructions("+0000ffff"), Ok(vec![0xffff]));
}

#[test]
fn rejects_an_empty_text() {
    assert_eq!(parse_instructions(""), Err(LoadError::InvalidWord { index: 0 }));
    assert_eq!(parse_instructions("  \n \t "), Err(LoadError::InvalidWord { index: 0 }));
}

#[test]
fn rejects_two_separators_in_a_row() {
    assert_eq!(parse_instructions("6000  6100"), Err(LoadError::InvalidWord { index: 1 }));
    assert_eq!(parse_instructions("6000\n\n6100"), Err(LoadError::InvalidWord { index: 1 }));
    assert_eq!(parse_instructions("6000 \n6100"), Err(LoadError::InvalidWord { index: 1 }));
}

#[test]
fn rejects_what_is_no_hexadecimal_number() {
    assert_eq!(parse_instructions("6000 61g0 a222"), Err(LoadError::InvalidWord { index: 1 }));
    assert_eq!(parse_instructions("0x6000"), Err(LoadError::InvalidWord { index: 0 }));
    assert_eq!(parse_instructions("-1"), Err(LoadError::InvalidWord { index: 0 }));
    assert_eq!(parse_instructions("+"), Err(LoadError::InvalidWord { index: 0 }));
    assert_eq!(parse_instructions("++1"), Err(LoadError::InvalidWord { index: 0 }));
    assert_eq!(parse_instructions("1+"), Err(LoadError::InvalidWord { index: 0 }));
    assert_eq!(parse_instructions("12_34"), Err(LoadError::InvalidWord { index: 0 }));
    assert_eq!(parse_instructions("1 2 3 \u{e9}"), Err(LoadError::InvalidWord { index: 3 }));
}

#[test]
fn rejects_other_white_space_inside_the_text() {
    assert_eq!(parse_instructions("6000\t6100"), Err(LoadError::InvalidWord { index: 0 }));
    assert_eq!(parse_instructions("6000\r\n6100"), Err(LoadError::InvalidWord { index: 0 }));
}

#[test]
fn rejects_a_number_over_sixteen_bits() {
    assert_eq!(parse_instructions("ffff 10000"), Err(LoadError::InvalidWord { index: 1 }));
    assert_eq!(parse_instructions("fffffffffffffffffffff"), Err(LoadError::InvalidWord { index: 0 }));
    assert_eq!(parse_instructions("100000000"), Err(LoadError::InvalidWord { index: 0 }));
}

#[test]
fn reports_the_first_invalid_word() {
    assert_eq!(parse_instructions("1 zz 3 yy"), Err(LoadError::InvalidWord { index: 1 }));
}

#[test]
fn agrees_with_the_standard_parser_on_single_words() {
    for piece in ["0", "f", "F", "+a", "ffff", "10000", "", "+", "-", "-0", "g", "1g", "00ff", "+00ff", "０"] {
        let expected = u16::from_str_radix(piece, 16).ok();
        let actual = match parse_instructions(&format!("1 {} 2", piece)) {
            Ok(words) => Some(words[1]),
            Err(e) => {
                assert_eq!(e, LoadError::InvalidWord { index: 1 });
                None
            }
        };
        assert_eq!(actual, expected);
    }
}

#[test]
fn characters_are_those_of_the_text() {
    assert_eq!(characters("a\u{e9}\n"), vec!['a', '\u{e9}', '\n']);
    assert_eq!(characters(""), Vec::<char>::new());
}

#[test]
fn white_space_is_what_the_standard_library_calls_so() {
    for u in 0..0x11000u32 {
        if let Some(c) = char::from_u32(u) {
            assert_eq!(is_whitespace(c), c.is_whitespace());
        }
    }
}

#[test]
fn hexadecimal_digits_are_those_of_the_standard_library() {
    for u in 0..0x11000u32 {
        if let Some(c) = char::from_u32(u) {
            assert_eq!(hex_digit_value(c), c.to_digit(16));
        }
    }
}

#[test]
fn trim_range_agrees_with_the_standard_trim() {
    for text in ["", " ", "a", " a", "a ", "  a b  ", "\n\ta\u{a0}", "\u{3000}", " \u{e9} "] {
        let chars: Vec<char> = text.chars().collect();
        let (start, end) = trim_range(&chars);
        let trimmed: String = chars[start..end].iter().collect();
        assert_eq!(trimmed, text.trim());
    }
}

#[test]
fn new_loads_the_font_and_the_program() {
    let c8 = Chip8::new("6000 6100\na222\n").unwrap();
    assert_eq!(c8.pc(), 0x200);
    for i in 0..FONT_SET.len() {
        assert_eq!(c8.memory(0x50 + i), FONT_SET[i]);
    }
    let expected = [0x00u8, 0x60, 0x00, 0x61, 0x22, 0xa2, 0x00];
    for i in 0..expected.len() {
        assert_eq!(c8.memory(0x200 + i), expected[i]);
    }
    assert_eq!(c8.fetch(), 0x6000);
}

#[test]
fn new_rejects_a_bad_text() {
    assert_eq!(Chip8::new("6000 xyz").err(), Some(LoadError::InvalidWord { index: 1 }));
    assert_eq!(Chip8::new("").err(), Some(LoadError::InvalidWord { index: 0 }));
}

#[test]
fn new_rejects_a_program_that_does_not_fit() {
    let words: Vec<String> = (0..1793).map(|_| String::from("1234")).collect();
    let text = words.join(" ");
    assert_eq!(Chip8::new(&text).err(), Some(LoadError::ProgramTooLarge));
    let text = words[..1792].join("\n");
    let c8 = Chip8::new(&text).unwrap();
    assert_eq!(c8.memory(4095), 0x12);
}

#[test]
fn a_bad_word_wins_over_the_size() {
    let mut words: Vec<String> = (0..2000).map(|_| String::from("1234")).collect();
    words[1999] = String::from("oops");
    assert_eq!(Chip8::new(&words.join(" ")).err(), Some(LoadError::InvalidWord { index: 1999 }));
}

#[test]
fn load_instructions_writes_nothing_on_an_error() {
    let mut c8 = Chip8::blank();
    c8.set_memory(0x200, 0x77);
    assert_eq!(c8.load_instructions("1234 5678 nope"), Err(LoadError::InvalidWord { index: 2 }));
    assert_eq!(c8.memory(0x200), 0x77);
    assert_eq!(c8.memory(0x201), 0x00);
    assert_eq!(c8.load_instructions("1234 5678"), Ok(()));
    assert_eq!(c8.memory(0x200), 0x34);
    assert_eq!(c8.memory(0x203), 0x56);
}
