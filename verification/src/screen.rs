use crate::input::InputEvent;
use vstd::prelude::*;

verus! {

/// Number of cells of the framebuffer: 32 rows of 64.
pub const FRAME_SIZE: usize = 2048;

/// Number of bytes from one row of the flat frame to the next.
pub const FRAME_PITCH: usize = 64;

/// The key code of the escape key.
pub const ESCAPE_KEYCODE: i32 = 27;

/// The shade after `shade` in the colour demonstration: shades run from 0
/// to 254 and start over.
pub open spec fn shade_after(shade: u8) -> u8 {
    ((shade + 1) % 255) as u8
}

/// The red, green and blue parts of the colour that the demonstration
/// shows for `shade`: red rises with the shade while blue falls.
pub open spec fn colour_of(shade: u8) -> (u8, u8, u8) {
    (shade, 64u8, (255 - shade) as u8)
}

/// Whether `event` ends the colour demonstration: a request to quit, or
/// the escape key going down.
pub open spec fn ends_demo_spec(event: InputEvent) -> bool {
    event is Quit || event == (InputEvent::KeyDown { keycode: Some(ESCAPE_KEYCODE) })
}

/// Steps the colour demonstration to its next shade.
pub fn next_shade(shade: u8) -> (next: u8)
    ensures
        next == shade_after(shade),
        next < 255,
{
    ((shade as u16 + 1) % 255) as u8
}

/// The colour of a shade, as red, green and blue.
pub fn shade_colour(shade: u8) -> (colour: (u8, u8, u8))
    ensures
        colour == colour_of(shade),
{
    (shade, 64, 255 - shade)
}

/// Tells whether an event ends the colour demonstration.
pub fn ends_demo(event: InputEvent) -> (ends: bool)
    ensures
        ends == ends_demo_spec(event),
{
    match event {
        InputEvent::Quit => true,
        InputEvent::KeyDown { keycode: Some(code) } => code == ESCAPE_KEYCODE,
        _ => false,
    }
}

/// The low byte of a framebuffer cell.
pub open spec fn low_byte(cell: u32) -> u8 {
    (cell % 256) as u8
}

/// Lays the framebuffer out row after row, one byte per cell: the byte for
/// row `i`, column `j` stands at `i * 64 + j` and is the low byte of the
/// cell.
pub fn flatten_display(display_memory: &[[u32; 64]; 32]) -> (buffer: [u8; 2048])
    ensures
        forall|i: int, j: int|
            0 <= i < 32 && 0 <= j < 64 ==> buffer@[i * 64 + j] == low_byte(
                #[trigger] display_memory@[i]@[j],
            ),
{
    let mut buffer: [u8; 2048] = [0; 2048];
    let mut i: usize = 0;
    while i < 32
        invariant
            i <= 32,
            forall|a: int, b: int|
                0 <= a < i && 0 <= b < 64 ==> buffer@[a * 64 + b] == low_byte(
                    #[trigger] display_memory@[a]@[b],
                ),
        decreases 32 - i,
    {
        let row = display_memory[i];
        let row_offset = i * 64;
        let mut j: usize = 0;
        while j < 64
            invariant
                j <= 64,
                i < 32,
                row_offset == i * 64,
                row == display_memory@[i as int],
                forall|a: int, b: int|
                    0 <= a < i && 0 <= b < 64 ==> buffer@[a * 64 + b] == low_byte(
                        #[trigger] display_memory@[a]@[b],
                    ),
                forall|b: int|
                    0 <= b < j ==> buffer@[i * 64 + b] == low_byte(
                        #[trigger] display_memory@[i as int]@[b],
                    ),
            decreases 64 - j,
        {
            let cell = row[j];
            assert(cell & 0xFF == cell % 256) by (bit_vector);
            buffer[j + row_offset] = (cell & 0xFF) as u8;
            j += 1;
        }
        i += 1;
    }
    buffer
}

} // verus!
