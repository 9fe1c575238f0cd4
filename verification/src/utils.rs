use vstd::prelude::*;

verus! {

/// The binary digit of `byte` at position `i`, counted from the most
/// significant bit: position 0 weighs 128, position 7 weighs 1.
pub open spec fn bit_of(byte: u8, i: int) -> u8 {
    (byte >> ((7 - i) as u8)) & 1
}

/// The eight binary digits of `byte`, most significant first.
pub open spec fn bits_of(byte: u8) -> Seq<u8> {
    Seq::new(8, |i: int| bit_of(byte, i))
}

/// Splits a byte into its eight binary digits, most significant first.
pub fn get_bits_of_byte(byte: u8) -> (bits: [u8; 8])
    ensures
        bits@ == bits_of(byte),
{
    let mut bits: [u8; 8] = [0; 8];
    let mut i: u8 = 0;
    while i < 8
        invariant
            i <= 8,
            forall|k: int| 7 - i < k < 8 ==> bits@[k] == bit_of(byte, k),
        decreases 8 - i,
    {
        let idx: usize = 7 - i as usize;
        bits[idx] = (byte & (1u8 << i)) >> i;
        assert((byte & (1u8 << i)) >> i == (byte >> i) & 1) by (bit_vector)
            requires
                i < 8,
        ;
        assert((7 - (7 - i)) as u8 == i);
        i += 1;
    }
    bits
}

} // verus!
