//! The command line's view of the machine: the options a front end fills
//! in, and the decoding of a program image into instruction words.

use vstd::prelude::*;

verus! {

/// What a front end asks for: the path of the program image to run. A
/// command-line parser fills this in; the library only consumes it.
pub struct Options {
    pub path: String,
}

/// One instruction word read big-endian from a byte pair.
pub open spec fn word_of_pair(high: u8, low: u8) -> u16 {
    (low + high * 0x100) as u16
}

/// Decode a program image into words: consecutive byte pairs, big-endian,
/// a trailing odd byte ignored.
pub fn program_words(bytes: &Vec<u8>) -> (r: Vec<u16>)
    ensures
        r@.len() == bytes@.len() / 2,
        forall|i: int|
            0 <= i < r@.len() ==> r@[i] == word_of_pair(bytes@[2 * i], bytes@[2 * i + 1]),
{
    let mut words: Vec<u16> = Vec::new();
    let mut index: usize = 0;
    while index + 1 < bytes.len()
        invariant
            index % 2 == 0,
            index <= bytes@.len(),
            words@.len() == index / 2,
            forall|i: int|
                0 <= i < words@.len() ==> words@[i] == word_of_pair(
                    bytes@[2 * i],
                    bytes@[2 * i + 1],
                ),
        decreases bytes@.len() - index,
    {
        let high = bytes[index] as u16;
        let low = bytes[index + 1] as u16;
        words.push(low + high * 0x100);
        index = index + 2;
    }
    proof {
        assert(words@.len() == bytes@.len() / 2);
    }
    words
}

} // verus!
