//! Word arithmetic behind byte-sized access.

use deet::memory::{align_addr_to_word, extract_byte, splice_byte, WORD_BYTES};

#[test]
fn a_word_has_eight_bytes() {
    assert_eq!(WORD_BYTES, 8);
}

#[test]
fn addresses_round_down_to_their_word() {
    assert_eq!(align_addr_to_word(0), 0);
    assert_eq!(align_addr_to_word(7), 0);
    assert_eq!(align_addr_to_word(8), 8);
    assert_eq!(align_addr_to_word(0x1009), 0x1008);
    assert_eq!(align_addr_to_word(0x4005ff), 0x4005f8);
    assert_eq!(align_addr_to_word(usize::MAX), usize::MAX - 7);
}

#[test]
fn bytes_are_counted_from_the_low_end() {
    let word: u64 = 0x8877_6655_4433_2211;
    assert_eq!(extract_byte(word, 0), 0x11);
    assert_eq!(extract_byte(word, 1), 0x22);
    assert_eq!(extract_byte(word, 3), 0x44);
    assert_eq!(extract_byte(word, 7), 0x88);
}

#[test]
fn splice_replaces_one_byte() {
    let word: u64 = 0x8877_6655_4433_2211;
    assert_eq!(splice_byte(word, 0, 0xcc), (0x11, 0x8877_6655_4433_22cc));
    assert_eq!(splice_byte(word, 1, 0xcc), (0x22, 0x8877_6655_4433_cc11));
    assert_eq!(splice_byte(word, 7, 0xcc), (0x88, 0xcc77_6655_4433_2211));
    assert_eq!(splice_byte(word, 4, 0x00), (0x55, 0x8877_6600_4433_2211));
    assert_eq!(splice_byte(0, 5, 0xff), (0x00, 0x0000_ff00_0000_0000));
    assert_eq!(splice_byte(u64::MAX, 2, 0x00), (0xff, 0xffff_ffff_ff00_ffff));
}

#[test]
fn splice_and_splice_back_restores_the_word() {
    let words: [u64; 4] = [0, u64::MAX, 0x0123_4567_89ab_cdef, 0xcccc_cccc_cccc_cccc];
    for word in words {
        for offset in 0..8 {
            let (displaced, patched) = splice_byte(word, offset, 0xcc);
            assert_eq!(extract_byte(patched, offset), 0xcc);
            let (trap, restored) = splice_byte(patched, offset, displaced);
            assert_eq!(trap, 0xcc);
            assert_eq!(restored, word);
        }
    }
}
