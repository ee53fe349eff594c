use lc3_vm::cli::program_words;

#[test]
fn program_words_decodes_big_endian_pairs() {
    let bytes: Vec<u8> = vec![0x12, 0x34, 0x56, 0x78];
    assert_eq!(program_words(&bytes), vec![0x1234, 0x5678]);
}

#[test]
fn program_words_ignores_a_trailing_odd_byte() {
    let bytes: Vec<u8> = vec![0xAB, 0xCD, 0xEF];
    assert_eq!(program_words(&bytes), vec![0xABCD]);
}

#[test]
fn program_words_of_nothing_is_empty() {
    let bytes: Vec<u8> = Vec::new();
    assert_eq!(program_words(&bytes), Vec::<u16>::new());
}
