use deet::inferior::Inferior;
use deet::word::align_addr_to_word;

#[test]
fn aligns_down_to_word() {
    assert_eq!(align_addr_to_word(0x401136), 0x401130);
    assert_eq!(align_addr_to_word(0x401138), 0x401138);
    assert_eq!(align_addr_to_word(7), 0);
}

#[test]
fn write_byte_splices_one_byte() {
    let word: u64 = 0x1122334455667788;
    let (w, orig) = Inferior::write_byte(0x401136, word, 0xcc);
    assert_eq!(orig, 0x22);
    assert_eq!(w, 0x11cc334455667788);
    let (back, trap) = Inferior::write_byte(0x401136, w, orig);
    assert_eq!(trap, 0xcc);
    assert_eq!(back, word);
    let (low, b0) = Inferior::write_byte(0x1000, word, 0x00);
    assert_eq!(b0, 0x88);
    assert_eq!(low, 0x1122334455667700);
}
