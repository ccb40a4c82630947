use chip8_core::nibble::{bit_at, nibbles, Datum, Nibble};

#[test]
fn nibbles_decomposes_every_byte() {
    // for all bytes b, nibbles(b) == (b >> 4, b & 0xF), both in 0..=15
    for b in 0u16..256 {
        let b: u8 = b as u8;
        let (hi, lo) = nibbles(b);
        assert_eq!(hi.val(), b >> 4);
        assert_eq!(lo.val(), b & 0xF);
        assert!(hi.val() <= 15);
        assert!(lo.val() <= 15);
    }
}

#[test]
fn nibbles_concrete() {
    let (hi, lo) = nibbles(0xAB);
    assert_eq!(hi.val(), 0xA);
    assert_eq!(lo.val(), 0xB);
}

#[test]
fn nibble_new_validates() {
    assert!(Nibble::new(0xF).is_some());
    assert!(Nibble::new(0x10).is_none());
    assert!(Nibble::new(0xFF).is_none());
    assert_eq!(Nibble::new(7).unwrap().val(), 7);
}

#[test]
fn nibble_byte_reassembles() {
    assert_eq!(Nibble::byte(Nibble(0xA), Nibble(0xB)), 0xAB);
    assert_eq!(Nibble::byte(Nibble(0), Nibble(0)), 0);
    assert_eq!(Nibble::byte(Nibble(0xF), Nibble(0xF)), 0xFF);
}

#[test]
fn datum_new_validates() {
    assert!(Datum::new(0xFFF).is_some());
    assert!(Datum::new(0x1000).is_none());
    assert_eq!(Datum::new(0x234).unwrap().val(), 0x234);
}

#[test]
fn datum_from_nibbles_assembles() {
    let d = Datum::from_nibbles(Nibble(1), Nibble(2), Nibble(3)).unwrap();
    assert_eq!(d.val(), 0x123);
    let top = Datum::from_nibbles(Nibble(0xF), Nibble(0xF), Nibble(0xF)).unwrap();
    assert_eq!(top.val(), 0xFFF);
}

#[test]
fn bit_at_positions() {
    assert!(bit_at(0b1000_0000, 7));
    assert!(!bit_at(0b1000_0000, 6));
    assert!(bit_at(0b0000_0001, 0));
    assert!(!bit_at(0b0000_0001, 1));
    // positions past the byte read as unset
    assert!(!bit_at(0xFF, 8));
    assert!(!bit_at(0xFF, 200));
}
