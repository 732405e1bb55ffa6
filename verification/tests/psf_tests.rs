use kernel::psf::{Psf1, PSF1_MAGIC0, PSF1_MAGIC1, PSF1_WIDTH};

fn font(mode: u8, height: u8, glyph_bytes: &[u8]) -> Vec<u8> {
    let mut v = vec![PSF1_MAGIC0, PSF1_MAGIC1, mode, height];
    v.extend_from_slice(glyph_bytes);
    v
}

#[test]
fn parses_valid_header() {
    let bytes = font(0x02, 2, &[1, 2, 3, 4, 5, 6]);
    let f = Psf1::new(&bytes).expect("valid font");
    assert_eq!(f.width, PSF1_WIDTH);
    assert_eq!(f.width, 8);
    assert_eq!(f.height, 2);
}

#[test]
fn accepts_every_known_mode() {
    for mode in 0u8..=7 {
        let bytes = font(mode, 16, &[]);
        assert!(Psf1::new(&bytes).is_some(), "mode {mode}");
    }
}

#[test]
fn rejects_unknown_mode_bit() {
    for mode in [0x08u8, 0x10, 0x80, 0xFF, 0x09] {
        let bytes = font(mode, 16, &[]);
        assert!(Psf1::new(&bytes).is_none(), "mode {mode}");
    }
}

#[test]
fn rejects_bad_magic() {
    let bytes = vec![0x72, 0xB5, 0x00, 16];
    assert!(Psf1::new(&bytes).is_none());
    let bytes = vec![PSF1_MAGIC0, 0x05, 0x00, 16];
    assert!(Psf1::new(&bytes).is_none());
    let bytes = vec![0x37, PSF1_MAGIC1, 0x00, 16];
    assert!(Psf1::new(&bytes).is_none());
}

#[test]
fn glyph_slices_by_height() {
    let bytes = font(0, 2, &[10, 11, 20, 21, 30, 31]);
    let f = Psf1::new(&bytes).unwrap();
    assert_eq!(f.glyph('\u{0}'), &[10, 11]);
    assert_eq!(f.glyph('\u{1}'), &[20, 21]);
    assert_eq!(f.glyph('\u{2}'), &[30, 31]);
}

#[test]
fn glyph_of_ascii_letter() {
    let height = 3usize;
    let mut table = vec![0u8; 66 * height];
    table[65 * height] = 0xAA;
    table[65 * height + 1] = 0xBB;
    table[65 * height + 2] = 0xCC;
    let bytes = font(0, height as u8, &table);
    let f = Psf1::new(&bytes).unwrap();
    assert_eq!(f.glyph('A'), &[0xAA, 0xBB, 0xCC]);
}

#[test]
fn three_byte_image_with_unknown_mode_is_rejected() {
    let bytes = vec![PSF1_MAGIC0, PSF1_MAGIC1, 0x40];
    assert!(Psf1::new(&bytes).is_none());
}
