use totality::gui::color::Color;

#[test]
fn hex_bb_empty_input() {
    assert_eq!(Color::hex_bb(b""), Err("No input."));
}

#[test]
fn hex_bb_leading_hash_is_read_as_a_digit() {
    assert_eq!(Color::hex_bb(b"#ffffff"), Err("Non-hex byte passed off as hex byte."));
    assert_eq!(Color::hex_bb(b"#cd5c5c"), Err("Non-hex byte passed off as hex byte."));
}

#[test]
fn hex_bb_short_code_keeps_defaults() {
    let c = Color::hex_bb(b"x1234").unwrap();
    assert_eq!((*c.r(), *c.g(), *c.b(), *c.a()), (17, 51, 48, 198));
}

#[test]
fn hex_bb_full_code() {
    let c = Color::hex_bb(b"0a0b0c0d0").unwrap();
    assert_eq!(c, Color::new(170, 187, 204, 221));
}

#[test]
fn hex_bb_rejects_non_digit() {
    assert_eq!(Color::hex_bb(b"xzz"), Err("Non-hex byte passed off as hex byte."));
}

#[test]
fn hex_str_eight_digits() {
    assert_eq!(Color::hex_str("0a0b0c0d"), Ok(Color::new(170, 187, 204, 221)));
    assert_eq!(Color::hex_str("ff00ffAA"), Ok(Color::new(255, 0, 255, 170)));
}

#[test]
fn hex_str_too_short() {
    assert_eq!(Color::hex_str("ffffff"), Err("Non-hex byte passed off as hex byte."));
    assert_eq!(Color::hex_str(""), Err("Non-hex byte passed off as hex byte."));
}

#[test]
fn hex_str_rejects_non_hex_char() {
    assert_eq!(
        Color::hex_str("#ff"),
        Err("Non-hex char passed off as hex char (0-9,a-z,A-Z).")
    );
    assert_eq!(
        Color::hex_str("0a0b0c0dz"),
        Err("Non-hex char passed off as hex char (0-9,a-z,A-Z).")
    );
}

#[test]
fn hex_pairs_nibbles() {
    let c = Color::hex([0xf, 0xf, 0, 0, 1, 2, 3, 4]);
    assert_eq!(c, Color::new(255, 0, 18, 52));
}

#[test]
fn channels_and_mutation() {
    let mut c = Color::new(1, 2, 3, 4);
    assert_eq!((*c.r(), *c.g(), *c.b(), *c.a()), (1, 2, 3, 4));
    *c.r_mut() = 10;
    *c.g_mut() = 20;
    *c.b_mut() = 30;
    *c.a_mut() = 40;
    assert_eq!(c, Color::new(10, 20, 30, 40));
    assert_eq!(Color::from((5, 6, 7, 8)), Color::new(5, 6, 7, 8));
    assert_eq!(Color::MIN, 0);
    assert_eq!(Color::MAX, 255);
}

#[test]
fn map_and_bimap_apply_pointwise() {
    let doubled = totality::gui::color::map(&[1u8, 2, 3, 4], |x: &u8| *x as u32 * 2);
    assert_eq!(doubled, [2, 4, 6, 8]);
    let sums = totality::gui::color::bimap(&[1u8, 2, 3, 4], &[10u8, 20, 30, 40], |a: &u8, b: &u8| a + b);
    assert_eq!(sums, [11, 22, 33, 44]);
}
