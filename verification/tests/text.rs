use paktool::text::{push_decimal, push_digit, push_hex, push_spaces};

#[test]
fn push_digit_writes_lower_case_hexadecimal() {
    let mut text = String::new();
    for d in 0..16u8 {
        push_digit(&mut text, d);
    }
    assert_eq!(text, "0123456789abcdef");
}

#[test]
fn push_decimal_writes_numerals() {
    let mut text = String::from("n=");
    push_decimal(&mut text, 0);
    text.push(',');
    push_decimal(&mut text, 7);
    text.push(',');
    push_decimal(&mut text, 10);
    text.push(',');
    push_decimal(&mut text, 1024);
    text.push(',');
    push_decimal(&mut text, u64::MAX);
    assert_eq!(text, "n=0,7,10,1024,18446744073709551615");
}

#[test]
fn push_hex_keeps_the_width() {
    let mut text = String::new();
    push_hex(&mut text, 0x1a2b, 8);
    assert_eq!(text, "00001a2b");
    let mut text = String::new();
    push_hex(&mut text, 0xdead_beef, 8);
    assert_eq!(text, "deadbeef");
    let mut text = String::new();
    push_hex(&mut text, 0xdead_beef, 4);
    assert_eq!(text, "beef");
    let mut text = String::from("x");
    push_hex(&mut text, 0xdead_beef, 0);
    assert_eq!(text, "x");
    let mut text = String::new();
    push_hex(&mut text, 0, 8);
    assert_eq!(text, "00000000");
}

#[test]
fn push_hex_agrees_with_the_formatter() {
    for n in [0u32, 1, 15, 16, 255, 4096, 0x0fff_ffff, 0x1000_0000, u32::MAX] {
        let mut text = String::new();
        push_hex(&mut text, n, 8);
        assert_eq!(text, format!("{:08x}", n));
    }
}

#[test]
fn push_spaces_appends_spaces() {
    let mut text = String::from("a");
    push_spaces(&mut text, 0);
    assert_eq!(text, "a");
    push_spaces(&mut text, 3);
    assert_eq!(text, "a   ");
}
