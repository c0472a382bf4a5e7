use download_runner::text::{append_decimal, chars_of, digit_of, space_char};

#[test]
fn white_space_is_what_unicode_lists() {
    let mut n: u32 = 0;
    let mut count = 0;
    while n <= 0x10FFFF {
        if let Some(c) = char::from_u32(n) {
            assert_eq!(space_char(c), c.is_whitespace(), "U+{:04X}", n);
            if space_char(c) {
                count += 1;
            }
        }
        n += 1;
    }
    assert_eq!(count, 25);
}

#[test]
fn digits_are_the_ten_ascii_digits() {
    let mut n: u32 = 0;
    while n <= 0x10FFFF {
        if let Some(c) = char::from_u32(n) {
            let expected = if c.is_ascii_digit() { c.to_digit(10) } else { None };
            assert_eq!(digit_of(c), expected, "U+{:04X}", n);
        }
        n += 1;
    }
    assert_eq!(digit_of('0'), Some(0));
    assert_eq!(digit_of('9'), Some(9));
    assert_eq!(digit_of('/'), None);
    assert_eq!(digit_of(':'), None);
    assert_eq!(digit_of('٣'), None);
}

#[test]
fn chars_of_keeps_every_character_in_order() {
    assert_eq!(chars_of(""), Vec::<char>::new());
    assert_eq!(chars_of("a%"), vec!['a', '%']);
    assert_eq!(chars_of("é ✅…"), vec!['é', ' ', '✅', '…']);
    let text = "[download]  42.0% of 10.00MiB";
    assert_eq!(chars_of(text), text.chars().collect::<Vec<char>>());
}

#[test]
fn append_decimal_writes_the_number_after_what_is_there() {
    for n in [0u32, 1, 9, 10, 11, 42, 99, 100, 101, 1_000, 65_535, 1_000_000, u32::MAX] {
        let mut s = String::from("n=");
        append_decimal(&mut s, n);
        assert_eq!(s, format!("n={}", n));
    }
    let mut s = String::new();
    append_decimal(&mut s, 7);
    append_decimal(&mut s, 30);
    assert_eq!(s, "730");
}
