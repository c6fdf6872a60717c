use jasm::text::{char_is_whitespace, chars_of};

#[test]
fn chars_of_gives_the_characters_in_order() {
    assert_eq!(chars_of(""), Vec::<char>::new());
    assert_eq!(chars_of("SET"), vec!['S', 'E', 'T']);
    assert_eq!(chars_of("a\u{00E9}\u{4E16}\u{1F600}"), vec!['a', '\u{00E9}', '\u{4E16}', '\u{1F600}']);
}

#[test]
fn white_space_is_what_the_standard_library_calls_so() {
    let mut code: u32 = 0;
    while code <= 0x10FFFF {
        if let Some(c) = char::from_u32(code) {
            assert_eq!(char_is_whitespace(c), c.is_whitespace(), "U+{:04X}", code);
        }
        code += 1;
    }
}
