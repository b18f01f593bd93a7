use thrift_scope_filter::framing::{read_method_length, read_method_name};
use thrift_scope_filter::text::{is_white_space, join3, split_whitespace};

#[test]
fn white_space_is_that_of_unicode() {
    let mut number: u32 = 0;
    while number <= 0x10ffff {
        if let Some(c) = char::from_u32(number) {
            assert_eq!(is_white_space(c), c.is_whitespace(), "{:?}", c);
        }
        number += 1;
    }
}

#[test]
fn words_are_those_of_the_standard_library() {
    for text in [
        "",
        " ",
        "a",
        " a",
        "a ",
        "read write",
        "\tread\u{a0}\u{2003}write\n\nadmin \u{3000}",
        "\u{e9}t\u{e9} \u{200b}x",
    ] {
        let expected: Vec<String> = text.split_whitespace().map(String::from).collect();
        assert_eq!(split_whitespace(text), expected);
    }
}

#[test]
fn parts_are_joined_in_order() {
    assert_eq!(join3("my.potato", ".", "S"), "my.potato.S");
    assert_eq!(join3("", "", ""), "");
}

#[test]
fn length_is_big_endian() {
    assert_eq!(read_method_length(Some(vec![0, 0, 0, 9])), Some(9));
    assert_eq!(read_method_length(Some(vec![1, 2, 3, 4])), Some(0x01020304));
    assert_eq!(
        read_method_length(Some(vec![255, 255, 255, 255])),
        Some(0xffff_ffff)
    );
}

#[test]
fn length_needs_four_bytes() {
    assert_eq!(read_method_length(None), None);
    assert_eq!(read_method_length(Some(vec![])), None);
    assert_eq!(read_method_length(Some(vec![0, 0, 9])), None);
    assert_eq!(read_method_length(Some(vec![0, 0, 0, 0, 9])), None);
}

#[test]
fn name_needs_all_its_bytes() {
    assert_eq!(
        read_method_name(9, Some(b"getPotato".to_vec())),
        Some("getPotato".to_string())
    );
    assert_eq!(
        read_method_name(5, Some("\u{e9}t\u{e9}".as_bytes().to_vec())),
        Some("\u{e9}t\u{e9}".to_string())
    );
    assert_eq!(read_method_name(0, Some(vec![])), Some("".to_string()));
    assert_eq!(read_method_name(9, Some(b"getPot".to_vec())), None);
    assert_eq!(read_method_name(3, Some(vec![0xff, 0xff])), None);
    assert_eq!(read_method_name(9, None), None);
}
