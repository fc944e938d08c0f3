use jp_plateau_tool::text::{bytes_eq, chars_of, joined, is_whitespace_char, str_eq, string_of, trim};

#[test]
fn chars_of_keeps_order() {
    assert_eq!(chars_of("a建b"), vec!['a', '建', 'b']);
    assert_eq!(chars_of(""), Vec::<char>::new());
}

#[test]
fn string_of_takes_the_range() {
    let chars = vec!['a', 'b', 'c', 'd'];
    assert_eq!(string_of(&chars, 1, 3), "bc");
    assert_eq!(string_of(&chars, 2, 2), "");
    assert_eq!(string_of(&chars, 0, 4), "abcd");
}

#[test]
fn concat_appends() {
    assert_eq!(joined("建築物::", "名称"), "建築物::名称");
    assert_eq!(joined("", ""), "");
}

#[test]
fn equality_of_bytes_and_strings() {
    assert!(bytes_eq(b"abc", b"abc"));
    assert!(!bytes_eq(b"abc", b"abd"));
    assert!(!bytes_eq(b"abc", b"ab"));
    assert!(bytes_eq(b"", b""));
    assert!(str_eq("建物ID", "建物ID"));
    assert!(!str_eq("建物ID", "建物Id"));
}

#[test]
fn whitespace_is_what_std_calls_whitespace() {
    let mut code: u32 = 0;
    while code <= 0x10FFFF {
        if let Some(c) = char::from_u32(code) {
            assert_eq!(is_whitespace_char(c), c.is_whitespace(), "U+{:04X}", code);
        }
        code += 1;
    }
}

#[test]
fn trim_agrees_with_std() {
    let samples = [
        "",
        " ",
        "abc",
        "  abc",
        "abc  ",
        " \t\r\n abc def \n",
        "\u{3000}12.5\u{3000}",
        "\u{a0}x\u{2003}",
        " a ",
        "\n\n",
        "a\u{85}",
        "  建築物  名称  ",
    ];
    for s in samples {
        assert_eq!(trim(s), s.trim(), "{:?}", s);
    }
}

#[test]
fn trim_keeps_inner_whitespace() {
    assert_eq!(trim("  a  b  "), "a  b");
}
