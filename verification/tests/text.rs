use ols_adherence::text::{chars_of, split_at, to_ascii_lower, trim, trim_bounds, white_space};

#[test]
fn white_space_is_that_of_std() {
    for u in 0..=0x10ffffu32 {
        if let Some(c) = char::from_u32(u) {
            assert_eq!(white_space(c), c.is_whitespace(), "U+{:04X}", u);
        }
    }
}

#[test]
fn small_letters_are_those_of_std() {
    for u in 0..=0x10ffffu32 {
        if let Some(c) = char::from_u32(u) {
            assert_eq!(to_ascii_lower(c), c.to_ascii_lowercase(), "U+{:04X}", u);
        }
    }
}

#[test]
fn chars_come_in_order() {
    assert_eq!(chars_of(""), Vec::<char>::new());
    assert_eq!(chars_of("a\u{e9}\u{3000}z"), vec!['a', '\u{e9}', '\u{3000}', 'z']);
}

#[test]
fn trim_is_that_of_std() {
    let samples = [
        "",
        " ",
        "\t\n\r ",
        "abc",
        "  abc",
        "abc  ",
        "  a b c  ",
        "\u{3000}\tfoo ",
        "\u{a0}x\u{2003}y\u{205f}",
        "\u{feff} sup_prop ",
        " \u{feff}x",
        "\u{85}\u{1680}\u{2028}\u{2029}\u{202f}",
        "\u{200b}zero width is no space\u{200b}",
        "  0.25\r\n",
    ];
    for s in samples {
        assert_eq!(trim(s), s.trim(), "{:?}", s);
    }
}

#[test]
fn trim_bounds_of_blank_text_are_empty() {
    let v = chars_of(" \t ");
    let (a, b) = trim_bounds(&v);
    assert_eq!(a, b);
    let v = chars_of("  ab ");
    assert_eq!(trim_bounds(&v), (2, 4));
}

#[test]
fn split_is_that_of_std() {
    let samples = [
        "",
        ",",
        ",,",
        "a",
        "a,b",
        "a,",
        ",a",
        "0.1:0.2,0.3:0.4",
        "a,,b",
        "\u{e9},\u{3000},z",
    ];
    for s in samples {
        let expected: Vec<String> = s.split(',').map(String::from).collect();
        assert_eq!(split_at(s, ','), expected, "{:?}", s);
    }
    assert_eq!(split_at("1:2:3", ':'), vec!["1", "2", "3"]);
}

#[test]
fn split_has_one_piece_more_than_separators() {
    assert_eq!(split_at("", ','), vec![""]);
    assert_eq!(split_at(",", ','), vec!["", ""]);
    assert_eq!(split_at("a,b,c", ',').len(), 3);
}
