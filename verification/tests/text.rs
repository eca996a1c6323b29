use proxy_scanner::text::{
    chars_of, decimal, lines, parse_u16, same_text, split_once, split_text, string_of, trim,
};

#[test]
fn split_gives_one_piece_more_than_separators() {
    assert_eq!(split_text("a,b,,c", ','), ["a", "b", "", "c"]);
    assert_eq!(split_text("", ','), [""]);
    assert_eq!(split_text(",", ','), ["", ""]);
    assert_eq!(split_text("no separator", ','), ["no separator"]);
}

#[test]
fn split_pieces_join_to_the_text() {
    for s in ["1.2.3.4,443,US,Org", "", ",,", "x", "é,ü,中"] {
        assert_eq!(split_text(s, ',').join(","), s);
        let std_pieces: Vec<&str> = s.split(',').collect();
        assert_eq!(split_text(s, ','), std_pieces);
    }
}

#[test]
fn split_once_takes_the_first_separator() {
    assert_eq!(
        split_once("a=b=c", '='),
        Some(("a".to_string(), "b=c".to_string()))
    );
    assert_eq!(split_once("=", '='), Some((String::new(), String::new())));
    assert_eq!(split_once("abc", '='), None);
}

#[test]
fn white_space_is_what_std_says_it_is() {
    // A character is trimmed away if and only if it is white space.
    let mut count = 0;
    for n in 0..=0x10ffffu32 {
        if let Some(c) = char::from_u32(n) {
            let listed = matches!(
                n,
                0x9..=0xd
                    | 0x20
                    | 0x85
                    | 0xa0
                    | 0x1680
                    | 0x2000..=0x200a
                    | 0x2028
                    | 0x2029
                    | 0x202f
                    | 0x205f
                    | 0x3000
            );
            assert_eq!(c.is_whitespace(), listed, "U+{:04X}", n);
            if listed {
                assert_eq!(trim(&c.to_string()), "");
                count += 1;
            }
        }
    }
    assert_eq!(count, 25);
}

#[test]
fn trim_takes_only_the_ends() {
    assert_eq!(trim("  a b\t\r\n"), "a b");
    assert_eq!(trim("\u{3000}a\u{a0}"), "a");
    assert_eq!(trim(" \t "), "");
    assert_eq!(trim(""), "");
    assert_eq!(trim(&trim("  a  ")), trim("  a  "));
}

#[test]
fn lines_are_those_of_std() {
    for s in [
        "",
        "\n",
        "a",
        "a\n",
        "a\r\nb",
        "a\rb\n",
        "\r\n\r\n",
        "a\n\nb\r",
        "a\r\r\nb",
    ] {
        let std_lines: Vec<&str> = s.lines().collect();
        assert_eq!(lines(s), std_lines, "{:?}", s);
    }
    assert_eq!(lines("a\r\nb\rc\n\nd"), ["a", "b\rc", "", "d"]);
}

#[test]
fn ports_are_read_as_std_reads_them() {
    for s in [
        "", "+", "-", "0", "00", "443", "+443", "++443", "-1", "65535", "65536", "0065535",
        "99999999999999999999", " 443", "443 ", "4a3", "٤٤٣", "4_3",
    ] {
        assert_eq!(parse_u16(s), s.parse::<u16>().ok(), "{:?}", s);
    }
    assert_eq!(parse_u16("65535"), Some(65535));
    assert_eq!(parse_u16("65536"), None);
    assert_eq!(parse_u16("+80"), Some(80));
}

#[test]
fn every_port_is_read_back_from_its_digits() {
    for port in 0..=u16::MAX {
        let digits = decimal(u32::from(port));
        assert_eq!(digits, port.to_string());
        assert_eq!(parse_u16(&digits), Some(port));
    }
    assert_eq!(decimal(u32::MAX), "4294967295");
}

#[test]
fn parts_of_texts() {
    let chars = chars_of("añ中");
    assert_eq!(chars, ['a', 'ñ', '中']);
    assert_eq!(string_of(&chars, 1, 3), "ñ中");
    assert_eq!(string_of(&chars, 2, 2), "");
    assert!(same_text("añ", "añ"));
    assert!(!same_text("añ", "an"));
}
