use rok::assembler::text::{chars_of, line_end, split_words, trim_bounds};
use rok::assembler::{parse, Op};

fn chars(text: &str) -> Vec<char> {
    text.chars().collect()
}

#[test]
fn the_characters_of_a_text() {
    assert_eq!(chars_of(""), vec![]);
    assert_eq!(chars_of("abc"), vec!['a', 'b', 'c']);
    assert_eq!(chars_of("a\u{e9}\u{1f600}\n"), vec!['a', '\u{e9}', '\u{1f600}', '\n']);
}

#[test]
fn where_the_trimmed_text_stands() {
    assert_eq!(trim_bounds(&chars("")), (0, 0));
    assert_eq!(trim_bounds(&chars("abc")), (0, 3));
    assert_eq!(trim_bounds(&chars("  a b  ")), (2, 5));
    assert_eq!(trim_bounds(&chars("\n\t a\r\n")), (3, 4));
    assert_eq!(trim_bounds(&chars("\u{a0}a\u{3000}")), (1, 2));
    let (lo, hi) = trim_bounds(&chars(" \n \t "));
    assert_eq!(lo, hi);
    for text in ["", " ", "a", " a", "a ", " a b ", "\n\na\n\nb\n\n", "\u{2003}x y\u{85}"] {
        let all = chars(text);
        let (lo, hi) = trim_bounds(&all);
        let kept: String = all[lo..hi].iter().collect();
        assert_eq!(kept, text.trim(), "{:?}", text);
    }
}

#[test]
fn where_a_line_ends() {
    let text = chars("ab\ncd\n\nef");
    assert_eq!(line_end(&text, 0, 9), 2);
    assert_eq!(line_end(&text, 1, 9), 2);
    assert_eq!(line_end(&text, 2, 9), 2);
    assert_eq!(line_end(&text, 3, 9), 5);
    assert_eq!(line_end(&text, 6, 9), 6);
    assert_eq!(line_end(&text, 7, 9), 9);
    assert_eq!(line_end(&text, 9, 9), 9);
    assert_eq!(line_end(&text, 3, 4), 4);
    assert_eq!(line_end(&chars("a\rb"), 0, 3), 3);
}

#[test]
fn the_words_of_a_line() {
    let none: Vec<String> = vec![];
    assert_eq!(split_words(&chars(""), 0, 0), none);
    assert_eq!(split_words(&chars("   "), 0, 3), none);
    assert_eq!(split_words(&chars("SET 0 42"), 0, 8), vec!["SET", "0", "42"]);
    assert_eq!(split_words(&chars("  SET\t\t0  42 "), 0, 13), vec!["SET", "0", "42"]);
    assert_eq!(split_words(&chars("SET 0 42"), 2, 7), vec!["T", "0", "4"]);
    assert_eq!(split_words(&chars("a\u{a0}b\u{e9}c"), 0, 5), vec!["a", "b\u{e9}c"]);
}

#[test]
fn white_space_in_ascii_is_the_space_and_tab_to_carriage_return() {
    for code in 0u8..128 {
        let c = code as char;
        let text = format!("HLT{}REG", c);
        let ops = parse(&text).unwrap();
        if c == '\n' {
            assert_eq!(ops.len(), 2, "{:?}", c);
            assert_eq!(ops[0].code(), Op::HLT);
            assert_eq!(ops[1].code(), Op::Reg);
        } else if c == ' ' || ('\u{9}'..='\u{d}').contains(&c) {
            assert_eq!(ops.len(), 1, "{:?}", c);
            assert_eq!(ops[0].code(), Op::HLT);
            assert_eq!(ops[0].args(), &vec!["REG".to_string()]);
        } else {
            assert_eq!(ops.len(), 1, "{:?}", c);
            assert_eq!(ops[0].code(), Op::IGL);
            assert!(ops[0].args().is_empty());
        }
    }
}

#[test]
fn white_space_is_unicodes() {
    let white = [
        '\u{9}', '\u{a}', '\u{b}', '\u{c}', '\u{d}', '\u{20}', '\u{85}', '\u{a0}', '\u{1680}',
        '\u{2000}', '\u{2001}', '\u{2002}', '\u{2003}', '\u{2004}', '\u{2005}', '\u{2006}',
        '\u{2007}', '\u{2008}', '\u{2009}', '\u{200a}', '\u{2028}', '\u{2029}', '\u{202f}',
        '\u{205f}', '\u{3000}',
    ];
    for c in white {
        let ops = parse(&format!("x{}", c)).unwrap();
        assert_eq!(ops.len(), 1);
        assert!(ops[0].args().is_empty());
        let ops = parse(&format!("{}x y", c)).unwrap();
        assert_eq!(ops[0].args(), &vec!["y".to_string()]);
    }
    for c in ['\u{200b}', '\u{feff}', '\u{180e}', '\u{2060}', '_', '\u{0}', '\u{1f}'] {
        let ops = parse(&format!("x{}y z", c)).unwrap();
        assert_eq!(ops.len(), 1);
        assert_eq!(ops[0].args(), &vec!["z".to_string()]);
    }
}
