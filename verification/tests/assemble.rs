use rok::assembler::{parse, Op, Operation};

fn words(args: &[&str]) -> Vec<String> {
    args.iter().map(|s| s.to_string()).collect()
}

fn statement(code: Op, args: &[&str]) -> Operation {
    Operation::new(code, words(args))
}

/// The statements of a text, found with the standard library alone.
fn statements_by_std(text: &str) -> Vec<Operation> {
    let mut found = vec![];
    for line in text.trim().lines() {
        let tokens: Vec<String> = line.split_whitespace().map(|s| s.to_string()).collect();
        if tokens.is_empty() {
            continue;
        }
        found.push(Operation::new(Op::from(tokens[0].as_str()), tokens[1..].to_vec()));
    }
    found
}

#[test]
fn three_statements() {
    let ops = parse("SET 0 42\nREG\nHLT").unwrap();
    assert_eq!(ops.len(), 3);
    assert_eq!(ops[0].code(), Op::SET);
    assert_eq!(ops[0].args(), &words(&["0", "42"]));
    assert_eq!(ops[0].tag(), None);
    assert_eq!(ops[1].code(), Op::Reg);
    assert!(ops[1].args().is_empty());
    assert_eq!(ops[2].code(), Op::HLT);
    assert!(ops[2].args().is_empty());
}

#[test]
fn an_empty_text_has_no_statement() {
    assert_eq!(parse("").unwrap(), vec![]);
    assert_eq!(parse("\n").unwrap(), vec![]);
    assert_eq!(parse("   ").unwrap(), vec![]);
    assert_eq!(parse(" \n\t\n \r\n").unwrap(), vec![]);
}

#[test]
fn blank_lines_are_skipped() {
    let ops = parse("\n\nSET 1 2\n\n   \nHLT\n\n").unwrap();
    assert_eq!(ops, vec![statement(Op::SET, &["1", "2"]), statement(Op::HLT, &[])]);
}

#[test]
fn white_space_separates_words_and_is_otherwise_ignored() {
    let ops = parse("   SET \t 1    2  \n\tadd 1\t2\t3\t").unwrap();
    assert_eq!(
        ops,
        vec![statement(Op::SET, &["1", "2"]), statement(Op::Add, &["1", "2", "3"])]
    );
}

#[test]
fn a_carriage_return_before_the_line_feed_is_white_space() {
    let ops = parse("SET 1 2\r\nHLT\r\n").unwrap();
    assert_eq!(ops, vec![statement(Op::SET, &["1", "2"]), statement(Op::HLT, &[])]);
}

#[test]
fn white_space_outside_ascii_separates_words() {
    let ops = parse("SET\u{a0}1\u{2003}2\u{3000}").unwrap();
    assert_eq!(ops, vec![statement(Op::SET, &["1", "2"])]);
}

#[test]
fn only_the_line_feed_ends_a_line() {
    // The vertical tab, the form feed, the next-line character and the line
    // separator are white space within a line.
    let ops = parse("SET\u{b}1\u{c}2\u{85}HLT\u{2028}REG").unwrap();
    assert_eq!(ops, vec![statement(Op::SET, &["1", "2", "HLT", "REG"])]);
}

#[test]
fn an_unknown_mnemonic_is_the_illegal_instruction() {
    let ops = parse("XYZZY 1 2\nHALT").unwrap();
    assert_eq!(ops, vec![statement(Op::IGL, &["1", "2"]), statement(Op::IGL, &[])]);
}

#[test]
fn operands_are_taken_as_they_are() {
    let ops = parse("SET notanumber -3 +4 0x10 \u{e9}\nHLT now").unwrap();
    assert_eq!(
        ops,
        vec![
            statement(Op::SET, &["notanumber", "-3", "+4", "0x10", "\u{e9}"]),
            statement(Op::HLT, &["now"]),
        ]
    );
}

#[test]
fn a_statement_may_lack_operands() {
    let ops = parse("SET\nADD 1").unwrap();
    assert_eq!(ops, vec![statement(Op::SET, &[]), statement(Op::Add, &["1"])]);
}

#[test]
fn no_statement_has_a_tag() {
    for op in parse("SET 1 2\nREG\nfoo: HLT").unwrap() {
        assert_eq!(op.tag(), None);
    }
}

#[test]
fn a_new_statement_holds_what_it_was_given() {
    let op = Operation::new(Op::Sub, words(&["3", "2", "1"]));
    assert_eq!(op.code(), Op::Sub);
    assert_eq!(op.args(), &words(&["3", "2", "1"]));
    assert_eq!(op.tag(), None);
}

#[test]
fn statements_are_found_as_the_standard_library_finds_them() {
    let texts = [
        "",
        " ",
        "\n",
        "HLT",
        "HLT\n",
        "\nHLT",
        "SET 0 42\nREG\nHLT",
        "SET 0 42\r\nREG\r\nHLT\r\n",
        "  SET   0   42  \n\n\n  REG\n\tHLT\t\n\n",
        "set 1 2\nAdd 1 2 3\nsUb 3 2 1\nreg\nhlt\nfoo bar",
        "SET\u{a0}1\u{2003}2\u{3000}\nHLT\u{85}REG\u{2028}x\u{2029}y",
        "a\rb\nc\r\rd\n\re",
        "\u{b}\u{c}HLT\u{b}\n\u{c}",
        "\u{feff}HLT",
        "\u{200b}HLT \u{200b} x",
        "\u{17f}et 1 2",
        "A  B\tC\u{1680}D\u{2000}E\u{200a}F\u{202f}G\u{205f}H",
    ];
    for text in texts {
        assert_eq!(parse(text).unwrap(), statements_by_std(text), "{:?}", text);
    }
}

#[test]
fn short_texts_are_split_as_the_standard_library_splits_them() {
    let alphabet = ['a', ' ', '\n', '\r', '\t', '\u{a0}'];
    let mut texts: Vec<String> = vec![String::new()];
    let mut from = 0;
    for _ in 0..5 {
        let until = texts.len();
        for i in from..until {
            for c in alphabet {
                let mut longer = texts[i].clone();
                longer.push(c);
                texts.push(longer);
            }
        }
        from = until;
    }
    for text in texts {
        assert_eq!(parse(&text).unwrap(), statements_by_std(&text), "{:?}", text);
    }
}
