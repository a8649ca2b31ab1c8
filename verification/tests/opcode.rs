use rok::assembler::Op;

const ALL: [Op; 6] = [Op::HLT, Op::IGL, Op::Add, Op::Sub, Op::SET, Op::Reg];

#[test]
fn every_opcode_is_found_again_from_its_code() {
    for op in ALL {
        assert_eq!(Op::from(op.code()), op);
    }
}

#[test]
fn every_opcode_is_found_again_from_its_mnemonic() {
    for op in ALL {
        assert_eq!(Op::from(op.mnemonic()), op);
    }
}

#[test]
fn the_table_of_codes() {
    assert_eq!(Op::HLT.code(), 0);
    assert_eq!(Op::Add.code(), 1);
    assert_eq!(Op::Sub.code(), 2);
    assert_eq!(Op::SET.code(), 3);
    assert_eq!(Op::IGL.code(), 99);
    assert_eq!(Op::Reg.code(), 100);
}

#[test]
fn the_table_of_mnemonics() {
    assert_eq!(Op::HLT.mnemonic(), "HLT");
    assert_eq!(Op::IGL.mnemonic(), "IGL");
    assert_eq!(Op::Add.mnemonic(), "ADD");
    assert_eq!(Op::Sub.mnemonic(), "SUB");
    assert_eq!(Op::SET.mnemonic(), "SET");
    assert_eq!(Op::Reg.mnemonic(), "REG");
}

#[test]
fn the_parts_are_the_code_with_the_high_byte_first() {
    assert_eq!(Op::HLT.to_parts(), [0, 0]);
    assert_eq!(Op::Add.to_parts(), [0, 1]);
    assert_eq!(Op::Sub.to_parts(), [0, 2]);
    assert_eq!(Op::SET.to_parts(), [0, 3]);
    assert_eq!(Op::IGL.to_parts(), [0, 99]);
    assert_eq!(Op::Reg.to_parts(), [0, 100]);
    for op in ALL {
        let parts = op.to_parts();
        assert_eq!(u16::from_be_bytes(parts), op.code());
    }
}

#[test]
fn unknown_inputs_are_the_illegal_instruction() {
    assert_eq!(Op::from("XYZZY"), Op::IGL);
    assert_eq!(Op::from(9999u16), Op::IGL);
}

#[test]
fn every_code_outside_the_table_is_illegal() {
    for code in 0..=u16::MAX {
        let expected = match code {
            0 => Op::HLT,
            1 => Op::Add,
            2 => Op::Sub,
            3 => Op::SET,
            100 => Op::Reg,
            _ => Op::IGL,
        };
        assert_eq!(Op::from(code), expected);
    }
}

#[test]
fn mnemonics_are_read_in_any_case() {
    assert_eq!(Op::from("set"), Op::SET);
    assert_eq!(Op::from("SET"), Op::SET);
    assert_eq!(Op::from("sEt"), Op::SET);
    assert_eq!(Op::from("hlt"), Op::HLT);
    assert_eq!(Op::from("Add"), Op::Add);
    assert_eq!(Op::from("sub"), Op::Sub);
    assert_eq!(Op::from("reg"), Op::Reg);
}

#[test]
fn a_mnemonic_is_the_whole_word() {
    assert_eq!(Op::from(""), Op::IGL);
    assert_eq!(Op::from("SE"), Op::IGL);
    assert_eq!(Op::from("SETS"), Op::IGL);
    assert_eq!(Op::from(" SET"), Op::IGL);
    assert_eq!(Op::from("HALT"), Op::IGL);
    assert_eq!(Op::from("igl"), Op::IGL);
}

#[test]
fn upper_case_is_unicodes() {
    // The long s has the upper case S.
    assert_eq!(Op::from("\u{17f}et"), Op::SET);
    assert_eq!(Op::from("\u{17f}ub"), Op::Sub);
    // A letter that merely looks like one of the mnemonic's does not count.
    assert_eq!(Op::from("S\u{415}T"), Op::IGL);
}

#[test]
fn upper_case_in_ascii_changes_the_small_letters_alone() {
    // A mnemonic is still known after one of its letters is replaced by an
    // ASCII character exactly if that character is the letter, small or
    // capital.
    for op in [Op::HLT, Op::Add, Op::Sub, Op::SET, Op::Reg] {
        let mnemonic: Vec<char> = op.mnemonic().chars().collect();
        for place in 0..mnemonic.len() {
            for code in 0u8..128 {
                let c = code as char;
                let mut changed = mnemonic.clone();
                changed[place] = c;
                let word: String = changed.iter().collect();
                let same = c == mnemonic[place] || c == mnemonic[place].to_ascii_lowercase();
                let expected = if same { op } else { Op::IGL };
                assert_eq!(Op::from(word.as_str()), expected, "{:?}", word);
            }
        }
    }
}

#[test]
fn every_mix_of_cases_is_read() {
    for op in [Op::HLT, Op::Add, Op::Sub, Op::SET, Op::Reg] {
        let mnemonic: Vec<char> = op.mnemonic().chars().collect();
        for mask in 0..8 {
            let word: String = mnemonic
                .iter()
                .enumerate()
                .map(|(i, c)| if mask & (1 << i) != 0 { c.to_ascii_lowercase() } else { *c })
                .collect();
            assert_eq!(Op::from(word.as_str()), op, "{:?}", word);
        }
    }
}
