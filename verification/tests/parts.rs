use ktane_utils::indicators::{IndicatorCode, IndicatorState, IndicatorTable, UnrecognizedIndicator};
use ktane_utils::ports::{port_groups, PortPlate, PortSet, PortType, UnrecognizedPort};
use ktane_utils::serial::SerialNumber;
use ktane_utils::text::{
    check_occurs_at, check_whitespace, chars_of, digit_value, parse_u32, same_text, split_text,
    text_is, trim_text,
};

const PORTS: [PortType; 6] = [
    PortType::Serial,
    PortType::Parallel,
    PortType::DVI,
    PortType::PS2,
    PortType::RJ45,
    PortType::StereoRCA,
];

const CODES: [IndicatorCode; 11] = [
    IndicatorCode::SND,
    IndicatorCode::CLR,
    IndicatorCode::CAR,
    IndicatorCode::IND,
    IndicatorCode::FRQ,
    IndicatorCode::SIG,
    IndicatorCode::NSA,
    IndicatorCode::MSA,
    IndicatorCode::TRN,
    IndicatorCode::BOB,
    IndicatorCode::FRK,
];

fn pieces(s: &str, sep: &str) -> Vec<String> {
    split_text(&chars_of(s), &chars_of(sep)).into_iter().map(|p| p.into_iter().collect()).collect()
}

#[test]
fn chars_of_keeps_every_character() {
    assert_eq!(chars_of(""), Vec::<char>::new());
    assert_eq!(chars_of("a½ b"), vec!['a', '½', ' ', 'b']);
}

#[test]
fn digits_stand_for_their_numbers() {
    for (value, c) in "0123456789".chars().enumerate() {
        assert_eq!(digit_value(c) as usize, value);
    }
    for &c in &['/', ':', 'a', ' ', '٣', '+'] {
        assert_eq!(digit_value(c), 0);
    }
}

#[test]
fn same_text_compares_every_character() {
    assert!(same_text(&chars_of("abc"), &chars_of("abc")));
    assert!(same_text(&chars_of(""), &chars_of("")));
    assert!(!same_text(&chars_of("abc"), &chars_of("abd")));
    assert!(!same_text(&chars_of("abc"), &chars_of("ab")));
    assert!(!same_text(&chars_of("ab"), &chars_of("abc")));
    assert!(text_is(&chars_of("Empty"), "Empty"));
    assert!(!text_is(&chars_of("Empty "), "Empty"));
}

#[test]
fn occurrence_is_checked_in_place() {
    let text = chars_of("ab // cd");
    let sep = chars_of(" // ");
    assert!(check_occurs_at(&text, &sep, 2));
    assert!(!check_occurs_at(&text, &sep, 1));
    assert!(!check_occurs_at(&text, &sep, 4));
    assert!(check_occurs_at(&text, &[], 8));
    assert!(!check_occurs_at(&text, &[], 9));
    assert!(!check_occurs_at(&text, &sep, 5));
    assert!(!check_occurs_at(&text, &sep, usize::MAX));
}

#[test]
fn split_cuts_at_every_separator() {
    assert_eq!(pieces("a // b // c", " // "), vec!["a", "b", "c"]);
    assert_eq!(pieces("abc", " // "), vec!["abc"]);
    assert_eq!(pieces("", " // "), vec![""]);
    assert_eq!(pieces(" // ", " // "), vec!["", ""]);
    assert_eq!(pieces("a //  // b", " // "), vec!["a", "", "b"]);
    assert_eq!(pieces("a // b // ", " // "), vec!["a", "b", ""]);
    assert_eq!(pieces("a  b ", " "), vec!["a", "", "b", ""]);
    assert_eq!(pieces("Serial] [DVI, RJ45] [Empty", "] ["), vec!["Serial", "DVI, RJ45", "Empty"]);
    assert_eq!(pieces("aaa", "aa"), vec!["", "a"]);
    assert_eq!(pieces("] [] [", "] ["), vec!["", "", ""]);
    assert_eq!(pieces("abc", ""), vec!["abc"]);
}

#[test]
fn split_agrees_with_the_standard_split() {
    for &text in &["", "a", "a, b", ", ", ", , ", "a,b, c , d,  e", " //  //  // ", "x // y//z // "] {
        for &sep in &[", ", " // ", " ", "] ["] {
            let expected: Vec<String> = text.split(sep).map(|p| p.to_string()).collect();
            assert_eq!(pieces(text, sep), expected);
        }
    }
}

#[test]
fn trim_drops_whitespace_at_both_ends() {
    let trimmed = |s: &str| trim_text(&chars_of(s)).into_iter().collect::<String>();
    assert_eq!(trimmed("  a b \t\n"), "a b");
    assert_eq!(trimmed("a"), "a");
    assert_eq!(trimmed(""), "");
    assert_eq!(trimmed(" \u{3000}\u{2028} "), "");
    assert_eq!(trimmed("\u{a0}[x]\u{85}"), "[x]");
    assert_eq!(trimmed("\u{200b}x"), "\u{200b}x");
}

#[test]
fn whitespace_is_what_the_standard_library_calls_so() {
    for code in 0u32..0x3100 {
        if let Some(c) = char::from_u32(code) {
            assert_eq!(check_whitespace(c), c.is_whitespace(), "{:x}", code);
        }
    }
    assert!(!check_whitespace('\u{feff}'));
    assert!(!check_whitespace('\u{10ffff}'));
}

#[test]
fn numbers_are_read_as_the_standard_library_reads_them() {
    for &text in &[
        "0", "7", "42", "007", "+5", "+", "", "-1", "-0", "1 ", " 1", "1_000", "4294967295",
        "4294967296", "4294967300", "99999999999", "0004294967295", "+4294967295", "++1", "1+",
        "12a", "٣", "0x10",
    ] {
        assert_eq!(parse_u32(&chars_of(text)), text.parse::<u32>().ok(), "{:?}", text);
    }
    assert_eq!(parse_u32(&chars_of("4294967295")), Some(4294967295));
    assert_eq!(parse_u32(&chars_of("4294967296")), None);
    assert_eq!(parse_u32(&chars_of("120")), Some(120));
}

#[test]
fn port_names_are_matched_exactly() {
    for &(name, port) in &[
        ("serial", PortType::Serial),
        ("Serial", PortType::Serial),
        ("parallel", PortType::Parallel),
        ("Parallel", PortType::Parallel),
        ("DVI-D", PortType::DVI),
        ("DVI", PortType::DVI),
        ("PS/2", PortType::PS2),
        ("PS2", PortType::PS2),
        ("RJ-45", PortType::RJ45),
        ("RJ45", PortType::RJ45),
        ("RJ", PortType::RJ45),
        ("stereo RCA", PortType::StereoRCA),
        ("Stereo RCA", PortType::StereoRCA),
        ("StereoRCA", PortType::StereoRCA),
        ("RCA", PortType::StereoRCA),
    ] {
        assert_eq!(name.parse::<PortType>(), Ok(port));
        assert_eq!(PortType::from_chars(&chars_of(name)), Ok(port));
    }
    for &name in &["", "SERIAL", "dvi", "Airport", "RJ 45", "Serial ", " Serial", "Empty", "rca"] {
        assert_eq!(name.parse::<PortType>(), Err(UnrecognizedPort));
    }
}

#[test]
fn ports_have_names_articles_and_bits() {
    let names = ["serial", "parallel", "DVI-D", "PS/2", "RJ-45", "stereo RCA"];
    let bits = [1u8, 2, 4, 8, 16, 32];
    for i in 0..6 {
        assert_eq!(PORTS[i].name(), names[i]);
        assert_eq!(PORTS[i].to_string(), names[i]);
        assert_eq!(PORTS[i].mask(), bits[i]);
        assert_eq!(PORTS[i].article(), if PORTS[i] == PortType::RJ45 { "an" } else { "a" });
        assert_eq!(PortType::from_str(PORTS[i].name()), Ok(PORTS[i]));
    }
}

#[test]
fn port_sets_hold_what_was_put_in() {
    let empty = PortSet::empty();
    assert!(empty.is_empty());
    for &port in &PORTS {
        assert!(!empty.has(port));
        let one = PortSet::only(port);
        assert!(!one.is_empty());
        assert!(one.contains(empty));
        assert!(!empty.contains(one));
        for &other in &PORTS {
            assert_eq!(one.has(other), port == other);
            let two = one.with(other);
            assert_eq!(two, PortSet::only(other).union(one));
            assert!(two.has(port) && two.has(other));
            assert!(two.contains(one));
            assert_eq!(one.contains(two), port == other);
            for &third in &PORTS {
                assert_eq!(two.has(third), third == port || third == other);
            }
        }
    }
}

#[test]
fn port_groups_part_the_ports() {
    let groups = port_groups();
    for &port in &PORTS {
        let in_a = port == PortType::Serial || port == PortType::Parallel;
        assert_eq!(groups[0].has(port), in_a);
        assert_eq!(groups[1].has(port), !in_a);
    }
}

#[test]
fn plate_is_built_iff_ports_share_a_group() {
    let groups = port_groups();
    for bits in 0u8..64 {
        let mut set = PortSet::empty();
        for &port in &PORTS {
            if bits & port.mask() != 0 {
                set = set.with(port);
            }
        }
        let fits = groups[0].contains(set) || groups[1].contains(set);
        assert_eq!(fits, bits & 3 == 0 || bits & 60 == 0);
        match PortPlate::new(set) {
            Some(plate) => {
                assert!(fits);
                assert_eq!(plate.ports(), set);
                assert_eq!(plate.is_empty(), bits == 0);
                for &port in &PORTS {
                    assert_eq!(plate.has(port), set.has(port));
                }
            }
            None => assert!(!fits),
        }
    }
    assert!(PortPlate::empty().is_empty());
    assert_eq!(PortPlate::empty().ports(), PortSet::empty());
}

#[test]
fn indicator_codes_are_matched_exactly() {
    let names = ["SND", "CLR", "CAR", "IND", "FRQ", "SIG", "NSA", "MSA", "TRN", "BOB", "FRK"];
    assert_eq!(IndicatorCode::COUNT, 11);
    for i in 0..11 {
        assert_eq!(names[i].parse::<IndicatorCode>(), Ok(CODES[i]));
        assert_eq!(IndicatorCode::from_chars(&chars_of(names[i])), Ok(CODES[i]));
        assert_eq!(CODES[i].name(), names[i]);
        assert_eq!(CODES[i].to_string(), names[i]);
        assert_eq!(CODES[i].index(), i);
    }
    for &name in &["", "snd", "WTF", "*FRK", "FRK ", "FR", "FRKK"] {
        assert_eq!(name.parse::<IndicatorCode>(), Err(UnrecognizedIndicator));
    }
}

#[test]
fn indicator_table_starts_absent_and_keeps_the_last_write() {
    assert_eq!(IndicatorState::default(), IndicatorState::NotPresent);
    let mut table = IndicatorTable::new();
    for &code in &CODES {
        assert_eq!(table.get(code), IndicatorState::NotPresent);
    }
    table.set(IndicatorCode::BOB, IndicatorState::Lit);
    table.set(IndicatorCode::SND, IndicatorState::Unlit);
    table.set(IndicatorCode::BOB, IndicatorState::Unlit);
    for &code in &CODES {
        let expected = if code == IndicatorCode::BOB || code == IndicatorCode::SND {
            IndicatorState::Unlit
        } else {
            IndicatorState::NotPresent
        };
        assert_eq!(table.get(code), expected);
    }
    table.set(IndicatorCode::SND, IndicatorState::NotPresent);
    assert_eq!(table.get(IndicatorCode::SND), IndicatorState::NotPresent);
}

#[test]
fn serial_character_classes() {
    for code in 0u32..0x250 {
        let c = char::from_u32(code).unwrap();
        let letter = c.is_ascii_uppercase() && c != 'O' && c != 'Y';
        let digit = c.is_ascii_digit();
        assert_eq!(SerialNumber::is_valid_letter(c), letter);
        assert_eq!(SerialNumber::is_valid_digit(c), digit);
        assert_eq!(SerialNumber::is_valid_character(c), letter || digit);
    }
    for c in SerialNumber::CHARSET.chars() {
        assert!(SerialNumber::is_valid_character(c));
    }
}

#[test]
fn valid_serials_round_trip() {
    let firsts = ['A', 'N', 'P', 'X', 'Z', '0', '5', '9'];
    let letters = ['A', 'E', 'N', 'P', 'X', 'Z'];
    for &a in &firsts {
        for &b in &firsts {
            for middle in 0u8..10 {
                for &c in &letters {
                    for last in 0u8..10 {
                        let text = format!("{}{}{}{}{}{}", a, b, middle, c, 'Q', last);
                        let serial = SerialNumber::from_str(&text).unwrap();
                        assert_eq!(serial.as_str(), text);
                        assert_eq!(serial.as_ref(), text);
                        assert_eq!(serial.as_bytes(), text.as_bytes());
                        assert_eq!(serial.middle_digit(), middle);
                        assert_eq!(serial.last_digit(), last);
                        assert_eq!(serial.starts_with_letter(), a.is_ascii_uppercase());
                        assert_eq!(serial.clone(), serial);
                    }
                }
            }
        }
    }
}

#[test]
fn serial_digits_are_numbers() {
    let serial = "KT4NE8".parse::<SerialNumber>().unwrap();
    assert_eq!(serial.middle_digit(), 4);
    assert_eq!(serial.last_digit(), 8);
    assert_eq!(serial.as_bytes(), b"KT4NE8");
    assert!(serial.starts_with_letter());
    let serial = "123AB4".parse::<SerialNumber>().unwrap();
    assert_eq!(serial.middle_digit(), 3);
    assert_eq!(serial.last_digit(), 4);
    assert!(!serial.starts_with_letter());
}

#[test]
fn forbidden_texts_are_no_serials() {
    for &wrong in &[
        "", "KT4NE", "KT4NE88", "OT4NE8", "KO4NE8", "KT4OE8", "KT4NO8", "YT4NE8", "KT4YE8",
        "kT4NE8", "KT4nE8", "KT4Ne8", "KTXNE8", "KT4NEX", "KT44E8", "KT4N48", "KT4NE８", "ÅT4NE8",
        "KT4NE8\n", " KT4NE8", "K T4NE", "KT4ÑE8",
    ] {
        assert_eq!(SerialNumber::from_str(wrong), Err(()), "{:?}", wrong);
    }
}
