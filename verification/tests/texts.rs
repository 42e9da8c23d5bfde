use fen4::number::{parse_u16, parse_usize, push_decimal};
use fen4::text::{
    char_is_whitespace, chars_of, find_char, find_either, join_text, rfind_char, split_text,
    string_of, strip_quotes, text_is, trim_text,
};
use fen4::NumberParseError;

fn chars(text: &str) -> Vec<char> {
    text.chars().collect()
}

fn texts(parts: Vec<&[char]>) -> Vec<String> {
    parts.iter().map(|part| part.iter().collect()).collect()
}

#[test]
fn text_to_characters_and_back() {
    assert_eq!(chars_of("yβ,3"), vec!['y', 'β', ',', '3']);
    assert_eq!(chars_of(""), Vec::<char>::new());
    assert_eq!(string_of(&['y', 'β', ',', '3']), "yβ,3");
    assert_eq!(string_of(&[]), "");
}

#[test]
fn finding_characters() {
    let text = chars("a:b,c}d:e");
    assert_eq!(find_char(&text, ':'), 1);
    assert_eq!(find_char(&text, 'x'), 9);
    assert_eq!(find_either(&text, ',', '}'), 3);
    assert_eq!(find_either(&text, '}', 'd'), 5);
    assert_eq!(find_either(&text, 'x', 'y'), 9);
    assert_eq!(rfind_char(&text, ':'), Some(7));
    assert_eq!(rfind_char(&text, 'a'), Some(0));
    assert_eq!(rfind_char(&text, 'x'), None);
    assert_eq!(rfind_char(&[], 'x'), None);
}

#[test]
fn splitting_like_the_standard_library() {
    for text in ["", ",", "a", "a,b", ",a,,b,", "3,yR,yN,3", ",,,"] {
        let wanted: Vec<String> = text.split(',').map(String::from).collect();
        assert_eq!(texts(split_text(&chars(text), ',')), wanted);
    }
}

#[test]
fn joining_undoes_splitting() {
    for text in ["", "-", "R-0,0-1", "--a--"] {
        let parts: Vec<Vec<char>> = split_text(&chars(text), '-')
            .iter()
            .map(|part| part.to_vec())
            .collect();
        assert_eq!(join_text(&parts, '-'), chars(text));
    }
    assert_eq!(join_text(&Vec::new(), '-'), Vec::<char>::new());
}

#[test]
fn whitespace_like_the_standard_library() {
    for code in 0..=0x10FFFFu32 {
        if let Some(c) = char::from_u32(code) {
            assert_eq!(char_is_whitespace(c), c.is_whitespace(), "{:?}", c);
        }
    }
}

#[test]
fn trimming_like_the_standard_library() {
    for text in [
        "",
        " ",
        "\n\t ",
        "a",
        " a",
        "a ",
        "\n3,yR \u{a0}",
        " a b ",
        "\u{2003}x\u{3000}",
    ] {
        let trimmed: String = trim_text(&chars(text)).iter().collect();
        assert_eq!(trimmed, text.trim());
    }
}

#[test]
fn quotes_are_taken_off() {
    assert_eq!(strip_quotes(&chars("'a4'")), Some(&chars("a4")[..]));
    assert_eq!(strip_quotes(&chars("''")), Some(&chars("")[..]));
    assert_eq!(strip_quotes(&chars("'''")), Some(&chars("'")[..]));
    assert_eq!(strip_quotes(&chars("'")), None);
    assert_eq!(strip_quotes(&chars("")), None);
    assert_eq!(strip_quotes(&chars("a4'")), None);
    assert_eq!(strip_quotes(&chars("'a4")), None);
}

#[test]
fn words_are_told_apart() {
    assert!(text_is(&chars("royal"), "royal"));
    assert!(!text_is(&chars("royal"), "lives"));
    assert!(!text_is(&chars("royal"), "royals"));
    assert!(!text_is(&chars("roya"), "royal"));
    assert!(text_is(&chars(""), ""));
}

#[test]
fn numbers_are_read() {
    assert_eq!(parse_usize(&chars("0")), Ok(0));
    assert_eq!(parse_usize(&chars("42")), Ok(42));
    assert_eq!(parse_usize(&chars("007")), Ok(7));
    assert_eq!(parse_usize(&chars("+7")), Ok(7));
    assert_eq!(
        parse_usize(&chars(&usize::MAX.to_string())),
        Ok(usize::MAX)
    );
    assert_eq!(parse_u16(&chars("65535")), Ok(65535));
}

#[test]
fn faults_of_numbers() {
    assert_eq!(parse_usize(&chars("")), Err(NumberParseError::Empty));
    assert_eq!(
        parse_usize(&chars("+")),
        Err(NumberParseError::InvalidDigit)
    );
    assert_eq!(
        parse_usize(&chars("-")),
        Err(NumberParseError::InvalidDigit)
    );
    assert_eq!(
        parse_usize(&chars("-1")),
        Err(NumberParseError::InvalidDigit)
    );
    assert_eq!(
        parse_usize(&chars("12x")),
        Err(NumberParseError::InvalidDigit)
    );
    assert_eq!(
        parse_usize(&chars("١٢")),
        Err(NumberParseError::InvalidDigit)
    );
    assert_eq!(
        parse_usize(&chars("18446744073709551616")),
        Err(NumberParseError::PosOverflow)
    );
    assert_eq!(
        parse_u16(&chars("65536")),
        Err(NumberParseError::PosOverflow)
    );
    assert_eq!(
        parse_u16(&chars("99999x")),
        Err(NumberParseError::PosOverflow)
    );
    assert_eq!(
        parse_u16(&chars("6553x6")),
        Err(NumberParseError::InvalidDigit)
    );
}

#[test]
fn numbers_like_the_standard_library() {
    for text in [
        "", "+", "-", "0", "+0", "-0", "1", "65535", "65536", "65535x", "655360", "x1", "1x",
        "++1", "+-1", "00000000000065535", "99999999999", "9999999999x", " 1", "1 ",
    ] {
        let ours = parse_u16(&chars(text));
        match text.parse::<u16>() {
            Ok(n) => assert_eq!(ours, Ok(n), "{:?}", text),
            Err(e) => {
                let kind = match e.kind() {
                    std::num::IntErrorKind::Empty => NumberParseError::Empty,
                    std::num::IntErrorKind::InvalidDigit => NumberParseError::InvalidDigit,
                    std::num::IntErrorKind::PosOverflow => NumberParseError::PosOverflow,
                    other => panic!("{:?}", other),
                };
                assert_eq!(ours, Err(kind), "{:?}", text);
            }
        }
    }
}

#[test]
fn numbers_are_written() {
    for n in [0u64, 7, 10, 14, 99, 100, 65535, 94403, u64::MAX] {
        let mut out = vec!['#'];
        push_decimal(&mut out, n);
        let text: String = out.iter().collect();
        assert_eq!(text, format!("#{}", n));
    }
}
