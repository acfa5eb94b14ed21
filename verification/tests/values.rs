use youdusa::amount::Amount;
use youdusa::decimal::{i32_text, push_decimal, read_i32};
use youdusa::error::{LineError, ParseError};
use youdusa::text::{
    contains, count_char, find_first, find_last, find_last_match, find_nth, from_chars,
    matches_at, replace_all, same, slice, split_on, to_chars, trimmed, unwrapped, whitespace,
};

fn chars(text: &str) -> Vec<char> {
    text.chars().collect()
}

fn text(chars: &[char]) -> String {
    chars.iter().collect()
}

#[test]
fn amounts_are_read_in_base_sixteen() {
    assert_eq!(Amount::parse("0"), Some(Amount::from_u64(0)));
    assert_eq!(Amount::parse(""), Some(Amount::from_u64(0)));
    assert_eq!(Amount::parse("10"), Some(Amount::from_u64(16)));
    assert_eq!(Amount::parse("0x10"), Some(Amount::from_u64(16)));
    assert_eq!(Amount::parse("fF"), Some(Amount::from_u64(255)));
    assert_eq!(Amount::parse("123"), Some(Amount::from_u64(291)));
    assert_eq!(Amount::parse("1g"), None);
    assert_eq!(Amount::parse(" 1"), None);
    assert_eq!(Amount::parse("-1"), None);
    assert_eq!(Amount::parse("0X10"), None);
    assert!(Amount::parse(&"f".repeat(64)).is_some());
    assert_eq!(Amount::parse(&"f".repeat(65)), None);
}

#[test]
fn amounts_are_written_in_base_ten() {
    assert_eq!(Amount::from_u64(0).to_string(), "0");
    assert_eq!(Amount::from_u64(123).to_string(), "123");
    assert_eq!(
        Amount::from_u64(18446744073709551615).to_string(),
        "18446744073709551615"
    );
    assert_eq!(Amount::parse("ff").unwrap().to_string(), "255");
    assert_eq!(
        Amount::parse("10000000000000000").unwrap().to_string(),
        "18446744073709551616"
    );
    assert_eq!(
        Amount::parse(&"f".repeat(64)).unwrap().to_string(),
        "115792089237316195423570985008687907853269984665640564039457584007913129639935"
    );
}

#[test]
fn only_the_amount_nothing_is_zero() {
    assert!(Amount::from_u64(0).is_zero());
    assert!(Amount::parse("0x000").unwrap().is_zero());
    assert!(!Amount::from_u64(1).is_zero());
    assert!(!Amount::parse("10000000000000000").unwrap().is_zero());
    assert!(!Amount::parse(&format!("1{}", "0".repeat(63))).unwrap().is_zero());
}

#[test]
fn integers_are_written_in_decimal() {
    assert_eq!(text(&i32_text(0)), "0");
    assert_eq!(text(&i32_text(7)), "7");
    assert_eq!(text(&i32_text(10)), "10");
    assert_eq!(text(&i32_text(10429)), "10429");
    assert_eq!(text(&i32_text(-1)), "-1");
    assert_eq!(text(&i32_text(2147483647)), "2147483647");
    assert_eq!(text(&i32_text(-2147483648)), "-2147483648");
    let mut out = chars("n=");
    push_decimal(&mut out, 18446744073709551615);
    assert_eq!(text(&out), "n=18446744073709551615");
}

#[test]
fn integers_are_read_as_the_standard_library_reads_them() {
    for input in [
        "0", "7", "+7", "-7", "-0", "+0", "007", "2147483647", "-2147483648", "2147483648",
        "-2147483649", "99999999999999999999", "00000000000000000000001", "", "+", "-", "+-1",
        "1 ", " 1", "1_000", "0x10", "1.0", "１",
    ] {
        assert_eq!(read_i32(&chars(input)), input.parse::<i32>().ok(), "{:?}", input);
    }
    assert_eq!(read_i32(&chars("-2147483648")), Some(-2147483648));
    assert_eq!(read_i32(&chars("2147483648")), None);
}

#[test]
fn white_space_is_what_the_standard_library_takes_for_it() {
    for code in 0..0x30ffu32 {
        if let Some(c) = char::from_u32(code) {
            assert_eq!(whitespace(c), c.is_whitespace(), "{:x}", code);
        }
    }
    for input in ["", " ", " a ", "\t a b \n", "\u{3000}x\u{a0}", "a", "  "] {
        assert_eq!(text(&trimmed(&chars(input))), input.trim(), "{:?}", input);
    }
}

#[test]
fn characters_and_strings_convert_both_ways() {
    assert_eq!(to_chars("⇾ a"), vec!['⇾', ' ', 'a']);
    assert_eq!(from_chars(&vec!['⇾', ' ', 'a']), "⇾ a");
    assert_eq!(to_chars(""), Vec::<char>::new());
}

#[test]
fn searches_find_what_the_standard_library_finds() {
    let line = chars("a.b(c).d(e) (f)");
    assert_eq!(find_first(&line, '.', 0), Some(1));
    assert_eq!(find_first(&line, '.', 2), Some(6));
    assert_eq!(find_first(&line, '.', 7), None);
    assert_eq!(find_first(&line, '.', line.len()), None);
    assert_eq!(find_last(&line, '('), Some(12));
    assert_eq!(find_last(&line, 'z'), None);
    assert_eq!(count_char(&line, '('), 3);
    assert_eq!(find_nth(&line, '(', 0), Some(3));
    assert_eq!(find_nth(&line, '(', 1), Some(8));
    assert_eq!(find_nth(&line, '(', 2), Some(12));
    assert_eq!(find_nth(&line, '(', 3), None);
    assert_eq!(find_last_match(&line, &chars(" (")), Some(11));
    assert_eq!(find_last_match(&line, &chars("(")), Some(12));
    assert_eq!(find_last_match(&line, &chars("x")), None);
    assert_eq!(find_last_match(&line, &chars("")), Some(line.len()));
    assert!(contains(&line, &chars(".d(")));
    assert!(contains(&line, &chars("(f)")));
    assert!(contains(&line, &chars("")));
    assert!(!contains(&line, &chars("(f) ")));
    assert!(!contains(&chars(""), &chars("a")));
    assert!(matches_at(&line, &chars("b(c"), 2));
    assert!(!matches_at(&line, &chars("b(c"), 3));
    assert!(!matches_at(&line, &chars("(f)"), 13));
    assert!(same(&chars("ab"), &chars("ab")));
    assert!(!same(&chars("ab"), &chars("abc")));
    assert!(!same(&chars("ab"), &chars("ac")));
    assert_eq!(text(&slice(&line, 2, 6)), "b(c)");
}

#[test]
fn replacing_goes_from_the_left_and_does_not_look_back() {
    for (input, from, to) in [
        ("a,,b", ",,", ",'',"),
        (",,,", ",,", ",'',"),
        (",,,,", ",,", ",'',"),
        ("aaa", "aa", "b"),
        ("abc", "abc", ""),
        ("abc", "abcd", "x"),
        ("abc", "", "x"),
        ("", "a", "x"),
        ("(,(,", "(,", "('',"),
    ] {
        let expected = if from.is_empty() {
            input.to_string()
        } else {
            input.replace(from, to)
        };
        assert_eq!(
            text(&replace_all(&chars(input), &chars(from), &chars(to))),
            expected,
            "{:?} {:?}",
            input,
            from
        );
    }
}

#[test]
fn splitting_and_stripping() {
    let pieces = |input: &str| -> Vec<String> {
        split_on(&chars(input), ',').iter().map(|p| text(p)).collect()
    };
    assert_eq!(pieces(""), vec![""]);
    assert_eq!(pieces("a"), vec!["a"]);
    assert_eq!(pieces("a,b , c"), vec!["a", "b ", " c"]);
    assert_eq!(pieces(",a,,"), vec!["", "a", "", ""]);
    assert_eq!(text(&unwrapped(&chars("((a)b))"), '(', ')')), "(a)b)");
    assert_eq!(text(&unwrapped(&chars("(1,(2,3))"), '(', ')')), "1,(2,3)");
    assert_eq!(text(&unwrapped(&chars("(("), '(', ')')), "(");
    assert_eq!(text(&unwrapped(&chars("()"), '(', ')')), "");
    assert_eq!(text(&unwrapped(&chars("("), '(', ')')), "");
    assert_eq!(text(&unwrapped(&chars(")"), '(', ')')), "");
    assert_eq!(text(&unwrapped(&chars(""), '(', ')')), "");
    assert_eq!(text(&unwrapped(&chars("a"), '(', ')')), "a");
    assert_eq!(text(&unwrapped(&chars("))(("), '(', ')')), "))((");
    assert_eq!(text(&unwrapped(&chars("xax"), 'x', 'x')), "a");
    assert_eq!(text(&unwrapped(&chars("x"), 'x', 'x')), "");
    assert_eq!(text(&unwrapped(&chars("xxx"), 'x', 'x')), "x");
}

#[test]
fn every_error_has_its_message() {
    assert_eq!(
        ParseError::PropertyName.to_string(),
        "Couldn't parse property name"
    );
    assert_eq!(
        ParseError::CallContext.to_string(),
        "failed to parse call context"
    );
    assert_eq!(
        ParseError::PropertyCall.to_string(),
        "failed to extract property to call"
    );
    assert_eq!(ParseError::WrongParent.to_string(), "wrong parent");
    assert_eq!(
        ParseError::CalledName.to_string(),
        "Failed to extract property name"
    );
    assert_eq!(
        LineError::NewFailure(ParseError::PropertyName).to_string(),
        "failed to parse new broken property"
    );
    assert_eq!(
        LineError::NewCall(ParseError::WrongParent).to_string(),
        "failed to add new call to ast"
    );
    assert_eq!(
        LineError::NewCall(ParseError::PropertyCall).cause(),
        ParseError::PropertyCall
    );
}
