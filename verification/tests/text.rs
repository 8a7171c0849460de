use calculator::number::{is_digit_char, is_numeric};
use calculator::operator::Operator;
use calculator::text::{eq_ignoring_case, is_whitespace, to_lower, tokenize, trim};

fn std_tokens(line: &str) -> Vec<String> {
    line.split_whitespace().map(|t| t.to_string()).collect()
}

fn std_numeric(token: &str) -> bool {
    token.parse::<f64>().is_ok()
}

#[test]
fn whitespace_is_the_unicode_property() {
    let mut code: u32 = 0;
    while code <= 0x10FFFF {
        if let Some(c) = char::from_u32(code) {
            assert_eq!(is_whitespace(c), c.is_whitespace(), "U+{:04X}", code);
        }
        code += 1;
    }
}

#[test]
fn tokens_are_the_runs_between_whitespace() {
    assert_eq!(tokenize("5 + 3"), vec!["5", "+", "3"]);
    assert_eq!(tokenize("  5   +\t3\n"), vec!["5", "+", "3"]);
    assert_eq!(tokenize("5+3"), vec!["5+3"]);
    assert_eq!(tokenize(""), Vec::<String>::new());
    assert_eq!(tokenize(" \t\r\n"), Vec::<String>::new());
    assert_eq!(tokenize("a"), vec!["a"]);
    assert_eq!(tokenize("a\u{3000}b\u{a0}c"), vec!["a", "b", "c"]);
    assert_eq!(tokenize("héllo wörld"), vec!["héllo", "wörld"]);
}

#[test]
fn tokens_agree_with_split_whitespace() {
    let alphabet = ['a', '5', ' ', '\t', '+', '\u{2003}', 'é'];
    let mut lines: Vec<String> = vec![String::new()];
    let mut from = 0;
    for _ in 0..5 {
        let upto = lines.len();
        for i in from..upto {
            for c in alphabet {
                let mut next = lines[i].clone();
                next.push(c);
                lines.push(next);
            }
        }
        from = upto;
    }
    for line in &lines {
        assert_eq!(tokenize(line), std_tokens(line), "{:?}", line);
        assert_eq!(trim(line), line.trim(), "{:?}", line);
    }
}

#[test]
fn trim_drops_both_ends_only() {
    assert_eq!(trim("  5 + 3 \n"), "5 + 3");
    assert_eq!(trim("5 + 3"), "5 + 3");
    assert_eq!(trim(""), "");
    assert_eq!(trim(" \t "), "");
    assert_eq!(trim("\u{2028}x y\u{85}"), "x y");
}

#[test]
fn case_is_ignored_for_ascii_letters_only() {
    assert!(eq_ignoring_case("QuIt", "quit"));
    assert!(eq_ignoring_case("", ""));
    assert!(!eq_ignoring_case("quit", "quits"));
    assert!(!eq_ignoring_case("quit", "quid"));
    assert!(!eq_ignoring_case("É", "é"));
    assert!(!eq_ignoring_case("@", "`"));
    assert!(!eq_ignoring_case("[", "{"));
    assert_eq!(to_lower('A'), 'a');
    assert_eq!(to_lower('Z'), 'z');
    assert_eq!(to_lower('a'), 'a');
    assert_eq!(to_lower('@'), '@');
    assert_eq!(to_lower('['), '[');
    assert_eq!(to_lower('É'), 'É');
    let mut code: u32 = 0;
    while code < 128 {
        let c = char::from_u32(code).unwrap();
        assert_eq!(to_lower(c), c.to_ascii_lowercase());
        code += 1;
    }
}

#[test]
fn operators_are_the_four_symbols() {
    assert_eq!(Operator::parse("+"), Some(Operator::Add));
    assert_eq!(Operator::parse("-"), Some(Operator::Subtract));
    assert_eq!(Operator::parse("*"), Some(Operator::Multiply));
    assert_eq!(Operator::parse("/"), Some(Operator::Divide));
    assert_eq!(Operator::parse("%"), None);
    assert_eq!(Operator::parse(""), None);
    assert_eq!(Operator::parse("++"), None);
    assert_eq!(Operator::parse("+ "), None);
    assert_eq!(Operator::parse("÷"), None);
    for op in [Operator::Add, Operator::Subtract, Operator::Multiply, Operator::Divide] {
        assert_eq!(Operator::parse(&op.symbol().to_string()), Some(op));
    }
    assert_eq!(Operator::Add.symbol(), '+');
    assert_eq!(Operator::Subtract.symbol(), '-');
    assert_eq!(Operator::Multiply.symbol(), '*');
    assert_eq!(Operator::Divide.symbol(), '/');
}

#[test]
fn digits_are_ascii() {
    assert!(is_digit_char('0'));
    assert!(is_digit_char('9'));
    assert!(!is_digit_char('/'));
    assert!(!is_digit_char(':'));
    assert!(!is_digit_char('a'));
    assert!(!is_digit_char('٣'));
}

#[test]
fn operands_follow_the_grammar() {
    for token in [
        "5", "05", "3.14", "3.", ".5", "+5", "-5", "+.5", "-5.", "1e5", "1E5", "1e+5", "1e-5", "1.e5",
        ".1e5", "1.5e-10", "inf", "+inf", "-inf", "INF", "Infinity", "-iNfInItY", "nan", "NaN", "+nan",
        "-NAN", "0", "-0", "000", "1e0", "1e400", "1e-400", "123456789012345678901234567890",
    ] {
        assert!(is_numeric(token), "{:?}", token);
        assert!(std_numeric(token), "{:?}", token);
    }
    for token in [
        "", "hello", ".", "+", "-", "e5", ".e5", "1e", "1e+", "1e-", "1e5.5", "1.2.3", "--1", "+-1", "1+",
        "1_000", "0x10", "1f", "1.0f64", "infinit", "infinityy", "in", "na", "nanx", "1 ", " 1", "٣", "1,5",
        "e", "E", "+e1", "1ee1", "1e1e1", "i", "+", "+.", "-.e1", "½",
    ] {
        assert!(!is_numeric(token), "{:?}", token);
        assert!(!std_numeric(token), "{:?}", token);
    }
}

#[test]
fn operands_agree_with_the_float_parser() {
    let alphabet = ['0', '7', '.', 'e', 'E', '+', '-', 'i', 'n', 'f', 'a', 'N'];
    let mut tokens: Vec<String> = vec![String::new()];
    let mut from = 0;
    for _ in 0..4 {
        let upto = tokens.len();
        for i in from..upto {
            for c in alphabet {
                let mut next = tokens[i].clone();
                next.push(c);
                tokens.push(next);
            }
        }
        from = upto;
    }
    for token in &tokens {
        assert_eq!(is_numeric(token), std_numeric(token), "{:?}", token);
    }
    for sign in ["", "+", "-"] {
        for word in ["infinity", "INFINITY", "Infinity", "infinitY", "infinit", "infinityy", "1.5e+10", "1.5e+1.0"] {
            let token = format!("{}{}", sign, word);
            assert_eq!(is_numeric(&token), std_numeric(&token), "{:?}", token);
        }
    }
}

#[test]
fn every_token_is_a_word() {
    for line in ["5 + 3", "  a\tbc \u{2003} d\n", "", "   ", "x", "1e5/2 3", "é\u{a0}ü"] {
        for token in tokenize(line) {
            assert!(!token.is_empty(), "{:?}", line);
            assert!(token.chars().all(|c| !is_whitespace(c)), "{:?}", line);
        }
        assert_eq!(tokenize(trim(line)), tokenize(line), "{:?}", line);
    }
}

#[test]
fn numbers_are_made_of_their_parts() {
    let runs = ["", "0", "42", "007"];
    let exponents = ["", "e5", "E5", "e+5", "e-05", "E+0"];
    for whole in runs {
        for fraction in runs {
            for exponent in exponents {
                let pointed = format!("{}.{}{}", whole, fraction, exponent);
                let expected = !(whole.is_empty() && fraction.is_empty());
                assert_eq!(is_numeric(&pointed), expected, "{:?}", pointed);
                assert_eq!(std_numeric(&pointed), expected, "{:?}", pointed);
            }
        }
        for exponent in exponents {
            let plain = format!("{}{}", whole, exponent);
            assert_eq!(is_numeric(&plain), !whole.is_empty(), "{:?}", plain);
            assert_eq!(std_numeric(&plain), !whole.is_empty(), "{:?}", plain);
        }
        for broken in ["e", "e+", "E-", "e5x", "e 5", "ee5", "e.5"] {
            let token = format!("1{}{}", whole, broken);
            assert!(!is_numeric(&token), "{:?}", token);
            assert!(!std_numeric(&token), "{:?}", token);
        }
    }
}
