use chomper::smarts::scanner::{chars_of, get_digits, scan, ScanErrorKind, Token};

#[test]
fn simple_scan() {
    let s = r#"[#6H3:1]-[#6H2:2]-[#7H:3]-[#7H:4]-[#6H3:5]"#;
    scan(s.to_owned()).unwrap();
}

#[test]
fn scan_gives_each_token_of_a_short_pattern() {
    let got = scan("[#6H3:1]-".to_owned()).unwrap();
    let want = vec![
        Token::LBrack,
        Token::Atom(6),
        Token::HCount(3),
        Token::Colon,
        Token::Digit(1),
        Token::RBrack,
        Token::Dash,
        Token::End,
    ];
    assert_eq!(got, want);
}

#[test]
fn scan_of_nothing_is_the_end_alone() {
    assert_eq!(scan(String::new()).unwrap(), vec![Token::End]);
}

#[test]
fn scan_maps_each_punctuation_character_to_one_token() {
    let got = scan("[]():-@=\\/".to_owned()).unwrap();
    let want = vec![
        Token::LBrack,
        Token::RBrack,
        Token::LParen,
        Token::RParen,
        Token::Colon,
        Token::Dash,
        Token::At,
        Token::DoubleBond,
        Token::DownBond,
        Token::UpBond,
        Token::End,
    ];
    assert_eq!(got, want);
}

#[test]
fn scan_reads_two_at_signs_as_two_tokens() {
    assert_eq!(scan("@@".to_owned()).unwrap(), vec![Token::At, Token::At, Token::End]);
}

#[test]
fn hash_without_digits_is_a_triple_bond() {
    let got = scan("#[#16]#".to_owned()).unwrap();
    let want = vec![
        Token::TripleBond,
        Token::LBrack,
        Token::Atom(16),
        Token::RBrack,
        Token::TripleBond,
        Token::End,
    ];
    assert_eq!(got, want);
}

#[test]
fn hash_before_a_digit_is_an_atomic_number_wherever_it_stands() {
    let got = scan("[#6:1]#2".to_owned()).unwrap();
    assert_eq!(got[got.len() - 2], Token::Atom(2));
}

#[test]
fn hydrogen_count_and_charge_default_to_one() {
    let got = scan("HH2++3H0+0".to_owned()).unwrap();
    let want = vec![
        Token::HCount(1),
        Token::HCount(2),
        Token::Plus(1),
        Token::Plus(3),
        Token::HCount(0),
        Token::Plus(0),
        Token::End,
    ];
    assert_eq!(got, want);
}

#[test]
fn digits_that_follow_one_another_are_one_number() {
    let got = scan("12:007#0123".to_owned()).unwrap();
    let want =
        vec![Token::Digit(12), Token::Colon, Token::Digit(7), Token::Atom(123), Token::End];
    assert_eq!(got, want);
}

#[test]
fn scan_ends_with_exactly_one_end_token() {
    let got = scan("[#6:1]1=[#7:6]".to_owned()).unwrap();
    assert_eq!(got.iter().filter(|t| t.is_end()).count(), 1);
    assert!(got.last().unwrap().is_end());
    assert!(!Token::Dash.is_end());
}

#[test]
fn scan_rejects_a_character_that_starts_no_token() {
    let e = scan("[#6:1]x".to_owned()).unwrap_err();
    assert_eq!(e.kind, ScanErrorKind::Unrecognized('x'));
    assert_eq!(e.position, 6);
    assert_eq!(e.input, "[#6:1]x");
}

#[test]
fn scan_reports_the_first_character_that_starts_no_token() {
    let e = scan("[C:1]&[N:2]".to_owned()).unwrap_err();
    assert_eq!(e.kind, ScanErrorKind::Unrecognized('C'));
    assert_eq!(e.position, 1);
}

#[test]
fn scan_counts_positions_in_characters() {
    let e = scan("=é".to_owned()).unwrap_err();
    assert_eq!(e.kind, ScanErrorKind::Unrecognized('é'));
    assert_eq!(e.position, 1);
    let e = scan("é=?".to_owned()).unwrap_err();
    assert_eq!(e.kind, ScanErrorKind::Unrecognized('é'));
    assert_eq!(e.position, 0);
}

#[test]
fn the_largest_number_is_scanned() {
    let got = scan(format!("{}", usize::MAX)).unwrap();
    assert_eq!(got, vec![Token::Digit(usize::MAX), Token::End]);
    let got = scan(format!("[#{}]", usize::MAX)).unwrap();
    assert_eq!(got, vec![Token::LBrack, Token::Atom(usize::MAX), Token::RBrack, Token::End]);
}

#[test]
fn a_number_that_is_too_large_is_rejected() {
    let e = scan(format!("-{}0", usize::MAX)).unwrap_err();
    assert_eq!(e.kind, ScanErrorKind::NumberTooLarge);
    assert_eq!(e.position, 1);
    let e = scan("[#6H99999999999999999999999999999999]".to_owned()).unwrap_err();
    assert_eq!(e.kind, ScanErrorKind::NumberTooLarge);
    assert_eq!(e.position, 3);
    let e = scan("+340282366920938463463374607431768211456".to_owned()).unwrap_err();
    assert_eq!(e.kind, ScanErrorKind::NumberTooLarge);
    assert_eq!(e.position, 0);
}

#[test]
fn get_digits_reads_one_run() {
    let chars = chars_of("ab042c7");
    assert_eq!(chars, vec!['a', 'b', '0', '4', '2', 'c', '7']);
    assert_eq!(get_digits(&chars, 2), (5, Some(42)));
    assert_eq!(get_digits(&chars, 3), (5, Some(42)));
    assert_eq!(get_digits(&chars, 5), (5, Some(0)));
    assert_eq!(get_digits(&chars, 6), (7, Some(7)));
    assert_eq!(get_digits(&chars, 7), (7, Some(0)));
}
