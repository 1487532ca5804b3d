use chomper::smarts::evaluator::Evaluator;
use chomper::smarts::parser::{Expr, ParseErrorKind, Parser};
use chomper::smarts::scanner::{scan, Token};
use chomper::smarts::{Atom, Bond, BondOrder, Chiral};

fn parse(s: &str) -> Vec<Expr> {
    Parser::new(scan(s.to_owned()).unwrap()).parse().unwrap()
}

fn atom_of(s: &str) -> Atom {
    let exprs = parse(s);
    assert_eq!(exprs.len(), 1);
    match &exprs[0] {
        Expr::Atom(atom) => *atom,
        other => panic!("no atom: {:?}", other),
    }
}

#[test]
fn parse_single() {
    let s = r#"[#6H3:1]-[#6H2:2]-[#7H:3]-[#7H:4]-[#6H3:5]"#;
    let tokens = scan(s.to_owned()).unwrap();
    let exprs = Parser::new(tokens).parse().unwrap();
    let got = Evaluator::new(exprs).eval().unwrap();
    let want_atoms = vec![
        Atom::new(6, 3, 0, Chiral::Unspecified, 1),
        Atom::new(6, 2, 0, Chiral::Unspecified, 2),
        Atom::new(7, 1, 0, Chiral::Unspecified, 3),
        Atom::new(7, 1, 0, Chiral::Unspecified, 4),
        Atom::new(6, 3, 0, Chiral::Unspecified, 5),
    ];
    let want_bonds = vec![
        Bond::new(1, 2, BondOrder::Single),
        Bond::new(2, 3, BondOrder::Single),
        Bond::new(3, 4, BondOrder::Single),
        Bond::new(4, 5, BondOrder::Single),
    ];
    assert_eq!(got, (want_atoms, want_bonds));
}

#[test]
fn parse_gives_one_expression_for_each_item() {
    let got = parse("[#6:1](-[#8:2])=[#7:3]1");
    let want = vec![
        Expr::Atom(Atom::new(6, 0, 0, Chiral::Unspecified, 1)),
        Expr::Grouping(vec![
            Expr::Bond(BondOrder::Single),
            Expr::Atom(Atom::new(8, 0, 0, Chiral::Unspecified, 2)),
        ]),
        Expr::Bond(BondOrder::Double),
        Expr::Atom(Atom::new(7, 0, 0, Chiral::Unspecified, 3)),
        Expr::Connect(1),
    ];
    assert_eq!(got, want);
}

#[test]
fn parse_of_no_tokens_is_empty() {
    assert_eq!(parse(""), vec![]);
    assert_eq!(Parser::new(vec![]).parse().unwrap(), vec![]);
}

#[test]
fn each_bond_symbol_gives_its_order() {
    let got = parse("-=:#@\\/");
    let want = vec![
        Expr::Bond(BondOrder::Single),
        Expr::Bond(BondOrder::Double),
        Expr::Bond(BondOrder::Aromatic),
        Expr::Bond(BondOrder::Triple),
        Expr::Bond(BondOrder::Ring),
        Expr::Bond(BondOrder::Down),
        Expr::Bond(BondOrder::Up),
    ];
    assert_eq!(got, want);
}

#[test]
fn bond_orders_write_their_symbols() {
    assert_eq!(BondOrder::Single.symbol(), '-');
    assert_eq!(BondOrder::Double.symbol(), '=');
    assert_eq!(BondOrder::Triple.symbol(), '#');
    assert_eq!(BondOrder::Aromatic.symbol(), ':');
    assert_eq!(BondOrder::Ring.symbol(), '@');
    assert_eq!(BondOrder::Up.symbol(), '/');
    assert_eq!(BondOrder::Down.symbol(), '\\');
}

#[test]
fn groupings_nest() {
    let got = parse("(-(=)12)");
    let want = vec![Expr::Grouping(vec![
        Expr::Bond(BondOrder::Single),
        Expr::Grouping(vec![Expr::Bond(BondOrder::Double)]),
        Expr::Connect(12),
    ])];
    assert_eq!(got, want);
}

#[test]
fn number_and_index_alone_leave_the_defaults() {
    let atom = atom_of("[#6:1]");
    assert_eq!(atom.atomic_number, 6);
    assert_eq!(atom.mol_index, 1);
    assert_eq!(atom.n_hydrogens, 0);
    assert_eq!(atom.charge, 0);
    assert_eq!(atom.chirality, Chiral::Unspecified);
    assert_eq!(atom_of("[:1#6]"), atom);
}

#[test]
fn an_empty_atom_has_every_default() {
    assert_eq!(atom_of("[]"), Atom::new(0, 0, 0, Chiral::Unspecified, 0));
    assert_eq!(Chiral::default(), Chiral::Unspecified);
    assert_eq!(BondOrder::default(), BondOrder::Single);
}

#[test]
fn atoms_hold_hydrogen_count_and_charge() {
    assert_eq!(atom_of("[#7H2+:4]"), Atom::new(7, 2, 1, Chiral::Unspecified, 4));
    assert_eq!(atom_of("[#7H+3:4]"), Atom::new(7, 1, 3, Chiral::Unspecified, 4));
    assert_eq!(atom_of("[#8-:2]"), Atom::new(8, 0, -1, Chiral::Unspecified, 2));
    assert_eq!(atom_of("[#8-2:12]"), Atom::new(8, 0, -2, Chiral::Unspecified, 12));
    assert_eq!(atom_of("[#8-H:2]"), Atom::new(8, 1, -1, Chiral::Unspecified, 2));
}

#[test]
fn a_later_field_replaces_an_earlier_one() {
    assert_eq!(atom_of("[#6#7H2H3+-:1:2]"), Atom::new(7, 3, -1, Chiral::Unspecified, 2));
}

#[test]
fn one_at_sign_is_anticlockwise_and_two_are_clockwise() {
    assert_eq!(atom_of("[#6@H:1]"), Atom::new(6, 1, 0, Chiral::Acw, 1));
    assert_eq!(atom_of("[#6@@H:1]"), Atom::new(6, 1, 0, Chiral::Cw, 1));
    assert_eq!(atom_of("[#6@@@:1]"), Atom::new(6, 0, 0, Chiral::Acw, 1));
    assert_eq!(atom_of("[#6@H@@:1]"), Atom::new(6, 1, 0, Chiral::Cw, 1));
}

#[test]
fn the_largest_charges_are_parsed() {
    let most = isize::MAX as usize;
    let tokens = vec![Token::LBrack, Token::Plus(most), Token::RBrack, Token::End];
    assert_eq!(
        Parser::new(tokens).parse().unwrap(),
        vec![Expr::Atom(Atom::new(0, 0, isize::MAX, Chiral::Unspecified, 0))]
    );
    let tokens = vec![Token::LBrack, Token::Dash, Token::Digit(most), Token::RBrack, Token::End];
    assert_eq!(
        Parser::new(tokens).parse().unwrap(),
        vec![Expr::Atom(Atom::new(0, 0, -isize::MAX, Chiral::Unspecified, 0))]
    );
}

#[test]
fn a_charge_that_is_too_large_is_rejected() {
    let over = isize::MAX as usize + 1;
    let tokens = vec![Token::LBrack, Token::Plus(over), Token::RBrack, Token::End];
    let e = Parser::new(tokens.clone()).parse().unwrap_err();
    assert_eq!(e.kind, ParseErrorKind::ChargeOutOfRange);
    assert_eq!(e.token, Token::Plus(over));
    assert_eq!(e.position, 2);
    assert_eq!(e.context, tokens);
    let tokens = vec![Token::LBrack, Token::Dash, Token::Digit(over), Token::RBrack, Token::End];
    let e = Parser::new(tokens.clone()).parse().unwrap_err();
    assert_eq!(e.kind, ParseErrorKind::ChargeOutOfRange);
    assert_eq!(e.token, Token::Digit(over));
    assert_eq!(e.position, 3);
    assert_eq!(e.context, tokens);
}

#[test]
fn an_atom_that_the_input_ends_in_is_rejected() {
    let tokens = scan("[#6:1".to_owned()).unwrap();
    let e = Parser::new(tokens.clone()).parse().unwrap_err();
    assert_eq!(e.kind, ParseErrorKind::UnterminatedAtom);
    assert_eq!(e.token, Token::End);
    assert_eq!(e.position, 4);
    assert_eq!(e.context, tokens);
    let e = Parser::new(scan("[#6:".to_owned()).unwrap()).parse().unwrap_err();
    assert_eq!(e.kind, ParseErrorKind::UnterminatedAtom);
    assert_eq!(e.position, 3);
    let e = Parser::new(vec![Token::LBrack]).parse().unwrap_err();
    assert_eq!(e.kind, ParseErrorKind::UnterminatedAtom);
    assert_eq!(e.token, Token::End);
    assert_eq!(e.position, 1);
    assert_eq!(e.context, vec![Token::LBrack]);
}

#[test]
fn a_token_that_is_no_atom_field_is_rejected() {
    let e = Parser::new(scan("[#6(:1]".to_owned()).unwrap()).parse().unwrap_err();
    assert_eq!(e.kind, ParseErrorKind::UnknownAtomComponent);
    assert_eq!(e.token, Token::LParen);
    assert_eq!(e.position, 3);
    let e = Parser::new(scan("[#6=]".to_owned()).unwrap()).parse().unwrap_err();
    assert_eq!(e.kind, ParseErrorKind::UnknownAtomComponent);
    assert_eq!(e.token, Token::DoubleBond);
    let e = Parser::new(scan("[6]".to_owned()).unwrap()).parse().unwrap_err();
    assert_eq!(e.kind, ParseErrorKind::UnknownAtomComponent);
    assert_eq!(e.token, Token::Digit(6));
    assert_eq!(e.position, 2);
}

#[test]
fn a_label_separator_without_an_index_is_rejected() {
    let tokens = scan("[#6:]".to_owned()).unwrap();
    let e = Parser::new(tokens.clone()).parse().unwrap_err();
    assert_eq!(e.kind, ParseErrorKind::UnknownAtomComponent);
    assert_eq!(e.token, Token::RBrack);
    assert_eq!(e.position, 4);
    assert_eq!(e.context, tokens);
}

#[test]
fn a_token_that_writes_no_bond_is_rejected() {
    let e = Parser::new(scan("[#6:1]]".to_owned()).unwrap()).parse().unwrap_err();
    assert_eq!(e.kind, ParseErrorKind::UnknownBondComponent);
    assert_eq!(e.token, Token::RBrack);
    assert_eq!(e.position, 6);
    let e = Parser::new(scan("H2".to_owned()).unwrap()).parse().unwrap_err();
    assert_eq!(e.kind, ParseErrorKind::UnknownBondComponent);
    assert_eq!(e.token, Token::HCount(2));
    assert_eq!(e.position, 1);
    let e = Parser::new(scan("(#6)".to_owned()).unwrap()).parse().unwrap_err();
    assert_eq!(e.kind, ParseErrorKind::UnknownBondComponent);
    assert_eq!(e.token, Token::Atom(6));
    let e = Parser::new(scan("+".to_owned()).unwrap()).parse().unwrap_err();
    assert_eq!(e.kind, ParseErrorKind::UnknownBondComponent);
    assert_eq!(e.token, Token::Plus(1));
}

#[test]
fn an_error_holds_the_tokens_within_five_places() {
    let s = "[#6:1]-[#6:2]-[#6:3]+[#6:4]-[#6:5]";
    let tokens = scan(s.to_owned()).unwrap();
    let e = Parser::new(tokens.clone()).parse().unwrap_err();
    assert_eq!(e.kind, ParseErrorKind::UnknownBondComponent);
    assert_eq!(e.token, Token::Plus(1));
    assert_eq!(e.position, 18);
    assert_eq!(e.context, tokens[13..23].to_vec());
    assert_eq!(e.context.len(), 10);
}

#[test]
fn a_grouping_that_the_input_ends_in_is_closed_by_the_end() {
    let want = vec![Expr::Grouping(vec![Expr::Atom(Atom::new(6, 0, 0, Chiral::Unspecified, 1))])];
    assert_eq!(parse("([#6:1]"), want);
    assert_eq!(parse("([#6:1])"), want);
}

#[test]
fn parse_stops_at_a_parenthesis_that_closes_no_grouping() {
    let want = vec![Expr::Atom(Atom::new(6, 0, 0, Chiral::Unspecified, 1))];
    assert_eq!(parse("[#6:1])-[#7:2]"), want);
}

#[test]
fn tokens_without_an_end_token_are_parsed_to_their_end() {
    let tokens = vec![Token::LBrack, Token::Atom(6), Token::RBrack, Token::Dash];
    let want = vec![
        Expr::Atom(Atom::new(6, 0, 0, Chiral::Unspecified, 0)),
        Expr::Bond(BondOrder::Single),
    ];
    assert_eq!(Parser::new(tokens).parse().unwrap(), want);
}

#[test]
fn parse_stops_at_the_first_end_token() {
    let tokens = vec![Token::Dash, Token::End, Token::DoubleBond, Token::End];
    assert_eq!(Parser::new(tokens).parse().unwrap(), vec![Expr::Bond(BondOrder::Single)]);
}
