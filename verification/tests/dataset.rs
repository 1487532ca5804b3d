use chomper::Dataset;

fn strs(v: &[&str]) -> Vec<String> {
    v.iter().map(|s| s.to_string()).collect()
}

#[test]
fn an_empty_data_set_has_no_smiles() {
    assert_eq!(Dataset::new().to_smiles(), Vec::<String>::new());
}

#[test]
fn to_smiles_gives_the_smiles_of_all_entries_in_order() {
    let mut d = Dataset::new();
    assert_eq!(d.insert("b".to_owned(), strs(&["CC", "CN"])), None);
    assert_eq!(d.insert("a".to_owned(), strs(&[])), None);
    assert_eq!(d.insert("c".to_owned(), strs(&["CC", "O"])), None);
    assert_eq!(d.to_smiles(), strs(&["CC", "CN", "CC", "O"]));
}

#[test]
fn insert_replaces_the_smiles_of_a_key_in_its_place() {
    let mut d = Dataset::new();
    d.insert("x".to_owned(), strs(&["C"]));
    d.insert("y".to_owned(), strs(&["N"]));
    d.insert("z".to_owned(), strs(&["O"]));
    assert_eq!(d.insert("x".to_owned(), strs(&["F", "Cl"])), Some(strs(&["C"])));
    assert_eq!(d.insert("z".to_owned(), strs(&["Br"])), Some(strs(&["O"])));
    assert_eq!(d.to_smiles(), strs(&["F", "Cl", "N", "Br"]));
}
