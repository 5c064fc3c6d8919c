use wayline::{roll_on, Entry, Table};

fn entry(name: &str, numbers: &[u32]) -> Entry {
    Entry { name: name.to_string(), numbers: numbers.to_vec() }
}

fn table(rows: Vec<Entry>, roll: &str) -> Table {
    Table { name: "Wild Caves".to_string(), rows, roll: roll.to_string() }
}

#[test]
fn a_roll_selects_the_entry_that_claims_it() {
    let t = table(vec![entry("A", &[2, 3]), entry("B", &[4, 5]), entry("C", &[12])], "2d6");
    assert_eq!(t.find_entry(3).map(|e| e.name.as_str()), Some("A"));
    assert!(t.find_entry(7).is_none());
    assert_eq!(t.find_entry(12).map(|e| e.name.as_str()), Some("C"));
}

#[test]
fn the_first_of_overlapping_entries_wins() {
    let t = table(vec![entry("A", &[5]), entry("B", &[5])], "1d6");
    assert_eq!(t.find_entry(5).map(|e| e.name.as_str()), Some("A"));
}

#[test]
fn an_empty_table_matches_nothing() {
    let t = table(vec![], "1d6");
    assert!(t.find_entry(1).is_none());
    let (v, e) = roll_on(&t, "1d6");
    assert!((1..=6).contains(&v));
    assert!(e.is_none());
}

#[test]
fn roll_on_resolves_the_rolled_value() {
    let t = table(vec![entry("A", &[1, 2]), entry("B", &[3])], "3d1");
    let (v, e) = roll_on(&t, "3d1");
    assert_eq!(v, 3);
    assert_eq!(e.map(|e| e.name.as_str()), Some("B"));
}

#[test]
fn roll_on_with_bad_dice_resolves_zero() {
    let t = table(vec![entry("Nothing", &[0]), entry("A", &[1])], "oops");
    let (v, e) = roll_on(&t, "oops");
    assert_eq!(v, 0);
    assert_eq!(e.map(|e| e.name.as_str()), Some("Nothing"));
    let (v, e) = roll_on(&t, "2d0");
    assert_eq!(v, 0);
    assert_eq!(e.map(|e| e.name.as_str()), Some("Nothing"));
}

#[test]
fn duplicate_numbers_are_allowed() {
    let e = entry("A", &[4, 4, 9]);
    assert!(e.has_number(4));
    assert!(e.has_number(9));
    assert!(!e.has_number(5));
}
