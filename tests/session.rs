use wayline::{Wayline, Entry, Message, Session, Table};

fn table(name: &str, roll: &str, rows: &[(&str, &[u32])]) -> Table {
    Table {
        name: name.to_string(),
        roll: roll.to_string(),
        rows: rows.iter().map(|(n, ns)| Entry { name: n.to_string(), numbers: ns.to_vec() }).collect(),
    }
}

fn lines(v: Vec<String>) -> Vec<String> {
    v
}

#[test]
fn later_tables_replace_earlier_ones_with_the_same_key() {
    let mut s = Session::new();
    s.load_all(vec![
        table("Caves", "1d6", &[("Bats", &[1])]),
        table("Ruins", "1d4", &[]),
        table("CAVES", "2d6", &[("Trolls", &[2])]),
    ]);
    assert_eq!(s.tables.len(), 2);
    assert_eq!(s.tables[0].name, "CAVES");
    assert_eq!(s.tables[0].roll, "2d6");
    assert_eq!(s.tables[1].name, "Ruins");
    assert_eq!(s.keys(), vec!["caves".to_string(), "ruins".to_string()]);
}

#[test]
fn start_reports_tables_and_selects_the_first() {
    let mut s = Session::new();
    let out = s.start(Some(Ok(vec![table("Wild Caves", "1d1", &[("Bats", &[1])]), table("Ruins", "1d4", &[])])));
    assert_eq!(out, vec!["Loaded tables: wild caves, ruins".to_string(), "Current table set to 'wild caves'.".to_string()]);
    assert_eq!(s.current_table.as_deref(), Some("wild caves"));
    let mut t = Session::new();
    assert_eq!(t.start(None), vec!["No tables found.".to_string()]);
    assert_eq!(t.start(Some(Ok(vec![]))), vec!["Loaded tables: ".to_string()]);
    assert!(t.current_table.is_none());
}

#[test]
fn roll_reports_value_and_entry() {
    let mut s = Session::new();
    s.start(Some(Ok(vec![table("Wild Caves", "1d1", &[("Bats", &[1])]), table("Ruins", "2d1", &[("Ghost", &[1])])])));
    let out = lines(s.execute("roll"));
    assert_eq!(out, vec!["> roll".to_string(), "wild caves -> (1): rolled: Bats".to_string()]);
    let out = s.execute("roll Ruins");
    assert_eq!(out[1], "ruins -> (2): no matching entry found.");
    let out = s.execute("roll swamp");
    assert_eq!(out[1], "Table 'swamp' not found.");
    let mut empty = Session::new();
    assert_eq!(empty.execute("roll")[1], "No table selected.");
}

#[test]
fn use_switches_only_to_loaded_tables() {
    let mut s = Session::new();
    s.load_all(vec![table("Caves", "1d6", &[]), table("Ruins", "1d4", &[])]);
    assert_eq!(s.execute("use ruins")[1], "Switched to table 'ruins'.");
    assert_eq!(s.current_table.as_deref(), Some("ruins"));
    assert_eq!(s.execute("use swamp")[1], "Table 'swamp' not found.");
    assert_eq!(s.current_table.as_deref(), Some("ruins"));
    assert_eq!(s.table().map(|t| t.name.as_str()), Some("Ruins"));
}

#[test]
fn list_shows_a_table_or_the_keys() {
    let mut s = Session::new();
    assert_eq!(s.execute("list")[1], "No tables loaded.");
    s.load_all(vec![table("Caves", "2d6", &[("Bats", &[2, 3]), ("Trolls", &[12])]), table("Ruins", "1d4", &[])]);
    assert_eq!(s.execute("list"), vec!["> list", "Loaded tables:", "- caves", "- ruins"]);
    assert_eq!(
        s.execute("list caves"),
        vec!["> list caves", "Table: Caves", "Dice: 2d6", "- Bats: [2, 3]", "- Trolls: [12]"]
    );
    assert_eq!(s.execute("list swamp")[1], "Table 'swamp' not found.");
    s.execute("use ruins");
    assert_eq!(s.execute("list"), vec!["> list", "Table: Ruins", "Dice: 1d4"]);
}

#[test]
fn clock_advances_and_formats() {
    let mut s = Session::new();
    assert_eq!(s.execute("time")[1], "Current in-game time: 00:00");
    assert_eq!(s.execute("add 65")[1], "Added 65 minutes. New time: 01:05");
    assert_eq!(s.execute("add 600")[1], "Added 600 minutes. New time: 11:05");
    assert_eq!(s.current_time_minutes, 665);
    assert_eq!(s.execute("add 6000")[1], "Added 6000 minutes. New time: 111:05");
}

#[test]
fn clock_stops_at_its_largest_reading() {
    let mut s = Session::new();
    s.execute("add 4294967295");
    s.execute("add 10");
    assert_eq!(s.current_time_minutes, u32::MAX);
}

#[test]
fn dice_command_reports_sum_or_error() {
    let mut s = Session::new();
    assert_eq!(s.execute("dice 4d1")[1], "Rolled 4d1: 4");
    assert_eq!(s.execute("dice 2x6")[1], "Invalid dice notation: 2x6");
    assert_eq!(s.execute("dice 2d0")[1], "Dice need at least one side: 2d0");
    assert_eq!(s.execute("dice 65536d65536")[1], "Dice total too large: 65536d65536");
}

#[test]
fn help_and_unknown_are_reported() {
    let mut s = Session::new();
    let out = s.execute("help");
    assert_eq!(out[1], "Available commands:");
    assert_eq!(out.len(), 9);
    assert_eq!(s.execute("dance")[1], "Unknown command: dance");
    assert_eq!(s.execute("")[0], "> ");
}

#[test]
fn wayline_runs_typed_lines() {
    let mut c = Wayline::new();
    assert!(c.update(Message::WindowOpened));
    c.tables_read(Some(Ok(vec![table("Caves", "1d1", &[("Bats", &[1])])])));
    assert!(!c.update(Message::ContentChanged("roll".to_string())));
    assert_eq!(c.input, "roll");
    assert!(!c.update(Message::EnterPressed));
    assert_eq!(c.input, "");
    assert_eq!(
        c.scrollback,
        vec![
            "Wayline started.",
            "Loaded tables: caves",
            "Current table set to 'caves'.",
            "> roll",
            "caves -> (1): rolled: Bats",
        ]
    );
    assert!(!c.update(Message::Noop));
    assert!(!c.update(Message::WindowClosed));
    assert_eq!(c.scrollback.len(), 5);
}

#[test]
fn wayline_loads_tables_and_finds_the_active_one() {
    let mut w = Wayline::new();
    w.load_all(vec![table("Caves", "1d6", &[])]);
    assert!(w.table().is_none());
    w.update(Message::ContentChanged("use CAVES".to_string()));
    w.update(Message::EnterPressed);
    assert_eq!(w.table().map(|t| t.name.as_str()), Some("Caves"));
}

#[test]
fn a_table_file_that_fails_to_load_is_reported_and_changes_nothing() {
    let mut s = Session::new();
    s.load_all(vec![table("Caves", "1d6", &[])]);
    let out = s.start(Some(Err("missing field `roll`".to_string())));
    assert_eq!(out, vec!["Failed to load tables: missing field `roll`".to_string()]);
    assert_eq!(s.tables.len(), 1);
    assert!(s.current_table.is_none());
}
