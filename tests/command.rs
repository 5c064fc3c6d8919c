use wayline::{classify, parse_command, Command};

#[test]
fn test_parse_command() {
    assert_eq!(parse_command("roll"), Command::RollTable(None));
    assert_eq!(parse_command("roll monsters"), Command::RollTable(Some("monsters".to_string())));
    assert_eq!(parse_command("list"), Command::List(None));
    assert_eq!(parse_command("time"), Command::Time);
    assert_eq!(parse_command("use treasures"), Command::Use("treasures".to_string()));
    assert_eq!(parse_command("dice 2d6"), Command::RollDice("2d6".to_string()));
    assert_eq!(parse_command("add 15"), Command::Add(15));
    assert_eq!(parse_command("help"), Command::Help);
    assert_eq!(parse_command("unknown command"), Command::Unknown("unknown command".to_string()));
}

#[test]
fn literal_inputs_give_their_commands() {
    assert_eq!(parse_command("roll"), Command::RollTable(None));
    assert_eq!(parse_command("roll wild caves"), Command::RollTable(Some("wild caves".to_string())));
    assert_eq!(parse_command("dice 2d6"), Command::RollDice("2d6".to_string()));
    assert_eq!(parse_command("dice 2d6 extra"), Command::Unknown("dice 2d6 extra".to_string()));
    assert_eq!(parse_command("add 15"), Command::Add(15));
    assert_eq!(parse_command("add abc"), Command::Unknown("add abc".to_string()));
    assert_eq!(parse_command(""), Command::Unknown("".to_string()));
}

#[test]
fn parsing_twice_gives_equal_commands() {
    for line in ["roll wild caves", "dice 2d6", "add 15", "", "  LIST  Caves ", "nonsense here"] {
        assert_eq!(parse_command(line), parse_command(line));
    }
}

#[test]
fn keyword_and_table_name_are_lowercased_dice_is_not() {
    assert_eq!(parse_command("ROLL Wild   Caves"), Command::RollTable(Some("wild caves".to_string())));
    assert_eq!(parse_command("List Dungeon"), Command::List(Some("dungeon".to_string())));
    assert_eq!(parse_command("USE Old  Ruins"), Command::Use("old ruins".to_string()));
    assert_eq!(parse_command("Dice 3D6"), Command::RollDice("3D6".to_string()));
}

#[test]
fn use_without_a_name_is_unknown() {
    assert_eq!(parse_command("use"), Command::Unknown("use".to_string()));
    assert_eq!(parse_command("  use  "), Command::Unknown("use".to_string()));
}

#[test]
fn unknown_text_is_trimmed_but_blank_input_is_kept() {
    assert_eq!(parse_command("  fly away  "), Command::Unknown("fly away".to_string()));
    assert_eq!(parse_command("   "), Command::Unknown("   ".to_string()));
}

#[test]
fn dice_and_add_need_exactly_one_argument() {
    assert_eq!(parse_command("dice"), Command::Unknown("dice".to_string()));
    assert_eq!(parse_command("add"), Command::Unknown("add".to_string()));
    assert_eq!(parse_command("add 1 2"), Command::Unknown("add 1 2".to_string()));
    assert_eq!(parse_command("add -5"), Command::Unknown("add -5".to_string()));
    assert_eq!(parse_command("add 4294967296"), Command::Unknown("add 4294967296".to_string()));
    assert_eq!(parse_command("add 4294967295"), Command::Add(4294967295));
    assert_eq!(parse_command("add +7"), Command::Add(7));
}

#[test]
fn time_and_help_ignore_trailing_words() {
    assert_eq!(parse_command("time now"), Command::Time);
    assert_eq!(parse_command("HELP me"), Command::Help);
}

#[test]
fn words_split_on_tabs_and_newlines() {
    assert_eq!(parse_command("roll\tdeep\ncaves"), Command::RollTable(Some("deep caves".to_string())));
}

#[test]
fn classify_uses_the_given_lowercase_forms() {
    let parts = vec!["Roll".to_string(), "Wild".to_string(), "Caves".to_string()];
    assert_eq!(
        classify("Roll Wild Caves", &parts, "roll", "wild caves"),
        Command::RollTable(Some("wild caves".to_string()))
    );
    let parts = vec!["add".to_string(), "x".to_string()];
    assert_eq!(classify(" add x ", &parts, "add", "x"), Command::Unknown("add x".to_string()));
    let parts: Vec<String> = vec![];
    assert_eq!(classify("  ", &parts, "", ""), Command::Unknown("  ".to_string()));
}
