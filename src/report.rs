use vstd::prelude::*;

use crate::dice::DiceError;
use crate::table::{Entry, Table};
use crate::text::{cat, decimal, decimal_of, join_from, joined_by, two_digits, two_digits_of, views};

verus! {

/// The echo of a typed line.
pub open spec fn echo_line(input: Seq<char>) -> Seq<char> {
    "> "@ + input
}

/// The line that reports a roll of `value` on the table with key `key`.
pub open spec fn roll_line(key: Seq<char>, value: u32, entry: Option<&Entry>) -> Seq<char> {
    match entry {
        Some(e) => key + " -> ("@ + decimal_of(value as nat) + "): rolled: "@ + e.name@,
        None => key + " -> ("@ + decimal_of(value as nat) + "): no matching entry found."@,
    }
}

/// The line that reports a missing table.
pub open spec fn not_found_line(name: Seq<char>) -> Seq<char> {
    "Table '"@ + name + "' not found."@
}

/// The line that reports a change of the active table.
pub open spec fn switched_line(name: Seq<char>) -> Seq<char> {
    "Switched to table '"@ + name + "'."@
}

/// The line that reports a dice roll, or why the notation could not be rolled.
pub open spec fn dice_line(dice: Seq<char>, r: Result<u32, DiceError>) -> Seq<char> {
    match r {
        Ok(v) => "Rolled "@ + dice + ": "@ + decimal_of(v as nat),
        Err(DiceError::Malformed) => "Invalid dice notation: "@ + dice,
        Err(DiceError::InvalidSides) => "Dice need at least one side: "@ + dice,
        Err(DiceError::TooLarge) => "Dice total too large: "@ + dice,
    }
}

/// A number of minutes as a clock reading `HH:MM`.
pub open spec fn clock_of(minutes: nat) -> Seq<char> {
    two_digits_of(minutes / 60) + ":"@ + two_digits_of(minutes % 60)
}

/// The line that shows the in-game clock.
pub open spec fn time_line(minutes: nat) -> Seq<char> {
    "Current in-game time: "@ + clock_of(minutes)
}

/// The line that reports minutes added to the clock, and the new reading.
pub open spec fn added_line(added: nat, minutes: nat) -> Seq<char> {
    "Added "@ + decimal_of(added) + " minutes. New time: "@ + clock_of(minutes)
}

/// The line that reports text that is no command.
pub open spec fn unknown_line(text: Seq<char>) -> Seq<char> {
    "Unknown command: "@ + text
}

/// The decimal numerals of `ns`, in order.
pub open spec fn decimals(ns: Seq<u32>) -> Seq<Seq<char>> {
    ns.map_values(|n: u32| decimal_of(n as nat))
}

/// A list of numbers written `[a, b, c]`.
pub open spec fn numbers_text(ns: Seq<u32>) -> Seq<char> {
    "["@ + joined_by(", "@, decimals(ns)) + "]"@
}

/// The line that lists one entry and the numbers it claims.
pub open spec fn entry_line(e: Entry) -> Seq<char> {
    "- "@ + e.name@ + ": "@ + numbers_text(e.numbers@)
}

/// The lines that list each entry of `rows`, in order.
pub open spec fn entry_lines(rows: Seq<Entry>) -> Seq<Seq<char>> {
    rows.map_values(|e: Entry| entry_line(e))
}

/// The lines that list a table: its name, its dice, and each entry in order.
pub open spec fn table_lines(t: Table) -> Seq<Seq<char>> {
    seq!["Table: "@ + t.name@, "Dice: "@ + t.roll@] + entry_lines(t.rows@)
}

/// The lines of the help text.
pub open spec fn help_lines() -> Seq<Seq<char>> {
    seq![
        "Available commands:"@,
        "- roll [table] : Roll on the named or the active table"@,
        "- dice <notation> : Roll custom dice (e.g., '2d6')"@,
        "- list [table] : List the named or the active table, or all tables"@,
        "- use <table> : Make a table the active one"@,
        "- time : Show current in-game time"@,
        "- add <minutes> : Add minutes to in-game time"@,
        "- help : Show this help message"@,
    ]
}

/// The echo of a typed line.
pub fn echo(input: &str) -> (r: String)
    ensures
        r@ == echo_line(input@),
{
    cat("> ", input)
}

/// The line that reports a roll of `value` on the table with key `key`.
pub fn roll_report(key: &str, value: u32, entry: Option<&Entry>) -> (r: String)
    ensures
        r@ == roll_line(key@, value, entry),
{
    let mut r = cat(key, " -> (");
    r.append(decimal(value).as_str());
    match entry {
        Some(e) => {
            r.append("): rolled: ");
            r.append(e.name.as_str());
        },
        None => {
            r.append("): no matching entry found.");
        },
    }
    r
}

/// The line that reports a missing table.
pub fn not_found(name: &str) -> (r: String)
    ensures
        r@ == not_found_line(name@),
{
    let mut r = cat("Table '", name);
    r.append("' not found.");
    r
}

/// The line that reports a change of the active table.
pub fn switched(name: &str) -> (r: String)
    ensures
        r@ == switched_line(name@),
{
    let mut r = cat("Switched to table '", name);
    r.append("'.");
    r
}

/// The line that reports the outcome `result` of rolling `dice`.
pub fn dice_report(dice: &str, result: Result<u32, DiceError>) -> (r: String)
    ensures
        r@ == dice_line(dice@, result),
{
    match result {
        Ok(v) => {
            let mut r = cat("Rolled ", dice);
            r.append(": ");
            r.append(decimal(v).as_str());
            r
        },
        Err(DiceError::Malformed) => cat("Invalid dice notation: ", dice),
        Err(DiceError::InvalidSides) => cat("Dice need at least one side: ", dice),
        Err(DiceError::TooLarge) => cat("Dice total too large: ", dice),
    }
}

/// A number of minutes as a clock reading `HH:MM`.
pub fn clock(minutes: u32) -> (r: String)
    ensures
        r@ == clock_of(minutes as nat),
{
    let mut r = two_digits(minutes / 60);
    r.append(":");
    r.append(two_digits(minutes % 60).as_str());
    r
}

/// The line that shows the in-game clock.
pub fn time_report(minutes: u32) -> (r: String)
    ensures
        r@ == time_line(minutes as nat),
{
    cat("Current in-game time: ", clock(minutes).as_str())
}

/// The line that reports `added` minutes added, with the clock at `minutes`.
pub fn added_report(added: u32, minutes: u32) -> (r: String)
    ensures
        r@ == added_line(added as nat, minutes as nat),
{
    let mut r = cat("Added ", decimal(added).as_str());
    r.append(" minutes. New time: ");
    r.append(clock(minutes).as_str());
    r
}

/// The line that reports text that is no command.
pub fn unknown_report(text: &str) -> (r: String)
    ensures
        r@ == unknown_line(text@),
{
    cat("Unknown command: ", text)
}

/// A list of numbers written `[a, b, c]`.
pub fn numbers_report(ns: &Vec<u32>) -> (r: String)
    ensures
        r@ == numbers_text(ns@),
{
    let mut parts: Vec<String> = Vec::new();
    let mut i: usize = 0;
    while i < ns.len()
        invariant
            i <= ns.len(),
            views(parts@) =~= decimals(ns@.subrange(0, i as int)),
        decreases ns.len() - i,
    {
        let ghost prev = parts@;
        parts.push(decimal(ns[i]));
        proof {
            assert(views(parts@) =~= views(prev).push(decimal_of(ns@[i as int] as nat)));
            assert(decimals(ns@.subrange(0, i + 1)) =~= decimals(ns@.subrange(0, i as int)).push(
                decimal_of(ns@[i as int] as nat),
            ));
        }
        i = i + 1;
    }
    assert(ns@.subrange(0, i as int) =~= ns@);
    assert(views(parts@).subrange(0, parts@.len() as int) =~= views(parts@));
    let mut r = cat("[", join_from(&parts, 0, ", ").as_str());
    r.append("]");
    r
}

/// The line that lists one entry and the numbers it claims.
pub fn entry_report(e: &Entry) -> (r: String)
    ensures
        r@ == entry_line(*e),
{
    let mut r = cat("- ", e.name.as_str());
    r.append(": ");
    r.append(numbers_report(&e.numbers).as_str());
    r
}

/// The lines that list a table: its name, its dice, and each entry in order.
pub fn table_report(t: &Table) -> (r: Vec<String>)
    ensures
        views(r@) == table_lines(*t),
{
    let mut r: Vec<String> = Vec::new();
    r.push(cat("Table: ", t.name.as_str()));
    r.push(cat("Dice: ", t.roll.as_str()));
    let mut i: usize = 0;
    while i < t.rows.len()
        invariant
            i <= t.rows.len(),
            views(r@) =~= seq!["Table: "@ + t.name@, "Dice: "@ + t.roll@] + entry_lines(
                t.rows@.subrange(0, i as int),
            ),
        decreases t.rows.len() - i,
    {
        let ghost prev = r@;
        r.push(entry_report(&t.rows[i]));
        proof {
            assert(views(r@) =~= views(prev).push(entry_line(t.rows@[i as int])));
            assert(entry_lines(t.rows@.subrange(0, i + 1)) =~= entry_lines(
                t.rows@.subrange(0, i as int),
            ).push(entry_line(t.rows@[i as int])));
        }
        i = i + 1;
    }
    assert(t.rows@.subrange(0, i as int) =~= t.rows@);
    r
}

/// The lines of the help text.
pub fn help_report() -> (r: Vec<String>)
    ensures
        views(r@) == help_lines(),
{
    let mut r: Vec<String> = Vec::new();
    r.push(String::from_str("Available commands:"));
    r.push(String::from_str("- roll [table] : Roll on the named or the active table"));
    r.push(String::from_str("- dice <notation> : Roll custom dice (e.g., '2d6')"));
    r.push(
        String::from_str("- list [table] : List the named or the active table, or all tables"),
    );
    r.push(String::from_str("- use <table> : Make a table the active one"));
    r.push(String::from_str("- time : Show current in-game time"));
    r.push(String::from_str("- add <minutes> : Add minutes to in-game time"));
    r.push(String::from_str("- help : Show this help message"));
    assert(views(r@) =~= help_lines());
    r
}

} // verus!
