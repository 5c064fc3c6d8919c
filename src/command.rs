use vstd::prelude::*;

use crate::text::{
    join_from, joined, lower_of, lowercase, parse_unsigned, split_words, trim_white, trimmed,
    unsigned_of, views, words,
};

verus! {

/// One instruction typed by the user.
#[derive(Debug, Clone, PartialEq)]
pub enum Command {
    /// Roll on the named table, or on the active one.
    RollTable(Option<String>),
    /// Roll the given dice notation.
    RollDice(String),
    /// List the named table, or the active one.
    List(Option<String>),
    /// Show the in-game clock.
    Time,
    /// Advance the in-game clock by this many minutes.
    Add(u32),
    /// Make the named table the active one.
    Use(String),
    /// Show the list of commands.
    Help,
    /// Text that is no command, kept as typed (without surrounding white space).
    Unknown(String),
}

/// A command with its text arguments as character sequences.
pub enum CommandView {
    RollTable(Option<Seq<char>>),
    RollDice(Seq<char>),
    List(Option<Seq<char>>),
    Time,
    Add(u32),
    Use(Seq<char>),
    Help,
    Unknown(Seq<char>),
}

impl View for Command {
    type V = CommandView;

    open spec fn view(&self) -> CommandView {
        match self {
            Command::RollTable(t) => CommandView::RollTable(
                match t {
                    Some(s) => Some(s@),
                    None => None,
                },
            ),
            Command::RollDice(d) => CommandView::RollDice(d@),
            Command::List(t) => CommandView::List(
                match t {
                    Some(s) => Some(s@),
                    None => None,
                },
            ),
            Command::Time => CommandView::Time,
            Command::Add(n) => CommandView::Add(*n),
            Command::Use(s) => CommandView::Use(s@),
            Command::Help => CommandView::Help,
            Command::Unknown(s) => CommandView::Unknown(s@),
        }
    }
}

/// The command that `input`, split into the words `ws`, stands for, given the
/// lowercase form `key` of its first word and the lowercase form `target` of
/// its remaining words joined by single spaces.
/// `time` and `help` ignore any words after them.
pub open spec fn classified(
    input: Seq<char>,
    ws: Seq<Seq<char>>,
    key: Seq<char>,
    target: Seq<char>,
) -> CommandView {
    let unknown = CommandView::Unknown(trimmed(input));
    if ws.len() == 0 {
        CommandView::Unknown(input)
    } else if key == "roll"@ {
        CommandView::RollTable(if ws.len() == 1 { None } else { Some(target) })
    } else if key == "list"@ {
        CommandView::List(if ws.len() == 1 { None } else { Some(target) })
    } else if key == "time"@ {
        CommandView::Time
    } else if key == "use"@ {
        if ws.len() >= 2 { CommandView::Use(target) } else { unknown }
    } else if key == "dice"@ {
        if ws.len() == 2 { CommandView::RollDice(ws[1]) } else { unknown }
    } else if key == "add"@ {
        if ws.len() == 2 && unsigned_of(ws[1]) is Some {
            CommandView::Add(unsigned_of(ws[1])->0)
        } else {
            unknown
        }
    } else if key == "help"@ {
        CommandView::Help
    } else {
        unknown
    }
}

/// The command that the line `input` stands for.
pub open spec fn command_of(input: Seq<char>) -> CommandView {
    let ws = words(input);
    if ws.len() == 0 {
        CommandView::Unknown(input)
    } else {
        classified(input, ws, lower_of(ws[0]), lower_of(joined(ws.subrange(1, ws.len() as int))))
    }
}

/// Whether two texts hold the same characters.
fn same_text(a: &str, b: &str) -> (r: bool)
    ensures
        r == (a@ == b@),
{
    a.to_owned() == b.to_owned()
}

/// Builds the command for `input` from its words `parts`, the lowercase form
/// `keyword` of the first word, and the lowercase form `target` of the other
/// words joined by single spaces.
pub fn classify(input: &str, parts: &Vec<String>, keyword: &str, target: &str) -> (c: Command)
    ensures
        c@ == classified(input@, views(parts@), keyword@, target@),
{
    proof {
        reveal_strlit("roll");
        reveal_strlit("list");
        reveal_strlit("time");
        reveal_strlit("use");
        reveal_strlit("dice");
        reveal_strlit("add");
        reveal_strlit("help");
    }
    if parts.len() == 0 {
        return Command::Unknown(input.to_owned());
    }
    assert(views(parts@)[0] == parts@[0]@);
    if same_text(keyword, "roll") {
        if parts.len() == 1 {
            Command::RollTable(None)
        } else {
            Command::RollTable(Some(target.to_owned()))
        }
    } else if same_text(keyword, "list") {
        if parts.len() == 1 {
            Command::List(None)
        } else {
            Command::List(Some(target.to_owned()))
        }
    } else if same_text(keyword, "time") {
        Command::Time
    } else if same_text(keyword, "use") {
        if parts.len() >= 2 {
            Command::Use(target.to_owned())
        } else {
            Command::Unknown(trim_white(input).to_owned())
        }
    } else if same_text(keyword, "dice") {
        if parts.len() == 2 {
            assert(views(parts@)[1] == parts@[1]@);
            Command::RollDice(parts[1].clone())
        } else {
            Command::Unknown(trim_white(input).to_owned())
        }
    } else if same_text(keyword, "add") {
        if parts.len() == 2 {
            assert(views(parts@)[1] == parts@[1]@);
            match parse_unsigned(parts[1].as_str()) {
                Some(minutes) => Command::Add(minutes),
                None => Command::Unknown(trim_white(input).to_owned()),
            }
        } else {
            Command::Unknown(trim_white(input).to_owned())
        }
    } else if same_text(keyword, "help") {
        Command::Help
    } else {
        Command::Unknown(trim_white(input).to_owned())
    }
}

/// Parses one line of user input into a command. Never fails: text that is no
/// command becomes `Unknown`.
pub fn parse_command(input: &str) -> (c: Command)
    ensures
        c@ == command_of(input@),
{
    let parts = split_words(input);
    if parts.len() == 0 {
        return Command::Unknown(input.to_owned());
    }
    assert(views(parts@)[0] == parts@[0]@);
    let keyword = lowercase(parts[0].as_str());
    let rest = join_from(&parts, 1, " ");
    proof {
        reveal_strlit(" ");
        assert(" "@ =~= seq![' ']);
    }
    let target = lowercase(rest.as_str());
    classify(input, &parts, keyword.as_str(), target.as_str())
}

/// Parsing depends on the input text alone: parsing equal texts, or the same
/// text twice, gives equal commands.
pub proof fn lemma_parse_repeatable(a: &str, b: &str, first: Command, second: Command)
    requires
        a@ == b@,
        first@ == command_of(a@),
        second@ == command_of(b@),
    ensures
        first@ == second@,
{
}

} // verus!
