use vstd::prelude::*;

use crate::api::{is_roll_outcome, roll_on};
use crate::command::{parse_command, command_of, Command, CommandView};
use crate::dice::{evaluate, is_dice_outcome, DiceError};
use crate::report::{
    added_line, added_report, dice_line, dice_report, echo, echo_line, help_lines, help_report,
    not_found, not_found_line, roll_line, roll_report, switched, switched_line, table_lines,
    table_report, time_line, time_report, unknown_line, unknown_report,
};
use crate::table::{Entry, Table};
use crate::text::{cat, join_from, joined_by, lower_of, lowercase, views};

verus! {

/// The lookup key of a table: its name in lowercase.
pub open spec fn key_of(t: Table) -> Seq<char> {
    lower_of(t.name@)
}

/// Position `i` of `ts` holds the table with key `k`.
pub open spec fn holds_key(ts: Seq<Table>, k: Seq<char>, i: int) -> bool {
    0 <= i < ts.len() && key_of(ts[i]) == k
}

/// No two tables of `ts` share a key.
pub open spec fn keys_unique(ts: Seq<Table>) -> bool {
    forall|i: int, j: int|
        0 <= i < ts.len() && 0 <= j < ts.len() && i != j ==> key_of(#[trigger] ts[i]) != key_of(
            #[trigger] ts[j],
        )
}

/// Where `ts` holds the table with key `k`, if anywhere.
pub open spec fn position(ts: Seq<Table>, k: Seq<char>) -> Option<int> {
    if exists|i: int| holds_key(ts, k, i) {
        Some(choose|i: int| holds_key(ts, k, i))
    } else {
        None
    }
}

/// The tables `ts` after adding `t`: it replaces the table with its key, in
/// that table's place, or else comes last.
pub open spec fn inserted(ts: Seq<Table>, t: Table) -> Seq<Table> {
    match position(ts, key_of(t)) {
        Some(i) => ts.update(i, t),
        None => ts.push(t),
    }
}

/// The tables `ts` after adding each of `new` in order; of tables that share
/// a key, the one added last stays.
pub open spec fn loaded(ts: Seq<Table>, new: Seq<Table>) -> Seq<Table>
    decreases new.len(),
{
    if new.len() == 0 {
        ts
    } else {
        inserted(loaded(ts, new.drop_last()), new.last())
    }
}

/// With unique keys, the table with a given key has one position.
pub proof fn lemma_position_unique(ts: Seq<Table>, k: Seq<char>, i: int)
    requires
        keys_unique(ts),
        holds_key(ts, k, i),
    ensures
        position(ts, k) == Some(i),
{
    let c = choose|c: int| holds_key(ts, k, c);
    if c != i {
        assert(key_of(ts[c]) != key_of(ts[i]));
    }
}

/// Adding a table keeps the keys unique.
pub proof fn lemma_inserted_unique(ts: Seq<Table>, t: Table)
    requires
        keys_unique(ts),
    ensures
        keys_unique(inserted(ts, t)),
{
    let r = inserted(ts, t);
    match position(ts, key_of(t)) {
        Some(p) => {
            assert forall|i: int, j: int|
                0 <= i < r.len() && 0 <= j < r.len() && i != j implies key_of(#[trigger] r[i])
                != key_of(#[trigger] r[j]) by {
                if i != p && j != p {
                    assert(key_of(ts[i]) != key_of(ts[j]));
                } else if i == p {
                    assert(key_of(ts[j]) != key_of(ts[p]));
                } else {
                    assert(key_of(ts[i]) != key_of(ts[p]));
                }
            }
        },
        None => {
            assert forall|i: int, j: int|
                0 <= i < r.len() && 0 <= j < r.len() && i != j implies key_of(#[trigger] r[i])
                != key_of(#[trigger] r[j]) by {
                if i < ts.len() && j < ts.len() {
                    assert(key_of(ts[i]) != key_of(ts[j]));
                } else if i == ts.len() {
                    assert(!holds_key(ts, key_of(t), j));
                } else {
                    assert(!holds_key(ts, key_of(t), i));
                }
            }
        },
    }
}

/// The state a session keeps between commands: the loaded tables, the name
/// of the active table, and the in-game clock in minutes.
pub struct Session {
    pub tables: Vec<Table>,
    pub current_table: Option<String>,
    pub current_time_minutes: u32,
}

impl Session {
    /// The loaded tables have unique keys.
    pub open spec fn wf(&self) -> bool {
        keys_unique(self.tables@)
    }

    /// The key of the active table, if one was chosen.
    pub open spec fn active_key(&self) -> Option<Seq<char>> {
        match self.current_table {
            Some(k) => Some(k@),
            None => None,
        }
    }

    /// A session with no tables, no active table, and the clock at 00:00.
    pub fn new() -> (s: Session)
        ensures
            s.wf(),
            s.tables@.len() == 0,
            s.active_key() is None,
            s.current_time_minutes == 0,
    {
        Session { tables: Vec::new(), current_table: None, current_time_minutes: 0 }
    }

    /// Where the table with key `key` stands among the loaded tables.
    pub fn find(&self, key: &str) -> (r: Option<usize>)
        requires
            self.wf(),
        ensures
            match r {
                Some(i) => position(self.tables@, key@) == Some(i as int) && holds_key(
                    self.tables@,
                    key@,
                    i as int,
                ),
                None => position(self.tables@, key@) is None,
            },
    {
        let mut i: usize = 0;
        while i < self.tables.len()
            invariant
                self.wf(),
                i <= self.tables.len(),
                forall|j: int| 0 <= j < i ==> !holds_key(self.tables@, key@, j),
            decreases self.tables.len() - i,
        {
            let k = lowercase(self.tables[i].name.as_str());
            if k == key.to_owned() {
                proof {
                    lemma_position_unique(self.tables@, key@, i as int);
                }
                return Some(i);
            }
            i = i + 1;
        }
        None
    }

    /// The table with key `key`, if loaded.
    pub fn get(&self, key: &str) -> (r: Option<&Table>)
        requires
            self.wf(),
        ensures
            r == (match position(self.tables@, key@) {
                Some(i) => Some(&self.tables@[i]),
                None => None::<&Table>,
            }),
    {
        match self.find(key) {
            Some(i) => Some(&self.tables[i]),
            None => None,
        }
    }

    /// The active table: the loaded table whose key was chosen last.
    pub fn table(&self) -> (r: Option<&Table>)
        requires
            self.wf(),
        ensures
            r == (match self.active_key() {
                Some(k) => match position(self.tables@, k) {
                    Some(i) => Some(&self.tables@[i]),
                    None => None::<&Table>,
                },
                None => None::<&Table>,
            }),
    {
        match &self.current_table {
            Some(k) => self.get(k.as_str()),
            None => None,
        }
    }

    /// Adds `t` under its key, replacing a loaded table with the same key.
    pub fn insert_table(&mut self, t: Table)
        requires
            old(self).wf(),
        ensures
            final(self).wf(),
            final(self).tables@ == inserted(old(self).tables@, t),
            final(self).current_table == old(self).current_table,
            final(self).current_time_minutes == old(self).current_time_minutes,
    {
        proof {
            lemma_inserted_unique(self.tables@, t);
        }
        let key = lowercase(t.name.as_str());
        match self.find(key.as_str()) {
            Some(i) => {
                let ghost before = self.tables@;
                self.tables.remove(i);
                self.tables.insert(i, t);
                assert(self.tables@ =~= before.update(i as int, t));
            },
            None => {
                self.tables.push(t);
            },
        }
    }

    /// Adds each of `tables` in order; of tables that share a key, the one
    /// that comes last stays.
    pub fn load_all(&mut self, tables: Vec<Table>)
        requires
            old(self).wf(),
        ensures
            final(self).wf(),
            final(self).tables@ == loaded(old(self).tables@, tables@),
            final(self).current_table == old(self).current_table,
            final(self).current_time_minutes == old(self).current_time_minutes,
    {
        let ghost start = self.tables@;
        let ghost all = tables@;
        let total = tables.len();
        let mut rest = tables;
        let mut n: usize = 0;
        while rest.len() > 0
            invariant
                self.wf(),
                n + rest@.len() == all.len(),
                total == all.len(),
                rest@ == all.subrange(n as int, all.len() as int),
                self.tables@ == loaded(start, all.subrange(0, n as int)),
                self.current_table == old(self).current_table,
                self.current_time_minutes == old(self).current_time_minutes,
            decreases rest@.len(),
        {
            let t = rest.remove(0);
            self.insert_table(t);
            n = n + 1;
            assert(all.subrange(0, n as int).drop_last() =~= all.subrange(0, n - 1));
            assert(rest@ =~= all.subrange(n as int, all.len() as int));
        }
        assert(all.subrange(0, n as int) =~= all);
    }

    /// Lists a table: the one with key `filter`, or else the active table;
    /// with neither, the keys of all loaded tables.
    pub fn list_report(&self, filter: Option<String>) -> (r: Vec<String>)
        requires
            self.wf(),
        ensures
            views(r@) == list_lines(*self, opt_view(filter)),
    {
        let mut r: Vec<String> = Vec::new();
        if self.tables.len() == 0 {
            r.push(String::from_str("No tables loaded."));
            return r;
        }
        match filter {
            Some(name) => match self.get(name.as_str()) {
                Some(t) => table_report(t),
                None => {
                    r.push(not_found(name.as_str()));
                    r
                },
            },
            None => match self.table() {
                Some(t) => table_report(t),
                None => self.key_report(),
            },
        }
    }

    /// The keys of all loaded tables, one line each, under a heading.
    pub fn key_report(&self) -> (r: Vec<String>)
        ensures
            views(r@) == key_lines(self.tables@),
    {
        let mut r: Vec<String> = Vec::new();
        r.push(String::from_str("Loaded tables:"));
        let mut i: usize = 0;
        while i < self.tables.len()
            invariant
                i <= self.tables.len(),
                views(r@) =~= seq!["Loaded tables:"@] + key_items(self.tables@.subrange(0, i as int)),
            decreases self.tables.len() - i,
        {
            let ghost prev = r@;
            let key = lowercase(self.tables[i].name.as_str());
            r.push(cat("- ", key.as_str()));
            proof {
                assert(views(r@) =~= views(prev).push("- "@ + key_of(self.tables@[i as int])));
                assert(key_items(self.tables@.subrange(0, i + 1)) =~= key_items(
                    self.tables@.subrange(0, i as int),
                ).push("- "@ + key_of(self.tables@[i as int])));
            }
            i = i + 1;
        }
        assert(self.tables@.subrange(0, i as int) =~= self.tables@);
        r
    }

    /// The keys of all loaded tables, in order.
    pub fn keys(&self) -> (r: Vec<String>)
        ensures
            views(r@) == table_keys(self.tables@),
    {
        let mut r: Vec<String> = Vec::new();
        let mut i: usize = 0;
        while i < self.tables.len()
            invariant
                i <= self.tables.len(),
                views(r@) =~= table_keys(self.tables@.subrange(0, i as int)),
            decreases self.tables.len() - i,
        {
            let ghost prev = r@;
            r.push(lowercase(self.tables[i].name.as_str()));
            proof {
                assert(views(r@) =~= views(prev).push(key_of(self.tables@[i as int])));
                assert(table_keys(self.tables@.subrange(0, i + 1)) =~= table_keys(
                    self.tables@.subrange(0, i as int),
                ).push(key_of(self.tables@[i as int])));
            }
            i = i + 1;
        }
        assert(self.tables@.subrange(0, i as int) =~= self.tables@);
        r
    }

    /// Rolls on the table with key `target`, or on the active table, and
    /// reports the roll value and the entry it selects.
    pub fn roll_table(&self, target: Option<String>) -> (r: Vec<String>)
        requires
            self.wf(),
        ensures
            roll_reported(*self, opt_view(target), views(r@)),
    {
        let found = match &target {
            Some(name) => self.find(name.as_str()),
            None => match &self.current_table {
                Some(k) => self.find(k.as_str()),
                None => None,
            },
        };
        let mut r: Vec<String> = Vec::new();
        match found {
            None => {
                match target {
                    Some(name) => {
                        r.push(not_found(name.as_str()));
                        assert(views(r@) =~= seq![not_found_line(name@)]);
                    },
                    None => {
                        r.push(String::from_str("No table selected."));
                        assert(views(r@) =~= seq!["No table selected."@]);
                    },
                }
            },
            Some(i) => {
                let t = &self.tables[i];
                let key = lowercase(t.name.as_str());
                let (value, entry) = roll_on(t, t.roll.as_str());
                r.push(roll_report(key.as_str(), value, entry));
                let ghost ti = self.tables@[i as int];
                assert(views(r@) =~= seq![roll_line(key_of(ti), value, entry)]);
                assert(rolled_on(ti, views(r@)));
            },
        }
        r
    }

    /// Makes the table with key `name` the active one, if it is loaded.
    pub fn use_table(&mut self, name: String) -> (r: String)
        requires
            old(self).wf(),
        ensures
            final(self).wf(),
            final(self).tables == old(self).tables,
            final(self).current_time_minutes == old(self).current_time_minutes,
            position(old(self).tables@, name@) is Some ==> final(self).active_key() == Some(name@)
                && r@ == switched_line(name@),
            position(old(self).tables@, name@) is None ==> final(self).current_table == old(
                self,
            ).current_table && r@ == not_found_line(name@),
    {
        match self.find(name.as_str()) {
            Some(_) => {
                let line = switched(name.as_str());
                self.current_table = Some(name);
                line
            },
            None => not_found(name.as_str()),
        }
    }

    /// Advances the in-game clock by `minutes`, stopping at the largest
    /// reading a `u32` holds.
    pub fn add_minutes(&mut self, minutes: u32) -> (r: String)
        ensures
            final(self).tables == old(self).tables,
            final(self).current_table == old(self).current_table,
            final(self).current_time_minutes == clock_after(
                old(self).current_time_minutes,
                minutes,
            ),
            r@ == added_line(minutes as nat, final(self).current_time_minutes as nat),
    {
        self.current_time_minutes = self.current_time_minutes.saturating_add(minutes);
        added_report(minutes, self.current_time_minutes)
    }

    /// Carries out `cmd`: changes the active table or the clock where it
    /// asks for that, and returns the lines that report it.
    pub fn dispatch(&mut self, cmd: Command) -> (r: Vec<String>)
        requires
            old(self).wf(),
        ensures
            final(self).wf(),
            final(self).tables == old(self).tables,
            step(*old(self), cmd@, *final(self), views(r@)),
    {
        let mut r: Vec<String> = Vec::new();
        match cmd {
            Command::RollTable(target) => self.roll_table(target),
            Command::RollDice(dice) => {
                let result = evaluate(dice.as_str());
                r.push(dice_report(dice.as_str(), result));
                assert(views(r@) =~= seq![dice_line(dice@, result)]);
                assert(dice_reported(dice@, views(r@)));
                r
            },
            Command::List(filter) => self.list_report(filter),
            Command::Time => {
                r.push(time_report(self.current_time_minutes));
                assert(views(r@) =~= seq![time_line(self.current_time_minutes as nat)]);
                r
            },
            Command::Add(minutes) => {
                r.push(self.add_minutes(minutes));
                assert(views(r@) =~= seq![r@[0]@]);
                r
            },
            Command::Use(name) => {
                r.push(self.use_table(name));
                assert(views(r@) =~= seq![r@[0]@]);
                r
            },
            Command::Help => help_report(),
            Command::Unknown(text) => {
                r.push(unknown_report(text.as_str()));
                assert(views(r@) =~= seq![unknown_line(text@)]);
                r
            },
        }
    }

    /// Handles one typed line: echoes it, parses it, and carries out the
    /// command it stands for.
    pub fn execute(&mut self, input: &str) -> (r: Vec<String>)
        requires
            old(self).wf(),
        ensures
            final(self).wf(),
            final(self).tables == old(self).tables,
            r@.len() >= 1,
            r@[0]@ == echo_line(input@),
            step(*old(self), command_of(input@), *final(self), views(r@).drop_first()),
    {
        let mut r: Vec<String> = Vec::new();
        r.push(echo(input));
        let cmd = parse_command(input);
        let mut rest = self.dispatch(cmd);
        let ghost tail = rest@;
        r.append(&mut rest);
        assert(views(r@).drop_first() =~= views(tail));
        r
    }

    /// Starts a session on what was read at startup: no table file, a file
    /// that could not be read as tables (with its diagnostic), or the tables
    /// it holds. Tables are loaded and the first becomes the active one; a
    /// failure leaves the session as it was. Every outcome is reported.
    pub fn start(&mut self, found: Option<Result<Vec<Table>, String>>) -> (r: Vec<String>)
        requires
            old(self).wf(),
        ensures
            final(self).wf(),
            started(*old(self), found, *final(self), views(r@)),
    {
        let mut r: Vec<String> = Vec::new();
        match found {
            None => {
                r.push(String::from_str("No tables found."));
                assert(views(r@) =~= seq!["No tables found."@]);
            },
            Some(Err(message)) => {
                r.push(cat("Failed to load tables: ", message.as_str()));
                assert(views(r@) =~= seq!["Failed to load tables: "@ + message@]);
            },
            Some(Ok(ts)) => {
                self.load_all(ts);
                let keys = self.keys();
                r.push(cat("Loaded tables: ", join_from(&keys, 0, ", ").as_str()));
                assert(views(keys@).subrange(0, keys@.len() as int) =~= views(keys@));
                let ghost first_line = views(r@)[0];
                if self.tables.len() > 0 {
                    let first = lowercase(self.tables[0].name.as_str());
                    let mut line = cat("Current table set to '", first.as_str());
                    line.append("'.");
                    r.push(line);
                    self.current_table = Some(first);
                    assert(views(r@) =~= seq![
                        first_line,
                        "Current table set to '"@ + key_of(self.tables@[0]) + "'."@,
                    ]);
                } else {
                    assert(views(r@) =~= seq![first_line]);
                }
            },
        }
        r
    }
}

/// Starting the session `before` on what was read at startup, `found`, can
/// lead to `after` with the report `lines`.
pub open spec fn started(
    before: Session,
    found: Option<Result<Vec<Table>, String>>,
    after: Session,
    lines: Seq<Seq<char>>,
) -> bool {
    &&& after.current_time_minutes == before.current_time_minutes
    &&& match found {
        None => after == before && lines == seq!["No tables found."@],
        Some(Err(message)) => after == before && lines == seq![
            "Failed to load tables: "@ + message@,
        ],
        Some(Ok(ts)) => {
            let loaded_line = "Loaded tables: "@ + joined_by(", "@, table_keys(after.tables@));
            &&& after.tables@ == loaded(before.tables@, ts@)
            &&& if after.tables@.len() == 0 {
                after.current_table == before.current_table && lines == seq![loaded_line]
            } else {
                &&& after.active_key() == Some(key_of(after.tables@[0]))
                &&& lines == seq![
                    loaded_line,
                    "Current table set to '"@ + key_of(after.tables@[0]) + "'."@,
                ]
            }
        },
    }
}

/// The character view of an optional string.
pub open spec fn opt_view(o: Option<String>) -> Option<Seq<char>> {
    match o {
        Some(s) => Some(s@),
        None => None,
    }
}

/// Where the active table of `s` stands among its tables, if it is loaded.
pub open spec fn active_position(s: Session) -> Option<int> {
    match s.active_key() {
        Some(k) => position(s.tables@, k),
        None => None,
    }
}

/// The keys of the tables `ts`, in order.
pub open spec fn table_keys(ts: Seq<Table>) -> Seq<Seq<char>> {
    ts.map_values(|t: Table| key_of(t))
}

/// One listing line per key of the tables `ts`.
pub open spec fn key_items(ts: Seq<Table>) -> Seq<Seq<char>> {
    ts.map_values(|t: Table| "- "@ + key_of(t))
}

/// The keys of the tables `ts`, one line each, under a heading.
pub open spec fn key_lines(ts: Seq<Table>) -> Seq<Seq<char>> {
    seq!["Loaded tables:"@] + key_items(ts)
}

/// What `list` reports in `s`: the table with key `filter`, or else the
/// active table, or else the keys of all tables.
pub open spec fn list_lines(s: Session, filter: Option<Seq<char>>) -> Seq<Seq<char>> {
    if s.tables@.len() == 0 {
        seq!["No tables loaded."@]
    } else {
        match filter {
            Some(k) => match position(s.tables@, k) {
                Some(i) => table_lines(s.tables@[i]),
                None => seq![not_found_line(k)],
            },
            None => match active_position(s) {
                Some(i) => table_lines(s.tables@[i]),
                None => key_lines(s.tables@),
            },
        }
    }
}

/// `lines` is a report that rolling on the table with key `target`, or on
/// the active table, can give in `s`: a missing table is named, and a found
/// one is rolled on with its own dice.
pub open spec fn roll_reported(s: Session, target: Option<Seq<char>>, lines: Seq<Seq<char>>) -> bool {
    let pos = match target {
        Some(k) => position(s.tables@, k),
        None => active_position(s),
    };
    match pos {
        None => lines == seq![
            match target {
                Some(k) => not_found_line(k),
                None => "No table selected."@,
            },
        ],
        Some(i) => rolled_on(s.tables@[i], lines),
    }
}

/// `lines` is a report that rolling on `t` with its own dice can give: the
/// table's key, a possible roll value, and the entry that value selects.
pub open spec fn rolled_on(t: Table, lines: Seq<Seq<char>>) -> bool {
    exists|value: u32, entry: Option<&Entry>|
        is_roll_outcome(t.rows@, t.roll@, value, entry) && lines == seq![
            roll_line(key_of(t), value, entry),
        ]
}

/// `lines` is a report that rolling the dice notation `dice` can give: a
/// possible sum, or the reason the notation cannot be rolled.
pub open spec fn dice_reported(dice: Seq<char>, lines: Seq<Seq<char>>) -> bool {
    exists|result: Result<u32, DiceError>|
        is_dice_outcome(dice, result) && lines == seq![dice_line(dice, result)]
}

/// The clock reading `minutes + added`, held at the largest `u32`.
pub open spec fn clock_after(minutes: u32, added: u32) -> u32 {
    if minutes + added > u32::MAX {
        u32::MAX
    } else {
        (minutes + added) as u32
    }
}

/// Carrying out `cmd` in the session `before` can lead to `after` with the
/// report `lines`. Only `use` changes the active table and only `add` the
/// clock; every failure is reported as a line.
pub open spec fn step(before: Session, cmd: CommandView, after: Session, lines: Seq<Seq<char>>) -> bool {
    let same_clock = after.current_time_minutes == before.current_time_minutes;
    let same_active = after.current_table == before.current_table;
    match cmd {
        CommandView::RollTable(target) => same_clock && same_active && roll_reported(
            before,
            target,
            lines,
        ),
        CommandView::RollDice(dice) => same_clock && same_active && dice_reported(dice, lines),
        CommandView::List(filter) => same_clock && same_active && lines == list_lines(
            before,
            filter,
        ),
        CommandView::Time => same_clock && same_active && lines == seq![
            time_line(before.current_time_minutes as nat),
        ],
        CommandView::Add(added) => {
            &&& same_active
            &&& after.current_time_minutes == clock_after(before.current_time_minutes, added)
            &&& lines == seq![added_line(added as nat, after.current_time_minutes as nat)]
        },
        CommandView::Use(name) => same_clock && if position(before.tables@, name) is Some {
            after.active_key() == Some(name) && lines == seq![switched_line(name)]
        } else {
            same_active && lines == seq![not_found_line(name)]
        },
        CommandView::Help => same_clock && same_active && lines == help_lines(),
        CommandView::Unknown(text) => same_clock && same_active && lines == seq![
            unknown_line(text),
        ],
    }
}

} // verus!
