use vstd::prelude::*;

use crate::command::command_of;
use crate::report::echo_line;
use crate::session::{loaded, position, started, step, Session};
use crate::table::Table;
use crate::text::views;

verus! {

/// What the front end reports to the application state.
pub enum Message {
    /// Nothing to do.
    Noop,
    /// The front end has started: the tables should now be read.
    WindowOpened,
    /// The front end is closing.
    WindowClosed,
    /// The typed line is complete.
    EnterPressed,
    /// The typed line now reads as given.
    ContentChanged(String),
}

/// The application state: a session, the line being typed, and the
/// transcript so far.
pub struct Wayline {
    pub session: Session,
    pub input: String,
    pub scrollback: Vec<String>,
}

impl Wayline {
    /// The session's tables have unique keys.
    pub open spec fn wf(&self) -> bool {
        self.session.wf()
    }

    /// The transcript lines added since `before`.
    pub open spec fn added_since(&self, before: Seq<String>) -> Seq<Seq<char>> {
        views(self.scrollback@.subrange(before.len() as int, self.scrollback@.len() as int))
    }

    /// An empty session, nothing typed and an empty transcript.
    pub fn new() -> (c: Wayline)
        ensures
            c.wf(),
            c.session.tables@.len() == 0,
            c.session.active_key() is None,
            c.session.current_time_minutes == 0,
            c.input@.len() == 0,
            c.scrollback@.len() == 0,
    {
        Wayline { session: Session::new(), input: String::new(), scrollback: Vec::new() }
    }

    /// Handles one message. Returns whether the front end should now read the
    /// tables and hand them to `tables_read`.
    pub fn update(&mut self, message: Message) -> (wants_tables: bool)
        requires
            old(self).wf(),
        ensures
            final(self).wf(),
            final(self).session.tables == old(self).session.tables,
            final(self).scrollback@.len() >= old(self).scrollback@.len(),
            final(self).scrollback@.subrange(0, old(self).scrollback@.len() as int)
                == old(self).scrollback@,
            wants_tables <==> message is WindowOpened,
            match message {
                Message::EnterPressed => {
                    &&& final(self).input@.len() == 0
                    &&& final(self).added_since(old(self).scrollback@).len() >= 1
                    &&& final(self).added_since(old(self).scrollback@)[0] == echo_line(
                        old(self).input@,
                    )
                    &&& step(
                        old(self).session,
                        command_of(old(self).input@),
                        final(self).session,
                        final(self).added_since(old(self).scrollback@).drop_first(),
                    )
                },
                Message::ContentChanged(s) => {
                    &&& final(self).input == s
                    &&& final(self).session == old(self).session
                    &&& final(self).scrollback == old(self).scrollback
                },
                Message::WindowOpened => {
                    &&& final(self).input == old(self).input
                    &&& final(self).session == old(self).session
                    &&& final(self).added_since(old(self).scrollback@) == seq![
                        "Wayline started."@,
                    ]
                },
                _ => {
                    &&& final(self).input == old(self).input
                    &&& final(self).session == old(self).session
                    &&& final(self).scrollback == old(self).scrollback
                },
            },
    {
        let ghost before = self.scrollback@;
        match message {
            Message::EnterPressed => {
                let mut lines = self.session.execute(self.input.as_str());
                let ghost added = lines@;
                self.scrollback.append(&mut lines);
                self.input = String::new();
                assert(self.scrollback@.subrange(before.len() as int, self.scrollback@.len() as int)
                    =~= added);
                assert(self.scrollback@.subrange(0, before.len() as int) =~= before);
                false
            },
            Message::ContentChanged(s) => {
                self.input = s;
                false
            },
            Message::WindowOpened => {
                self.scrollback.push(String::from_str("Wayline started."));
                assert(self.added_since(before) =~= seq!["Wayline started."@]);
                assert(self.scrollback@.subrange(0, before.len() as int) =~= before);
                true
            },
            _ => false,
        }
    }

    /// The active table of the session.
    pub fn table(&self) -> (r: Option<&Table>)
        requires
            self.wf(),
        ensures
            r == (match self.session.active_key() {
                Some(k) => match position(self.session.tables@, k) {
                    Some(i) => Some(&self.session.tables@[i]),
                    None => None::<&Table>,
                },
                None => None::<&Table>,
            }),
    {
        self.session.table()
    }

    /// Adds each of `tables` to the session in order; of tables that share a
    /// key, the one that comes last stays.
    pub fn load_all(&mut self, tables: Vec<Table>)
        requires
            old(self).wf(),
        ensures
            final(self).wf(),
            final(self).session.tables@ == loaded(old(self).session.tables@, tables@),
            final(self).session.current_table == old(self).session.current_table,
            final(self).session.current_time_minutes == old(self).session.current_time_minutes,
            final(self).input == old(self).input,
            final(self).scrollback == old(self).scrollback,
    {
        self.session.load_all(tables);
    }

    /// Starts the session on what the front end read at startup (see
    /// `Session::start`) and adds the report to the transcript.
    pub fn tables_read(&mut self, found: Option<Result<Vec<Table>, String>>)
        requires
            old(self).wf(),
        ensures
            final(self).wf(),
            final(self).input == old(self).input,
            final(self).scrollback@.len() >= old(self).scrollback@.len(),
            final(self).scrollback@.subrange(0, old(self).scrollback@.len() as int)
                == old(self).scrollback@,
            started(
                old(self).session,
                found,
                final(self).session,
                final(self).added_since(old(self).scrollback@),
            ),
    {
        let ghost before = self.scrollback@;
        let mut lines = self.session.start(found);
        let ghost added = lines@;
        self.scrollback.append(&mut lines);
        assert(self.scrollback@.subrange(0, before.len() as int) =~= before);
        assert(self.scrollback@.subrange(before.len() as int, self.scrollback@.len() as int)
            =~= added);
    }
}

} // verus!
