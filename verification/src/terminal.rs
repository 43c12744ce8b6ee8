//! The terminal session: its lines, and the commands that add to them or
//! clear them.

use vstd::prelude::*;
use vstd::string::*;
use crate::clock::read_clock;
use crate::journal::{
    distinct_labels, entries, first_unused, has_label, labels, Journal, Labeled,
};
use crate::status::Status;
use crate::text::{same_text, trim, trimmed};

verus! {

/// A line of the terminal: a command as it was typed, or what came back.
#[derive(Debug)]
pub struct TerminalLine {
    pub id: String,
    pub kind: String,
    pub content: String,
    pub timestamp: i64,
}

/// What a terminal line holds, as mathematical values.
pub struct TerminalLineView {
    pub id: Seq<char>,
    pub kind: Seq<char>,
    pub content: Seq<char>,
    pub timestamp: i64,
}

impl View for TerminalLine {
    type V = TerminalLineView;

    open spec fn view(&self) -> TerminalLineView {
        TerminalLineView {
            id: self.id@,
            kind: self.kind@,
            content: self.content@,
            timestamp: self.timestamp,
        }
    }
}

impl Clone for TerminalLine {
    fn clone(&self) -> (r: Self)
        ensures
            r@ == self@,
    {
        TerminalLine {
            id: self.id.clone(),
            kind: self.kind.clone(),
            content: self.content.clone(),
            timestamp: self.timestamp,
        }
    }
}

impl Labeled for TerminalLine {
    open spec fn label_of(m: TerminalLineView) -> Seq<char> {
        m.id
    }

    fn label(&self) -> (l: &String) {
        &self.id
    }

    fn duplicate(&self) -> (r: Self) {
        self.clone()
    }
}

/// A command to run.
#[derive(Debug, Clone)]
pub struct ExecRequest {
    pub command: String,
}

/// The first line of a new session.
pub open spec fn welcome_line(at: i64) -> TerminalLineView {
    TerminalLineView {
        id: "1"@,
        kind: "output"@,
        content: "Добро пожаловать в терминал панели управления v2.1.0"@,
        timestamp: at,
    }
}

/// The second line of a new session.
pub open spec fn hint_line(at: i64) -> TerminalLineView {
    TerminalLineView {
        id: "2"@,
        kind: "output"@,
        content: "Введите \"help\" для получения списка доступных команд."@,
        timestamp: at,
    }
}

/// The line that repeats a command as it was typed.
pub open spec fn echo_line(id: Seq<char>, command: Seq<char>, at: i64) -> TerminalLineView {
    TerminalLineView { id, kind: "command"@, content: "$ "@ + command, timestamp: at }
}

/// What comes back for a command without its surrounding whitespace: the
/// text and its kind, or nothing for the command that clears the session.
pub open spec fn reply_to(command: Seq<char>) -> Option<(Seq<char>, Seq<char>)> {
    if command == "pwd"@ {
        Some(("/home/user/project"@, "output"@))
    } else if command == "whoami"@ {
        Some(("admin"@, "output"@))
    } else if command == "help"@ {
        Some(("Доступные команды: ls, pwd, whoami, date, clear, help"@, "output"@))
    } else if command == "clear"@ {
        None
    } else {
        Some(("Команда не найдена: "@ + command, "error"@))
    }
}

/// What running a command makes of the lines `before`: nothing is left after
/// the clearing command; after any other the command's echo and the reply
/// stand behind the lines that were there, each under the first unused
/// identifier from its millisecond count upwards.
pub open spec fn ran(
    before: Seq<TerminalLineView>,
    after: Seq<TerminalLineView>,
    command: Seq<char>,
    inner: Seq<char>,
    echo_at: i64,
    reply_id_at: i64,
    reply_at: i64,
) -> bool {
    match reply_to(inner) {
        None => after == Seq::<TerminalLineView>::empty(),
        Some((content, kind)) => {
            let n = before.len() as int;
            &&& after.len() == n + 2
            &&& after.take(n) == before
            &&& first_unused(labels::<TerminalLine>(before), echo_at, after[n].id)
            &&& after[n] == echo_line(after[n].id, command, echo_at)
            &&& first_unused(
                labels::<TerminalLine>(after.take(n + 1)),
                reply_id_at,
                after[n + 1].id,
            )
            &&& after[n + 1] == (TerminalLineView {
                id: after[n + 1].id,
                kind,
                content,
                timestamp: reply_at,
            })
        },
    }
}

/// What comes back for a command without its surrounding whitespace.
pub fn respond(command: &str) -> (reply: Option<(String, String)>)
    ensures
        match reply {
            Some((content, kind)) => reply_to(command@) == Some((content@, kind@)),
            None => reply_to(command@) is None,
        },
{
    if same_text(command, "pwd") {
        Some(("/home/user/project".to_owned(), "output".to_owned()))
    } else if same_text(command, "whoami") {
        Some(("admin".to_owned(), "output".to_owned()))
    } else if same_text(command, "help") {
        Some(
            (
                "Доступные команды: ls, pwd, whoami, date, clear, help".to_owned(),
                "output".to_owned(),
            ),
        )
    } else if same_text(command, "clear") {
        None
    } else {
        Some(("Команда не найдена: ".to_owned().concat(command), "error".to_owned()))
    }
}

/// The lines of the terminal session, oldest first.
pub struct TerminalStore {
    inner: Journal<TerminalLine>,
}

impl View for TerminalStore {
    type V = Seq<TerminalLineView>;

    closed spec fn view(&self) -> Seq<TerminalLineView> {
        self.inner@
    }
}

impl Default for TerminalStore {
    /// A session without lines.
    fn default() -> (store: Self)
        ensures
            store@ == Seq::<TerminalLineView>::empty(),
    {
        Self::new()
    }
}

impl TerminalStore {
    /// A session without lines.
    pub fn new() -> (store: Self)
        ensures
            store@ == Seq::<TerminalLineView>::empty(),
    {
        TerminalStore { inner: Journal::new() }
    }

    /// A new session with its two opening lines, stamped with the two
    /// millisecond counts.
    pub fn welcome(first_at: i64, second_at: i64) -> (store: Self)
        ensures
            store@ == seq![welcome_line(first_at), hint_line(second_at)],
            distinct_labels::<TerminalLine>(store@),
    {
        let first = TerminalLine {
            id: "1".to_owned(),
            kind: "output".to_owned(),
            content: "Добро пожаловать в терминал панели управления v2.1.0".to_owned(),
            timestamp: first_at,
        };
        let second = TerminalLine {
            id: "2".to_owned(),
            kind: "output".to_owned(),
            content: "Введите \"help\" для получения списка доступных команд.".to_owned(),
            timestamp: second_at,
        };
        proof {
            reveal_strlit("1");
            reveal_strlit("2");
            assert("1"@[0] != "2"@[0]);
        }
        let mut inner: Journal<TerminalLine> = Journal::new();
        let ghost first_model = first@;
        let ghost second_model = second@;
        let put_first = inner.put_back(first);
        assert(put_first is Ok);
        assert(inner@ =~= seq![first_model]);
        assert(!has_label::<TerminalLine>(inner@, "2"@)) by {
            if has_label::<TerminalLine>(inner@, "2"@) {
                let i = choose|i: int|
                    0 <= i < inner@.len() && TerminalLine::label_of(#[trigger] inner@[i]) == "2"@;
                assert(inner@[i] == first_model);
            }
        }
        let put_second = inner.put_back(second);
        assert(put_second is Ok);
        assert(inner@ =~= seq![first_model, second_model]);
        TerminalStore { inner }
    }

    /// A new session with its two opening lines, stamped by the clock.
    pub fn new_welcome() -> (store: Self)
        ensures
            store@.len() == 2,
            store@[0] == welcome_line(store@[0].timestamp),
            store@[1] == hint_line(store@[1].timestamp),
    {
        let first_at = read_clock().millis;
        let second_at = read_clock().millis;
        Self::welcome(first_at, second_at)
    }

    /// The number of lines.
    pub fn len(&self) -> (n: usize)
        ensures
            n == self@.len(),
            distinct_labels::<TerminalLine>(self@),
    {
        self.inner.len()
    }

    /// Runs a command, given as it was typed and without its surrounding
    /// whitespace, at three millisecond counts: that of the echo, that of the
    /// reply's identifier and that of the reply.
    pub fn run(
        &mut self,
        command: &str,
        inner: &str,
        echo_at: i64,
        reply_id_at: i64,
        reply_at: i64,
    ) -> (status: Status)
        ensures
            ran(old(self)@, final(self)@, command@, inner@, echo_at, reply_id_at, reply_at),
            distinct_labels::<TerminalLine>(final(self)@),
            status == (if reply_to(inner@) is None {
                Status::NoContent
            } else {
                Status::Success
            }),
    {
        let ghost before = self@;
        let echo_id = self.inner.unused_label(echo_at);
        let echo = TerminalLine {
            id: echo_id,
            kind: "command".to_owned(),
            content: "$ ".to_owned().concat(command),
            timestamp: echo_at,
        };
        let ghost echo_model = echo@;
        let put_echo = self.inner.put_back(echo);
        assert(put_echo is Ok);
        match respond(inner) {
            None => {
                self.inner.clear();
                Status::NoContent
            },
            Some((content, kind)) => {
                let reply_id = self.inner.unused_label(reply_id_at);
                let reply = TerminalLine { id: reply_id, kind, content, timestamp: reply_at };
                let ghost reply_model = reply@;
                let put_reply = self.inner.put_back(reply);
                assert(put_reply is Ok);
                proof {
                    let after = self@;
                    assert(after == before.push(echo_model).push(reply_model));
                    assert(after.take(before.len() as int) =~= before);
                    assert(after.take(before.len() as int + 1) =~= before.push(echo_model));
                }
                Status::Success
            },
        }
    }
}

/// A copy of all lines, oldest first.
pub fn get_history(store: &TerminalStore) -> (all: Vec<TerminalLine>)
    ensures
        entries::<TerminalLine>(all@) == store@,
{
    store.inner.snapshot()
}

/// Runs the command of a request at three readings of the clock: that of
/// the echo, that of the reply's identifier and that of the reply. The
/// clearing command leaves no line and reports `NoContent`. Any other command
/// puts its echo and the reply behind the lines that were there, under
/// identifiers that no line had, and reports `Success`; the reply is the one
/// for the command without its surrounding whitespace.
pub fn exec_command(store: &mut TerminalStore, req: &ExecRequest) -> (status: Status)
    ensures
        exists|echo_at: i64, reply_id_at: i64, reply_at: i64| #[trigger]
            ran(
                old(store)@,
                final(store)@,
                req.command@,
                trimmed(req.command@),
                echo_at,
                reply_id_at,
                reply_at,
            ),
        distinct_labels::<TerminalLine>(final(store)@),
        status == (if reply_to(trimmed(req.command@)) is None {
            Status::NoContent
        } else {
            Status::Success
        }),
{
    let inner = trim(req.command.as_str());
    let echo_at = read_clock().millis;
    let reply_id_at = read_clock().millis;
    let reply_at = read_clock().millis;
    store.run(req.command.as_str(), inner, echo_at, reply_id_at, reply_at)
}

} // verus!
