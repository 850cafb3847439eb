pub mod bookmark;
pub mod builtin;

use crate::data::{looks, Bookmark, Record};
use crate::store::{load_lines, records};
use crate::text::{split_words, strs, words};
use vstd::prelude::*;
use vstd::string::*;

verus! {

/// What a command does when it runs.
#[derive(Clone, Copy, PartialEq, Eq, Debug, Structural)]
pub enum Action {
    Nothing,
    Echo,
    Help,
    Add,
    List,
    Search,
    Remove,
    Reset,
    Load,
    Save,
}

/// A named, described unit of behaviour of the shell.
#[derive(Debug)]
pub struct Command {
    pub name: String,
    pub description: String,
    pub usage: String,
    pub action: Action,
}

/// Builds a `Command`: the name is required, the description and the usage
/// default to empty and the action to one that does nothing.
pub struct CmdBuilder(pub Command);

impl CmdBuilder {
    pub fn new(name: &str) -> (r: Self)
        ensures
            r.0.name@ == name@,
            r.0.description@ == Seq::<char>::empty(),
            r.0.usage@ == Seq::<char>::empty(),
            r.0.action == Action::Nothing,
    {
        CmdBuilder(
            Command {
                name: name.to_owned(),
                description: String::new(),
                usage: String::new(),
                action: Action::Nothing,
            },
        )
    }

    pub fn description(self, description: &str) -> (r: Self)
        ensures
            r.0.description@ == description@,
            r.0.name == self.0.name,
            r.0.usage == self.0.usage,
            r.0.action == self.0.action,
    {
        let mut s = self;
        s.0.description = description.to_owned();
        s
    }

    pub fn usage(self, usage: &str) -> (r: Self)
        ensures
            r.0.usage@ == usage@,
            r.0.name == self.0.name,
            r.0.description == self.0.description,
            r.0.action == self.0.action,
    {
        let mut s = self;
        s.0.usage = usage.to_owned();
        s
    }

    pub fn action(self, action: Action) -> (r: Self)
        ensures
            r.0.action == action,
            r.0.name == self.0.name,
            r.0.description == self.0.description,
            r.0.usage == self.0.usage,
    {
        let mut s = self;
        s.0.action = action;
        s
    }

    pub fn build(self) -> (r: Command)
        ensures
            r == self.0,
    {
        self.0
    }
}

/// The command name and the arguments of a line, or none when it holds no word.
pub open spec fn tokenize(line: Seq<char>) -> Option<(Seq<char>, Seq<Seq<char>>)> {
    let w = words(line);
    if w.len() == 0 {
        None
    } else {
        Some((w[0], w.skip(1)))
    }
}

/// The arguments of a line: its words after the first.
pub open spec fn arg_words(line: Seq<char>) -> Seq<Seq<char>> {
    match tokenize(line) {
        Some((_, args)) => args,
        None => seq![],
    }
}

/// One line handed to one command.
pub struct Context {
    pub line: String,
}

impl Context {
    pub fn new(line: String) -> (r: Context)
        ensures
            r.line == line,
    {
        Context { line }
    }

    /// The arguments of the line.
    pub fn args(&self) -> (r: Vec<String>)
        ensures
            strs(r@) == arg_words(self.line@),
    {
        match Self::parse(self.line.as_str()) {
            Some((_, args)) => args,
            None => Vec::new(),
        }
    }

    /// Splits a line into a command name and its arguments.
    pub fn parse(line: &str) -> (r: Option<(String, Vec<String>)>)
        ensures
            match r {
                Some((name, args)) => tokenize(line@) == Some((name@, strs(args@))),
                None => tokenize(line@).is_none(),
            },
    {
        let mut w = split_words(line);
        if w.len() == 0 {
            return None;
        }
        let ghost all = w@;
        let name = w.remove(0);
        assert(strs(w@) =~= strs(all).skip(1));
        Some((name, w))
    }
}

/// The position of the first command named `name` at or after `k`, or `-1`.
pub open spec fn find_named(cmds: Seq<Command>, name: Seq<char>, k: int) -> int
    decreases cmds.len() - k,
{
    if k < 0 || k >= cmds.len() {
        -1
    } else if cmds[k].name@ == name {
        k
    } else {
        find_named(cmds, name, k + 1)
    }
}

/// The text of an unknown command's error.
pub open spec fn unknown_text(name: Seq<char>) -> Seq<char> {
    seq!['u', 'n', 'k', 'n', 'o', 'w', 'n', ' ', 'c', 'o', 'm', 'm', 'a', 'n', 'd', ':', ' '] + name
}

pub fn unknown_command(name: &str) -> (r: String)
    ensures
        r@ == unknown_text(name@),
{
    proof {
        reveal_strlit("unknown command: ");
        assert("unknown command: "@ =~= unknown_text(Seq::<char>::empty()));
    }
    let mut r = "unknown command: ".to_owned();
    r.append(name);
    r
}

/// The shell's session: the last command's result, the commands and the bookmarks.
pub struct Env {
    pub error: Result<(), String>,
    pub builtin: Vec<Command>,
    pub bookmarks: Vec<Bookmark>,
}

impl Env {
    pub fn new() -> (r: Self)
        ensures
            r.error.is_ok(),
            r.builtin@.len() == 0,
            r.bookmarks@.len() == 0,
    {
        Env { error: Ok(()), builtin: Vec::new(), bookmarks: Vec::new() }
    }

    /// The session with the built-in commands as its registry.
    pub fn with_builtin(self) -> (r: Self)
        ensures
            builtin::is_builtin(r.builtin@),
            r.error == self.error,
            r.bookmarks == self.bookmarks,
    {
        let mut s = self;
        s.builtin = builtin::cmds();
        s
    }

    /// `>> ` after a success, `!> ` after an error.
    pub fn prompt(&self) -> (r: String)
        ensures
            r@ == (if self.error.is_ok() { seq!['>', '>', ' '] } else { seq!['!', '>', ' '] }),
    {
        proof {
            reveal_strlit(">> ");
            reveal_strlit("!> ");
            assert(">> "@ =~= seq!['>', '>', ' ']);
            assert("!> "@ =~= seq!['!', '>', ' ']);
        }
        if self.error.is_ok() {
            ">> ".to_owned()
        } else {
            "!> ".to_owned()
        }
    }

    /// The first command of the registry whose name is exactly `name`.
    pub fn find_command(&self, name: &str) -> (r: Option<&Command>)
        ensures
            match r {
                Some(c) => {
                    let k = find_named(self.builtin@, name@, 0);
                    0 <= k < self.builtin@.len() && *c == self.builtin@[k]
                },
                None => find_named(self.builtin@, name@, 0) == -1,
            },
    {
        match position_of(&self.builtin, name) {
            Some(k) => Some(&self.builtin[k]),
            None => None,
        }
    }

    /// Runs one line: finds the command that its first word names and runs it
    /// with the other words as arguments.
    pub fn handle(&mut self, line: String) -> (r: Result<Effect, String>)
        ensures
            match tokenize(line@) {
                None => reply_of(r) == Err::<Reply, Seq<char>>("empty command"@) && *final(self)
                    == *old(self),
                Some((name, args)) => {
                    let k = find_named(old(self).builtin@, name, 0);
                    if k == -1 {
                        reply_of(r) == Err::<Reply, Seq<char>>(unknown_text(name)) && *final(self)
                            == *old(self)
                    } else {
                        runs(*old(self), *final(self), old(self).builtin@[k].action, args, r)
                    }
                },
            },
    {
        let ctx = Context::new(line);
        match Context::parse(ctx.line.as_str()) {
            None => Err("empty command".to_owned()),
            Some((name, _)) => match position_of(&self.builtin, name.as_str()) {
                None => Err(unknown_command(name.as_str())),
                Some(k) => {
                    let action = self.builtin[k].action;
                    let args = ctx.args();
                    self.act(action, &args)
                },
            },
        }
    }

    /// Keeps the result of the last line; the prompt shows whether it failed.
    pub fn finish(&mut self, result: Result<(), String>)
        ensures
            final(self).error == result,
            final(self).builtin == old(self).builtin,
            final(self).bookmarks == old(self).bookmarks,
    {
        self.error = result;
    }

    /// The lines that show the bookmarks at `picks`, each after its position
    /// and `. ` where `numbered` holds.
    pub fn render(&self, numbered: bool, picks: &Vec<usize>) -> (r: Vec<String>)
        requires
            forall|j: int| 0 <= j < picks@.len() ==> #[trigger] picks@[j] < self.bookmarks@.len(),
        ensures
            r@.len() == picks@.len(),
            forall|j: int|
                0 <= j < picks@.len() ==> {
                    let pre = shown_prefix(numbered, picks@[j] as nat);
                    let t = #[trigger] r@[j]@;
                    &&& pre.len() <= t.len()
                    &&& t.take(pre.len() as int) == pre
                    &&& looks(t.skip(pre.len() as int), self.bookmarks@[picks@[j] as int]@)
                },
    {
        let mut r: Vec<String> = Vec::new();
        let mut j: usize = 0;
        while j < picks.len()
            invariant
                j <= picks@.len(),
                r@.len() == j,
                forall|j: int| 0 <= j < picks@.len() ==> #[trigger] picks@[j] < self.bookmarks@.len(),
                forall|i: int|
                    0 <= i < j ==> {
                        let pre = shown_prefix(numbered, picks@[i] as nat);
                        let t = #[trigger] r@[i]@;
                        &&& pre.len() <= t.len()
                        &&& t.take(pre.len() as int) == pre
                        &&& looks(t.skip(pre.len() as int), self.bookmarks@[picks@[i] as int]@)
                    },
            decreases picks@.len() - j,
        {
            let p = picks[j];
            let body = self.bookmarks[p].pretty();
            let mut line = String::new();
            if numbered {
                line = decimal_text(p);
                line.append(". ");
            }
            let ghost pre = line@;
            line.append(body.as_str());
            proof {
                reveal_strlit(". ");
                assert(". "@ =~= seq!['.', ' ']);
                assert(pre == shown_prefix(numbered, p as nat));
                assert(line@.take(pre.len() as int) =~= pre);
                assert(line@.skip(pre.len() as int) =~= body@);
            }
            r.push(line);
            j = j + 1;
        }
        r
    }

    /// Runs one action on the session with the given arguments.
    pub fn act(&mut self, action: Action, args: &Vec<String>) -> (r: Result<Effect, String>)
        ensures
            runs(*old(self), *final(self), action, strs(args@), r),
    {
        match action {
            Action::Nothing => {
                let v: Vec<String> = Vec::new();
                assert(strs(v@) =~= seq![]);
                Ok(Effect::Print(v))
            },
            Action::Echo => {
                proof {
                    reveal_strlit(" ");
                    assert(" "@ =~= seq![' ']);
                }
                builtin::run_echo(args)
            },
            Action::Help => builtin::run_help(&self.builtin, args),
            Action::Add => bookmark::run_add(self, args),
            Action::List => bookmark::run_list(self),
            Action::Search => bookmark::run_search(self, args),
            Action::Remove => bookmark::run_remove(self, args),
            Action::Reset => bookmark::run_reset(self),
            Action::Load => Ok(Effect::Load(first_of(args))),
            Action::Save => {
                let lines = crate::store::save_lines(&self.bookmarks);
                Ok(Effect::Save(first_of(args), lines))
            },
        }
    }

    /// Replaces the bookmarks with those that the lines of a stored file describe.
    pub fn autoload(&mut self, lines: &Vec<String>)
        ensures
            records(final(self).bookmarks@) == crate::store::parse_all(strs(lines@)),
            final(self).builtin == old(self).builtin,
            final(self).error == old(self).error,
    {
        self.bookmarks = load_lines(lines);
    }

    /// Appends the bookmarks that the lines of a stored file describe.
    pub fn finish_load(&mut self, lines: &Vec<String>)
        ensures
            records(final(self).bookmarks@) == records(old(self).bookmarks@) + crate::store::parse_all(
                strs(lines@),
            ),
            final(self).builtin == old(self).builtin,
            final(self).error == old(self).error,
    {
        let mut more = load_lines(lines);
        let ghost before = self.bookmarks@;
        let ghost added = more@;
        self.bookmarks.append(&mut more);
        assert(records(self.bookmarks@) =~= records(before) + records(added));
    }
}

/// Whether two strings hold the same characters.
pub fn string_eq(a: &String, b: &str) -> (r: bool)
    ensures
        r == (a@ == b@),
{
    let x = crate::text::chars_of(a.as_str());
    let y = crate::text::chars_of(b);
    if x.len() != y.len() {
        return false;
    }
    let mut i: usize = 0;
    while i < x.len()
        invariant
            x@ == a@,
            y@ == b@,
            x@.len() == y@.len(),
            i <= x@.len(),
            forall|k: int| 0 <= k < i ==> x@[k] == y@[k],
        decreases x@.len() - i,
    {
        if x[i] != y[i] {
            return false;
        }
        i = i + 1;
    }
    assert(x@ =~= y@);
    true
}

/// What a command hands back for the world outside the library to carry out.
#[derive(Debug)]
pub enum Effect {
    /// Lines to print.
    Print(Vec<String>),
    /// Bookmarks to show, by position; numbered or not.
    Show(bool, Vec<usize>),
    /// Read the named file (the default one when none is named) and load its lines.
    Load(Option<String>),
    /// Write these lines to the named file (the default one when none is named).
    Save(Option<String>, Vec<String>),
}

/// What an `Effect` holds, as plain values.
pub enum Reply {
    Print(Seq<Seq<char>>),
    Show(bool, Seq<usize>),
    Load(Option<Seq<char>>),
    Save(Option<Seq<char>>, Seq<Seq<char>>),
}

impl View for Effect {
    type V = Reply;

    open spec fn view(&self) -> Reply {
        match self {
            Effect::Print(v) => Reply::Print(strs(v@)),
            Effect::Show(n, v) => Reply::Show(*n, v@),
            Effect::Load(f) => Reply::Load(
                match f {
                    Some(x) => Some(x@),
                    None => None,
                },
            ),
            Effect::Save(f, v) => Reply::Save(
                match f {
                    Some(x) => Some(x@),
                    None => None,
                },
                strs(v@),
            ),
        }
    }
}

/// A command's result as plain values.
pub open spec fn reply_of(r: Result<Effect, String>) -> Result<Reply, Seq<char>> {
    match r {
        Ok(e) => Ok(e@),
        Err(m) => Err(m@),
    }
}

/// The first argument, if there is one.
pub open spec fn first_arg(args: Seq<Seq<char>>) -> Option<Seq<char>> {
    if args.len() > 0 {
        Some(args[0])
    } else {
        None
    }
}

/// The bookmarks that a command leaves and what it replies, given the registry,
/// the bookmarks before and the arguments.
pub open spec fn outcome(
    cmds: Seq<Command>,
    rs: Seq<Record>,
    action: Action,
    args: Seq<Seq<char>>,
) -> (Seq<Record>, Result<Reply, Seq<char>>) {
    match action {
        Action::Nothing => (rs, Ok(Reply::Print(seq![]))),
        Action::Echo => (rs, Ok(Reply::Print(seq![crate::text::join(args, seq![' '])]))),
        Action::Help => (rs, Ok(Reply::Print(builtin::help_lines(cmds, args)))),
        Action::Add => if args.len() == 0 {
            (rs, Err("missing name"@))
        } else if args.len() == 1 {
            (rs, Err("missing url"@))
        } else {
            (
                rs.push(Record { name: args[0], url: args[1], tags: args.skip(2) }),
                Ok(Reply::Print(seq!["added bookmark"@])),
            )
        },
        Action::List => (rs, Ok(Reply::Show(true, Seq::new(rs.len(), |i: int| i as usize)))),
        Action::Search => (
            rs,
            Ok(Reply::Show(false, bookmark::search_hits(rs, crate::text::join(args, seq![' '])))),
        ),
        Action::Remove => if args.len() == 0 {
            (rs, Err("missing index"@))
        } else {
            match crate::text::index_value(args[0]) {
                Some(n) => if n < rs.len() {
                    (rs.remove(n as int), Ok(Reply::Print(seq!["removed bookmark"@])))
                } else {
                    (rs, Err("invalid index"@))
                },
                None => (rs, Err("invalid index"@)),
            }
        },
        Action::Reset => (seq![], Ok(Reply::Print(seq!["reset bookmarks"@]))),
        Action::Load => (rs, Ok(Reply::Load(first_arg(args)))),
        Action::Save => (rs, Ok(Reply::Save(first_arg(args), crate::store::format_all(rs)))),
    }
}

/// The first argument of a command, as a new string.
pub fn first_of(args: &Vec<String>) -> (r: Option<String>)
    ensures
        match r {
            Some(x) => first_arg(strs(args@)) == Some(x@),
            None => first_arg(strs(args@)).is_none(),
        },
{
    if args.len() > 0 {
        Some(args[0].as_str().to_owned())
    } else {
        None
    }
}

/// Where the first command named `name` stands in `cmds`.
pub fn position_of(cmds: &Vec<Command>, name: &str) -> (r: Option<usize>)
    ensures
        match r {
            Some(k) => k as int == find_named(cmds@, name@, 0) && k < cmds@.len(),
            None => find_named(cmds@, name@, 0) == -1,
        },
{
    let mut i: usize = 0;
    while i < cmds.len()
        invariant
            i <= cmds@.len(),
            find_named(cmds@, name@, 0) == find_named(cmds@, name@, i as int),
        decreases cmds@.len() - i,
    {
        if string_eq(&cmds[i].name, name) {
            return Some(i);
        }
        i = i + 1;
    }
    None
}

/// `action`, run with `args` on the session `before`, left the session `after`
/// and replied `r`: only the bookmarks may change.
pub open spec fn runs(
    before: Env,
    after: Env,
    action: Action,
    args: Seq<Seq<char>>,
    r: Result<Effect, String>,
) -> bool {
    &&& (records(after.bookmarks@), reply_of(r)) == outcome(
        before.builtin@,
        records(before.bookmarks@),
        action,
        args,
    )
    &&& after.builtin == before.builtin
    &&& after.error == before.error
}

/// The decimal digits of `n`.
pub open spec fn decimal(n: nat) -> Seq<char>
    decreases n,
{
    if n < 10 {
        seq![digit(n)]
    } else {
        decimal(n / 10).push(digit(n % 10))
    }
}

/// The character of a decimal digit.
pub open spec fn digit(d: nat) -> char {
    seq!['0', '1', '2', '3', '4', '5', '6', '7', '8', '9'][d as int]
}

/// What stands before a shown bookmark: its position and `. `, or nothing.
pub open spec fn shown_prefix(numbered: bool, p: nat) -> Seq<char> {
    if numbered {
        decimal(p) + seq!['.', ' ']
    } else {
        seq![]
    }
}

/// Relies on the `Display` of `usize` (through `ToString`): the number in
/// decimal, with no sign and no leading zeros.
#[verifier::external_body]
fn decimal_text(n: usize) -> (r: String)
    ensures
        r@ == decimal(n as nat),
{
    n.to_string()
}

} // verus!
