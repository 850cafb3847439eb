use super::{runs, Action, CmdBuilder, Command, Effect, Env};
use crate::data::{Bookmark, Record};
use crate::store::records;
use crate::text::{contains, has_substring, join, join_with, parse_index, strs};
use vstd::prelude::*;
use vstd::string::*;

verus! {

/// The bookmark commands, in their order: `add`, `list`, `search`, `remove`,
/// `load`, `save`, `reset`.
pub open spec fn is_bookmark_cmds(c: Seq<Command>) -> bool {
    &&& c.len() == 7
    &&& c[0].name@ == "add"@ && c[0].action == Action::Add
    &&& c[0].description@ == "add a bookmark"@ && c[0].usage@ == "add <name> <url> [tags...]"@
    &&& c[1].name@ == "list"@ && c[1].action == Action::List
    &&& c[1].description@ == "list all bookmarks"@ && c[1].usage@ == "list"@
    &&& c[2].name@ == "search"@ && c[2].action == Action::Search
    &&& c[2].description@ == "search bookmarks"@ && c[2].usage@ == "search <query>"@
    &&& c[3].name@ == "remove"@ && c[3].action == Action::Remove
    &&& c[3].description@ == "remove a bookmark"@ && c[3].usage@ == "remove <index>"@
    &&& c[4].name@ == "load"@ && c[4].action == Action::Load
    &&& c[4].description@ == "load bookmarks from file"@ && c[4].usage@ == "load [filename]"@
    &&& c[5].name@ == "save"@ && c[5].action == Action::Save
    &&& c[5].description@ == "save bookmarks to file"@ && c[5].usage@ == "save [filename]"@
    &&& c[6].name@ == "reset"@ && c[6].action == Action::Reset
    &&& c[6].description@ == "reset all bookmarks"@ && c[6].usage@ == "reset"@
}

pub fn cmds() -> (r: Vec<Command>)
    ensures
        is_bookmark_cmds(r@),
{
    vec![self::add(), list(), search(), remove(), load(), save(), reset()]
}

fn add() -> (r: Command)
    ensures
        r.name@ == "add"@,
        r.description@ == "add a bookmark"@,
        r.usage@ == "add <name> <url> [tags...]"@,
        r.action == Action::Add,
{
    CmdBuilder::new("add").description("add a bookmark").usage("add <name> <url> [tags...]").action(Action::Add).build()
}

fn list() -> (r: Command)
    ensures
        r.name@ == "list"@,
        r.description@ == "list all bookmarks"@,
        r.usage@ == "list"@,
        r.action == Action::List,
{
    CmdBuilder::new("list").description("list all bookmarks").usage("list").action(Action::List).build()
}

fn search() -> (r: Command)
    ensures
        r.name@ == "search"@,
        r.description@ == "search bookmarks"@,
        r.usage@ == "search <query>"@,
        r.action == Action::Search,
{
    CmdBuilder::new("search").description("search bookmarks").usage("search <query>").action(Action::Search).build()
}

fn remove() -> (r: Command)
    ensures
        r.name@ == "remove"@,
        r.description@ == "remove a bookmark"@,
        r.usage@ == "remove <index>"@,
        r.action == Action::Remove,
{
    CmdBuilder::new("remove").description("remove a bookmark").usage("remove <index>").action(Action::Remove).build()
}

fn reset() -> (r: Command)
    ensures
        r.name@ == "reset"@,
        r.description@ == "reset all bookmarks"@,
        r.usage@ == "reset"@,
        r.action == Action::Reset,
{
    CmdBuilder::new("reset").description("reset all bookmarks").usage("reset").action(Action::Reset).build()
}

fn load() -> (r: Command)
    ensures
        r.name@ == "load"@,
        r.description@ == "load bookmarks from file"@,
        r.usage@ == "load [filename]"@,
        r.action == Action::Load,
{
    CmdBuilder::new("load").description("load bookmarks from file").usage("load [filename]").action(Action::Load).build()
}

fn save() -> (r: Command)
    ensures
        r.name@ == "save"@,
        r.description@ == "save bookmarks to file"@,
        r.usage@ == "save [filename]"@,
        r.action == Action::Save,
{
    CmdBuilder::new("save").description("save bookmarks to file").usage("save [filename]").action(Action::Save).build()
}

/// A record that `search` shows for the query `q`: its name or its tags,
/// joined by spaces, hold `q`.
pub open spec fn is_hit(r: Record, q: Seq<char>) -> bool {
    contains(r.name, q) || contains(join(r.tags, seq![' ']), q)
}

/// The positions of the records that `search` shows for `q`, in order.
pub open spec fn search_hits(rs: Seq<Record>, q: Seq<char>) -> Seq<usize>
    decreases rs.len(),
{
    if rs.len() == 0 {
        seq![]
    } else {
        let p = search_hits(rs.drop_last(), q);
        if is_hit(rs.last(), q) {
            p.push((rs.len() - 1) as usize)
        } else {
            p
        }
    }
}

/// Copies of the strings `v[from..]`.
fn copies_from(v: &Vec<String>, from: usize) -> (r: Vec<String>)
    requires
        from <= v@.len(),
    ensures
        strs(r@) == strs(v@).skip(from as int),
{
    let mut r: Vec<String> = Vec::new();
    let mut i: usize = from;
    while i < v.len()
        invariant
            from <= i <= v@.len(),
            strs(r@) == strs(v@).subrange(from as int, i as int),
        decreases v@.len() - i,
    {
        let ghost before = r@;
        r.push(v[i].as_str().to_owned());
        assert(strs(r@) =~= strs(before).push(v@[i as int]@));
        assert(strs(v@).subrange(from as int, i + 1) =~= strs(v@).subrange(from as int, i as int).push(
            v@[i as int]@,
        ));
        i = i + 1;
    }
    assert(strs(v@).subrange(from as int, v@.len() as int) =~= strs(v@).skip(from as int));
    r
}

fn message(text: &str) -> (r: Result<Effect, String>)
    ensures
        r matches Ok(Effect::Print(v)) && strs(v@) == seq![text@],
{
    let v = vec![text.to_owned()];
    assert(strs(v@) =~= seq![text@]);
    Ok(Effect::Print(v))
}

/// Appends a bookmark made of a name, a URL and any number of tags.
pub fn run_add(env: &mut Env, args: &Vec<String>) -> (r: Result<Effect, String>)
    ensures
        runs(*old(env), *final(env), Action::Add, strs(args@), r),
{
    if args.len() == 0 {
        return Err("missing name".to_owned());
    }
    if args.len() == 1 {
        return Err("missing url".to_owned());
    }
    let name = args[0].as_str().to_owned();
    let url = args[1].as_str().to_owned();
    let tags = copies_from(args, 2);
    let b = Bookmark::new(name, url, tags);
    let ghost before = env.bookmarks@;
    env.bookmarks.push(b);
    assert(records(env.bookmarks@) =~= records(before).push(b@));
    message("added bookmark")
}

/// Shows every bookmark, numbered by its position.
pub fn run_list(env: &Env) -> (r: Result<Effect, String>)
    ensures
        r matches Ok(Effect::Show(numbered, v)) && numbered && v@ == Seq::new(
            env.bookmarks@.len(),
            |i: int| i as usize,
        ),
{
    let mut v: Vec<usize> = Vec::new();
    let mut i: usize = 0;
    while i < env.bookmarks.len()
        invariant
            i <= env.bookmarks@.len(),
            v@ == Seq::new(i as nat, |k: int| k as usize),
        decreases env.bookmarks@.len() - i,
    {
        v.push(i);
        i = i + 1;
        assert(v@ =~= Seq::new(i as nat, |k: int| k as usize));
    }
    Ok(Effect::Show(true, v))
}

/// Shows the bookmarks whose name or tags hold the arguments joined by spaces.
pub fn run_search(env: &Env, args: &Vec<String>) -> (r: Result<Effect, String>)
    ensures
        r matches Ok(Effect::Show(numbered, v)) && !numbered && v@ == search_hits(
            records(env.bookmarks@),
            join(strs(args@), seq![' ']),
        ),
{
    proof {
        reveal_strlit(" ");
        assert(" "@ =~= seq![' ']);
    }
    let q = join_with(args, " ");
    let mut v: Vec<usize> = Vec::new();
    let mut i: usize = 0;
    while i < env.bookmarks.len()
        invariant
            i <= env.bookmarks@.len(),
            q@ == join(strs(args@), seq![' ']),
            " "@ == seq![' '],
            v@ == search_hits(records(env.bookmarks@.take(i as int)), q@),
        decreases env.bookmarks@.len() - i,
    {
        let b = &env.bookmarks[i];
        let blob = join_with(&b.tags, " ");
        let hit = has_substring(b.name.as_str(), q.as_str()) || has_substring(
            blob.as_str(),
            q.as_str(),
        );
        let ghost rs = records(env.bookmarks@.take(i as int + 1));
        assert(rs.drop_last() =~= records(env.bookmarks@.take(i as int)));
        assert(rs.last() == b@);
        assert(hit == is_hit(b@, q@));
        assert(rs.len() == i + 1);
        if hit {
            v.push(i);
        }
        assert(v@ == search_hits(rs, q@));
        i = i + 1;
    }
    assert(env.bookmarks@.take(env.bookmarks@.len() as int) =~= env.bookmarks@);
    Ok(Effect::Show(false, v))
}

/// Removes the bookmark at the position that the first argument writes.
pub fn run_remove(env: &mut Env, args: &Vec<String>) -> (r: Result<Effect, String>)
    ensures
        runs(*old(env), *final(env), Action::Remove, strs(args@), r),
{
    if args.len() == 0 {
        return Err("missing index".to_owned());
    }
    match parse_index(args[0].as_str()) {
        Some(n) => {
            if n < env.bookmarks.len() {
                let ghost before = env.bookmarks@;
                env.bookmarks.remove(n);
                assert(records(env.bookmarks@) =~= records(before).remove(n as int));
                message("removed bookmark")
            } else {
                Err("invalid index".to_owned())
            }
        },
        None => Err("invalid index".to_owned()),
    }
}

/// Removes every bookmark.
pub fn run_reset(env: &mut Env) -> (r: Result<Effect, String>)
    ensures
        runs(*old(env), *final(env), Action::Reset, seq![], r),
{
    env.bookmarks.clear();
    assert(records(env.bookmarks@) =~= seq![]);
    message("reset bookmarks")
}

} // verus!
