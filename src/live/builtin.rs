use super::{
    find_named, position_of, unknown_command, unknown_text, Action, CmdBuilder, Command, Effect,
};
use crate::text::{join, join_with, strs};
use vstd::prelude::*;
use vstd::string::*;

verus! {

/// The registry of the shell: `echo`, `help`, then the bookmark commands.
pub open spec fn is_builtin(cmds: Seq<Command>) -> bool {
    &&& cmds.len() == 9
    &&& cmds[0].name@ == "echo"@ && cmds[0].action == Action::Echo
    &&& cmds[0].description@ == "echo arguments"@ && cmds[0].usage@ == "echo [args...]"@
    &&& cmds[1].name@ == "help"@ && cmds[1].action == Action::Help
    &&& cmds[1].description@ == "show help"@ && cmds[1].usage@ == "help [command]"@
    &&& super::bookmark::is_bookmark_cmds(cmds.skip(2))
}

pub fn cmds() -> (r: Vec<Command>)
    ensures
        is_builtin(r@),
{
    let mut r: Vec<Command> = vec![echo(), help()];
    let mut more = super::bookmark::cmds();
    let ghost m = more@;
    r.append(&mut more);
    assert(r@.skip(2) =~= m);
    r
}

pub fn echo() -> (r: Command)
    ensures
        r.name@ == "echo"@,
        r.description@ == "echo arguments"@,
        r.usage@ == "echo [args...]"@,
        r.action == Action::Echo,
{
    CmdBuilder::new("echo").description("echo arguments").usage("echo [args...]").action(
        Action::Echo,
    ).build()
}

pub fn help() -> (r: Command)
    ensures
        r.name@ == "help"@,
        r.description@ == "show help"@,
        r.usage@ == "help [command]"@,
        r.action == Action::Help,
{
    CmdBuilder::new("help").description("show help").usage("help [command]").action(
        Action::Help,
    ).build()
}

/// The line that names and describes a command.
pub open spec fn cmd_line(c: Command) -> Seq<char> {
    c.name@ + " - "@ + c.description@
}

/// What `help` prints: every command's line, or the line and the usage of the
/// command named by the first argument, or that no such command is known.
pub open spec fn help_lines(cmds: Seq<Command>, args: Seq<Seq<char>>) -> Seq<Seq<char>> {
    if args.len() == 0 {
        cmds.map_values(|c: Command| cmd_line(c))
    } else {
        let k = find_named(cmds, args[0], 0);
        if k == -1 {
            seq![unknown_text(args[0])]
        } else {
            seq![cmd_line(cmds[k]), "usage: "@ + cmds[k].usage@]
        }
    }
}

fn cmd_text(c: &Command) -> (r: String)
    ensures
        r@ == cmd_line(*c),
{
    let mut r = c.name.as_str().to_owned();
    r.append(" - ");
    r.append(c.description.as_str());
    r
}

/// Prints the arguments joined by spaces.
pub fn run_echo(args: &Vec<String>) -> (r: Result<Effect, String>)
    ensures
        r matches Ok(Effect::Print(v)) && strs(v@) == seq![join(strs(args@), seq![' '])],
{
    proof {
        reveal_strlit(" ");
        assert(" "@ =~= seq![' ']);
    }
    let line = join_with(args, " ");
    let v = vec![line];
    assert(strs(v@) =~= seq![line@]);
    Ok(Effect::Print(v))
}

/// Prints the help of every command, or of the one named by the first argument.
pub fn run_help(cmds: &Vec<Command>, args: &Vec<String>) -> (r: Result<Effect, String>)
    ensures
        r matches Ok(Effect::Print(v)) && strs(v@) == help_lines(cmds@, strs(args@)),
{
    if args.len() == 0 {
        let mut v: Vec<String> = Vec::new();
        let mut i: usize = 0;
        while i < cmds.len()
            invariant
                i <= cmds@.len(),
                strs(v@) == cmds@.take(i as int).map_values(|c: Command| cmd_line(c)),
            decreases cmds@.len() - i,
        {
            let t = cmd_text(&cmds[i]);
            let ghost before = v@;
            v.push(t);
            assert(strs(v@) =~= strs(before).push(t@));
            assert(cmds@.take(i as int + 1).map_values(|c: Command| cmd_line(c)) =~= cmds@.take(
                i as int,
            ).map_values(|c: Command| cmd_line(c)).push(cmd_line(cmds@[i as int])));
            i = i + 1;
        }
        assert(cmds@.take(cmds@.len() as int) =~= cmds@);
        Ok(Effect::Print(v))
    } else {
        let name = args[0].as_str();
        match position_of(cmds, name) {
            Some(k) => {
                let a = cmd_text(&cmds[k]);
                let mut b = "usage: ".to_owned();
                b.append(cmds[k].usage.as_str());
                let v = vec![a, b];
                assert(strs(v@) =~= seq![a@, b@]);
                Ok(Effect::Print(v))
            },
            None => {
                let a = unknown_command(name);
                let v = vec![a];
                assert(strs(v@) =~= seq![a@]);
                Ok(Effect::Print(v))
            },
        }
    }
}

} // verus!
