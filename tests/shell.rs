use slowmark::data::Bookmark;
use slowmark::live::builtin::cmds;
use slowmark::live::{Action, CmdBuilder, Context, Effect, Env};
use slowmark::store::{load_lines, save_lines};
use slowmark::text::{has_substring, parse_index, split_words};

fn strings(v: &[&str]) -> Vec<String> {
    v.iter().map(|s| s.to_string()).collect()
}

fn shell_with(lines: &[&str]) -> Env {
    let mut env = Env::new().with_builtin();
    env.autoload(&strings(lines));
    env
}

fn names(env: &Env) -> Vec<String> {
    env.bookmarks.iter().map(|b| b.name.clone()).collect()
}

fn printed(r: Result<Effect, String>) -> Vec<String> {
    match r {
        Ok(Effect::Print(v)) => v,
        other => panic!("expected printed lines, got {:?}", other),
    }
}

#[test]
fn round_trip_keeps_every_field() {
    let b = Bookmark::new(
        "Alice".to_string(),
        "http://a.com".to_string(),
        strings(&["work", "personal"]),
    );
    let line = b.serialize();
    assert_eq!(line, "Alice|http://a.com|work personal");
    let back = Bookmark::deserialize(&line).unwrap();
    assert_eq!(back.name, "Alice");
    assert_eq!(back.url, "http://a.com");
    assert_eq!(back.tags, strings(&["work", "personal"]));
}

#[test]
fn round_trip_without_tags() {
    let b = Bookmark::new("n".to_string(), "u".to_string(), Vec::new());
    assert_eq!(b.serialize(), "n|u|");
    let back = Bookmark::deserialize(&b.serialize()).unwrap();
    assert_eq!(back.name, "n");
    assert_eq!(back.url, "u");
    assert!(back.tags.is_empty());
}

#[test]
fn save_then_load_gives_the_same_records() {
    let lines = strings(&[
        "# header",
        "A|http://a|x y",
        "broken line",
        "",
        "B|http://b|  z   w ",
        "C|http://c|t|u",
    ]);
    let first = load_lines(&lines);
    let again = load_lines(&save_lines(&first));
    assert_eq!(first.len(), 3);
    assert_eq!(again.len(), first.len());
    for (a, b) in first.iter().zip(again.iter()) {
        assert_eq!(a.name, b.name);
        assert_eq!(a.url, b.url);
        assert_eq!(a.tags, b.tags);
    }
    assert_eq!(again[1].tags, strings(&["z", "w"]));
    assert_eq!(again[2].tags, strings(&["t|u"]));
}

#[test]
fn comments_and_blank_lines_are_skipped() {
    let text = "# comment\n\nAlice|http://a.com|work personal\n";
    let lines: Vec<String> = text.lines().map(|l| l.to_string()).collect();
    let loaded = load_lines(&lines);
    assert_eq!(loaded.len(), 1);
    assert_eq!(loaded[0].name, "Alice");
    assert_eq!(loaded[0].url, "http://a.com");
    assert_eq!(loaded[0].tags, strings(&["work", "personal"]));
}

#[test]
fn malformed_lines_read_as_nothing() {
    assert!(Bookmark::deserialize("").is_none());
    assert!(Bookmark::deserialize("#a|b|c").is_none());
    assert!(Bookmark::deserialize("a|b").is_none());
    assert!(Bookmark::deserialize("no bars").is_none());
}

#[test]
fn tokenization_splits_on_runs_of_whitespace() {
    let (name, args) = Context::parse("  add  Bob http://b.com  tag1 ").unwrap();
    assert_eq!(name, "add");
    assert_eq!(args, strings(&["Bob", "http://b.com", "tag1"]));
    assert!(Context::parse("   \t ").is_none());
    assert!(Context::parse("").is_none());
    let ctx = Context::new("echo a  b".to_string());
    assert_eq!(ctx.args(), strings(&["a", "b"]));
    assert_eq!(split_words("x\u{3000}y\u{a0}z"), strings(&["x", "y", "z"]));
}

#[test]
fn unknown_command_leaves_records_alone() {
    let mut env = shell_with(&["A|u|t"]);
    let r = env.handle("frobnicate".to_string());
    assert_eq!(r.unwrap_err(), "unknown command: frobnicate");
    assert_eq!(names(&env), strings(&["A"]));
}

#[test]
fn empty_line_is_an_error() {
    let mut env = shell_with(&[]);
    assert_eq!(env.handle("   ".to_string()).unwrap_err(), "empty command");
}

#[test]
fn remove_shifts_later_records_down() {
    let mut env = shell_with(&["A|a|", "B|b|", "C|c|"]);
    printed(env.handle("remove 0".to_string()));
    assert_eq!(names(&env), strings(&["B", "C"]));
}

#[test]
fn remove_out_of_range_fails_without_change() {
    let mut env = shell_with(&["A|a|", "B|b|", "C|c|"]);
    assert_eq!(env.handle("remove 5".to_string()).unwrap_err(), "invalid index");
    assert_eq!(names(&env), strings(&["A", "B", "C"]));
    assert_eq!(env.handle("remove x".to_string()).unwrap_err(), "invalid index");
    assert_eq!(env.handle("remove".to_string()).unwrap_err(), "missing index");
    assert_eq!(
        env.handle("remove 99999999999999999999999".to_string()).unwrap_err(),
        "invalid index"
    );
    printed(env.handle("remove +2".to_string()));
    assert_eq!(names(&env), strings(&["A", "B"]));
}

#[test]
fn search_matches_name_or_tag_substrings() {
    let mut env = shell_with(&["Alpha|http://a|x y", "Beta|http://b|z"]);
    match env.handle("search a".to_string()) {
        Ok(Effect::Show(false, picks)) => assert_eq!(picks, vec![0, 1]),
        other => panic!("{:?}", other),
    }
    match env.handle("search Al".to_string()) {
        Ok(Effect::Show(false, picks)) => assert_eq!(picks, vec![0]),
        other => panic!("{:?}", other),
    }
    match env.handle("search x y".to_string()) {
        Ok(Effect::Show(false, picks)) => assert_eq!(picks, vec![0]),
        other => panic!("{:?}", other),
    }
    match env.handle("search q".to_string()) {
        Ok(Effect::Show(false, picks)) => assert!(picks.is_empty()),
        other => panic!("{:?}", other),
    }
}

#[test]
fn help_with_unknown_name_reports_and_succeeds() {
    let mut env = shell_with(&[]);
    assert_eq!(
        printed(env.handle("help nope".to_string())),
        strings(&["unknown command: nope"])
    );
}

#[test]
fn help_lists_and_describes_commands() {
    let mut env = shell_with(&[]);
    let all = printed(env.handle("help".to_string()));
    assert_eq!(all.len(), 9);
    assert_eq!(all[0], "echo - echo arguments");
    assert_eq!(all[8], "reset - reset all bookmarks");
    assert_eq!(
        printed(env.handle("help add".to_string())),
        strings(&["add - add a bookmark", "usage: add <name> <url> [tags...]"])
    );
}

#[test]
fn registry_order_is_fixed() {
    let names: Vec<String> = cmds().into_iter().map(|c| c.name).collect();
    assert_eq!(
        names,
        strings(&["echo", "help", "add", "list", "search", "remove", "load", "save", "reset"])
    );
}

#[test]
fn add_needs_name_and_url() {
    let mut env = shell_with(&[]);
    assert_eq!(env.handle("add".to_string()).unwrap_err(), "missing name");
    assert_eq!(env.handle("add Bob".to_string()).unwrap_err(), "missing url");
    assert!(env.bookmarks.is_empty());
    assert_eq!(
        printed(env.handle("add Bob http://b.com t1 t2".to_string())),
        strings(&["added bookmark"])
    );
    assert_eq!(env.bookmarks[0].name, "Bob");
    assert_eq!(env.bookmarks[0].url, "http://b.com");
    assert_eq!(env.bookmarks[0].tags, strings(&["t1", "t2"]));
}

#[test]
fn echo_joins_arguments() {
    let mut env = shell_with(&[]);
    assert_eq!(printed(env.handle("echo  a   b ".to_string())), strings(&["a b"]));
}

#[test]
fn reset_clears_everything() {
    let mut env = shell_with(&["A|a|", "B|b|"]);
    assert_eq!(printed(env.handle("reset".to_string())), strings(&["reset bookmarks"]));
    assert!(env.bookmarks.is_empty());
}

#[test]
fn load_and_save_hand_work_out() {
    let mut env = shell_with(&["A|a|t"]);
    match env.handle("load other.qm".to_string()) {
        Ok(Effect::Load(Some(f))) => assert_eq!(f, "other.qm"),
        other => panic!("{:?}", other),
    }
    match env.handle("load".to_string()) {
        Ok(Effect::Load(None)) => {}
        other => panic!("{:?}", other),
    }
    match env.handle("save".to_string()) {
        Ok(Effect::Save(None, lines)) => assert_eq!(lines, strings(&["A|a|t"])),
        other => panic!("{:?}", other),
    }
    env.finish_load(&strings(&["B|b|", "# c"]));
    assert_eq!(names(&env), strings(&["A", "B"]));
}

#[test]
fn list_numbers_every_record() {
    let mut env = shell_with(&["A|a|x", "B|b|"]);
    match env.handle("list".to_string()) {
        Ok(Effect::Show(true, picks)) => {
            assert_eq!(picks, vec![0, 1]);
            let lines = env.render(true, &picks);
            assert!(lines[0].starts_with("0. "));
            assert!(lines[1].starts_with("1. "));
            assert!(lines[0].contains('A') && lines[0].contains('x'));
        }
        other => panic!("{:?}", other),
    }
}

#[test]
fn render_writes_positions_in_decimal() {
    let rows: Vec<String> = (0..13).map(|i| format!("n{}|u|", i)).collect();
    let mut env = Env::new().with_builtin();
    env.autoload(&rows);
    let lines = env.render(true, &vec![12]);
    assert!(lines[0].starts_with("12. "));
    let plain = env.render(false, &vec![3]);
    assert!(plain[0].contains("n3"));
}

#[test]
fn pretty_shows_name_url_and_tags() {
    let b = Bookmark::new("N".to_string(), "U".to_string(), strings(&["a", "b"]));
    let p = b.pretty();
    assert!(p.contains('N') && p.contains("(") && p.contains('U') && p.contains(", "));
    assert_eq!(b.tag_str(), "a,b");
}

#[test]
fn prompt_follows_last_result() {
    let mut env = shell_with(&[]);
    assert_eq!(env.prompt(), ">> ");
    env.finish(Err("x".to_string()));
    assert_eq!(env.prompt(), "!> ");
    env.finish(Ok(()));
    assert_eq!(env.prompt(), ">> ");
}

#[test]
fn builder_defaults_and_setters() {
    let c = CmdBuilder::new("x").build();
    assert_eq!(c.name, "x");
    assert_eq!(c.description, "");
    assert_eq!(c.usage, "");
    assert_eq!(c.action, Action::Nothing);
    let d = CmdBuilder::new("y").description("d").usage("u").action(Action::Echo).build();
    assert_eq!((d.description.as_str(), d.usage.as_str(), d.action), ("d", "u", Action::Echo));
    let env = shell_with(&[]);
    assert_eq!(env.find_command("list").unwrap().name, "list");
    assert!(env.find_command("List").is_none());
}

#[test]
fn index_and_substring_helpers() {
    assert_eq!(parse_index("42"), Some(42));
    assert_eq!(parse_index("+7"), Some(7));
    assert_eq!(parse_index("+"), None);
    assert_eq!(parse_index("-1"), None);
    assert_eq!(parse_index(""), None);
    assert_eq!(parse_index("18446744073709551615"), Some(usize::MAX));
    assert_eq!(parse_index("18446744073709551616"), None);
    assert!(has_substring("Alpha", "lph"));
    assert!(!has_substring("Alpha", "x"));
    assert!(has_substring("", ""));
}
