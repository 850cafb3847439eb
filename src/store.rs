use crate::data::{format_line, lemma_round_trip, parse_line, plain_field, storable, Bookmark, Record};
use crate::text::{lemma_find_from_bounds, lemma_words_are_words, strs};
use vstd::prelude::*;

verus! {

/// The name of the file that the shell reads at startup and writes by default.
pub const DEFAULT_FILE: &'static str = "bookmarks.qm";

/// The records that a sequence of bookmarks holds.
pub open spec fn records(v: Seq<Bookmark>) -> Seq<Record> {
    v.map_values(|b: Bookmark| b@)
}

/// The records of the lines that describe one, in the order of the lines.
pub open spec fn parse_all(ls: Seq<Seq<char>>) -> Seq<Record>
    decreases ls.len(),
{
    if ls.len() == 0 {
        seq![]
    } else {
        match parse_line(ls.last()) {
            Some(r) => parse_all(ls.drop_last()).push(r),
            None => parse_all(ls.drop_last()),
        }
    }
}

/// The stored lines of records, one per record, in order.
pub open spec fn format_all(rs: Seq<Record>) -> Seq<Seq<char>> {
    rs.map_values(|r: Record| format_line(r))
}

/// No line holds a newline.
pub open spec fn single_lines(ls: Seq<Seq<char>>) -> bool {
    forall|k: int, m: int| 0 <= k < ls.len() && 0 <= m < ls[k].len() ==> #[trigger] ls[k][m] != '\n'
}

/// The bookmarks that the lines of a stored file describe; comments, blank
/// lines and malformed lines are skipped.
pub fn load_lines(lines: &Vec<String>) -> (r: Vec<Bookmark>)
    ensures
        records(r@) == parse_all(strs(lines@)),
{
    let mut out: Vec<Bookmark> = Vec::new();
    let mut i: usize = 0;
    while i < lines.len()
        invariant
            i <= lines@.len(),
            records(out@) == parse_all(strs(lines@.take(i as int))),
        decreases lines@.len() - i,
    {
        let ghost prev = strs(lines@.take(i as int));
        let ghost next = strs(lines@.take(i as int + 1));
        assert(next.drop_last() =~= prev);
        assert(next.last() == lines@[i as int]@);
        let ghost before = out@;
        match Bookmark::deserialize(lines[i].as_str()) {
            Some(b) => {
                out.push(b);
                assert(records(out@) =~= records(before).push(out@.last()@));
            },
            None => {},
        }
        i = i + 1;
    }
    assert(lines@.take(lines@.len() as int) =~= lines@);
    out
}

/// The stored lines of the bookmarks, one per bookmark, in order.
pub fn save_lines(bookmarks: &Vec<Bookmark>) -> (r: Vec<String>)
    ensures
        strs(r@) == format_all(records(bookmarks@)),
{
    let mut out: Vec<String> = Vec::new();
    let mut i: usize = 0;
    while i < bookmarks.len()
        invariant
            i <= bookmarks@.len(),
            strs(out@) == format_all(records(bookmarks@.take(i as int))),
        decreases bookmarks@.len() - i,
    {
        let line = bookmarks[i].serialize();
        let ghost before = out@;
        out.push(line);
        assert(records(bookmarks@.take(i as int + 1)) =~= records(bookmarks@.take(i as int)).push(
            bookmarks@[i as int]@,
        ));
        assert(strs(out@) =~= strs(before).push(line@));
        assert(format_all(records(bookmarks@.take(i as int + 1))) =~= format_all(
            records(bookmarks@.take(i as int)),
        ).push(format_line(bookmarks@[i as int]@)));
        i = i + 1;
    }
    assert(bookmarks@.take(bookmarks@.len() as int) =~= bookmarks@);
    out
}

/// A record read from a line without a newline is storable.
pub proof fn lemma_parsed_storable(s: Seq<char>)
    requires
        forall|m: int| 0 <= m < s.len() ==> s[m] != '\n',
        parse_line(s).is_some(),
    ensures
        storable(parse_line(s).unwrap()),
{
    let r = parse_line(s).unwrap();
    lemma_find_from_bounds(s, '|', 0);
    let i = crate::text::find_from(s, '|', 0);
    lemma_find_from_bounds(s, '|', i + 1);
    let j = crate::text::find_from(s, '|', i + 1);
    assert(plain_field(r.name));
    assert(plain_field(r.url));
    lemma_words_are_words(s.subrange(j + 1, s.len() as int));
}

/// Lines of storable records read back as those records.
pub proof fn lemma_parse_format_all(rs: Seq<Record>)
    requires
        forall|k: int| 0 <= k < rs.len() ==> storable(#[trigger] rs[k]),
    ensures
        parse_all(format_all(rs)) == rs,
    decreases rs.len(),
{
    if rs.len() > 0 {
        let p = rs.drop_last();
        assert(forall|k: int| 0 <= k < p.len() ==> #[trigger] p[k] == rs[k]);
        lemma_parse_format_all(p);
        lemma_round_trip(rs.last());
        assert(format_all(rs).drop_last() =~= format_all(p));
        assert(p.push(rs.last()) =~= rs);
    }
}

/// Every record read from lines without newlines is storable.
pub proof fn lemma_parse_all_storable(ls: Seq<Seq<char>>)
    requires
        single_lines(ls),
    ensures
        forall|k: int| 0 <= k < parse_all(ls).len() ==> storable(#[trigger] parse_all(ls)[k]),
    decreases ls.len(),
{
    if ls.len() > 0 {
        let p = ls.drop_last();
        assert(single_lines(p)) by {
            assert forall|k: int, m: int| 0 <= k < p.len() && 0 <= m < p[k].len() implies #[trigger] p[k][m] != '\n' by {
                assert(p[k] == ls[k]);
            }
        }
        lemma_parse_all_storable(p);
        let last = ls.last();
        if parse_line(last).is_some() {
            assert forall|m: int| 0 <= m < last.len() implies last[m] != '\n' by {
                assert(ls[ls.len() - 1][m] != '\n');
            }
            lemma_parsed_storable(last);
            assert(forall|k: int| 0 <= k < parse_all(p).len() ==> parse_all(ls)[k] == parse_all(p)[k]);
        }
    }
}

/// Saving what was loaded from lines without newlines and loading it again
/// gives the same records in the same order.
pub proof fn lemma_save_load(ls: Seq<Seq<char>>)
    requires
        single_lines(ls),
    ensures
        parse_all(format_all(parse_all(ls))) == parse_all(ls),
{
    lemma_parse_all_storable(ls);
    lemma_parse_format_all(parse_all(ls));
}

} // verus!
