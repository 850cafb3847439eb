use crate::text::{
    chars_of, is_word, lemma_find_from_at, lemma_words_of_join, contains, find_char, find_from, join, join_with, slice, split_words, strs, words,
};
use vstd::prelude::*;
use vstd::string::*;

verus! {

/// One bookmark: a name, a URL and an ordered list of tags.
#[derive(Debug)]
pub struct Bookmark {
    pub name: String,
    pub url: String,
    pub tags: Vec<String>,
}

/// What a bookmark holds, as plain sequences of characters.
pub struct Record {
    pub name: Seq<char>,
    pub url: Seq<char>,
    pub tags: Seq<Seq<char>>,
}

impl View for Bookmark {
    type V = Record;

    open spec fn view(&self) -> Record {
        Record { name: self.name@, url: self.url@, tags: strs(self.tags@) }
    }
}

/// The record that a stored line describes: none for an empty line, a comment
/// line (`#` first) or a line with fewer than two `|`.
pub open spec fn parse_line(s: Seq<char>) -> Option<Record> {
    if s.len() == 0 || s[0] == '#' {
        None
    } else {
        let i = find_from(s, '|', 0);
        let j = find_from(s, '|', i + 1);
        if i == -1 || j == -1 {
            None
        } else {
            Some(
                Record {
                    name: s.subrange(0, i),
                    url: s.subrange(i + 1, j),
                    tags: words(s.subrange(j + 1, s.len() as int)),
                },
            )
        }
    }
}

/// The stored line of a record: `name|url|tag1 tag2 ...`.
pub open spec fn format_line(r: Record) -> Seq<char> {
    r.name + seq!['|'] + r.url + seq!['|'] + join(r.tags, seq![' '])
}

/// The tags of a record joined by commas.
pub open spec fn tag_text(r: Record) -> Seq<char> {
    join(r.tags, seq![','])
}

/// The escape sequence that ends a styled run of text on a terminal.
pub open spec fn reset_code() -> Seq<char> {
    seq!['\u{1b}', '[', '0', 'm']
}

/// `r` shows `s` either plainly or wrapped in the terminal style `code`.
pub open spec fn painted(r: Seq<char>, s: Seq<char>, code: Seq<char>) -> bool {
    r == s || r == seq!['\u{1b}', '['] + code + seq!['m'] + s + reset_code()
}

/// The style code of bold text.
pub open spec fn bold_code() -> Seq<char> {
    seq!['1']
}

/// The style code of blue text.
pub open spec fn blue_code() -> Seq<char> {
    seq!['3', '4']
}

/// `r` shows `s` in the style `code`, wherever `s` itself holds no reset sequence.
pub open spec fn shows(r: Seq<char>, s: Seq<char>, code: Seq<char>) -> bool {
    contains(s, reset_code()) || painted(r, s, code)
}

/// The human-oriented line of a bookmark: `name (url) tag1, tag2`.
pub open spec fn pretty_text(name: Seq<char>, url: Seq<char>, tags: Seq<Seq<char>>) -> Seq<char> {
    name + seq![' ', '('] + url + seq![')', ' '] + join(tags, seq![',', ' '])
}

/// `t` is the human-oriented line of `r`, each part plain or styled.
pub open spec fn looks(t: Seq<char>, r: Record) -> bool {
    exists|n: Seq<char>, u: Seq<char>, ts: Seq<Seq<char>>|
        {
            &&& shows(n, r.name, bold_code())
            &&& shows(u, r.url, blue_code())
            &&& ts.len() == r.tags.len()
            &&& forall|k: int| 0 <= k < ts.len() ==> shows(#[trigger] ts[k], r.tags[k], bold_code())
            &&& t == pretty_text(n, u, ts)
        }
}

/// Relies on colored's `Colorize::bold` and the `Display` of `ColoredString`:
/// the text as it is, or wrapped in the bold escape and the reset escape.
#[verifier::external_body]
fn bold(s: &str) -> (r: String)
    ensures
        shows(r@, s@, bold_code()),
{
    colored::Colorize::bold(s).to_string()
}

/// Relies on colored's `Colorize::blue` and the `Display` of `ColoredString`:
/// the text as it is, or wrapped in the blue escape and the reset escape.
#[verifier::external_body]
fn blue(s: &str) -> (r: String)
    ensures
        shows(r@, s@, blue_code()),
{
    colored::Colorize::blue(s).to_string()
}

impl Bookmark {
    pub fn new(name: String, url: String, tags: Vec<String>) -> (r: Bookmark)
        ensures
            r@ == (Record { name: name@, url: url@, tags: strs(tags@) }),
    {
        Bookmark { name, url, tags }
    }

    /// Reads one stored line.
    pub fn deserialize(line: &str) -> (r: Option<Bookmark>)
        ensures
            match r {
                Some(b) => parse_line(line@) == Some(b@),
                None => parse_line(line@).is_none(),
            },
    {
        let cs = chars_of(line);
        let n = cs.len();
        if n == 0 || cs[0] == '#' {
            return None;
        }
        let i = find_char(&cs, '|', 0);
        if i == n {
            return None;
        }
        let j = find_char(&cs, '|', i + 1);
        if j == n {
            return None;
        }
        let name = slice(line, 0, i);
        let url = slice(line, i + 1, j);
        let blob = slice(line, j + 1, n);
        let tags = split_words(blob.as_str());
        Some(Bookmark { name, url, tags })
    }

    /// The tags joined by commas.
    pub fn tag_str(&self) -> (r: String)
        ensures
            r@ == tag_text(self@),
    {
        proof {
            reveal_strlit(",");
            assert(","@ =~= seq![',']);
        }
        join_with(&self.tags, ",")
    }

    /// The stored line of this bookmark.
    pub fn serialize(&self) -> (r: String)
        ensures
            r@ == format_line(self@),
    {
        proof {
            reveal_strlit("|");
            reveal_strlit(" ");
            assert("|"@ =~= seq!['|']);
            assert(" "@ =~= seq![' ']);
        }
        let mut r = String::new();
        r.append(self.name.as_str());
        r.append("|");
        r.append(self.url.as_str());
        r.append("|");
        let blob = join_with(&self.tags, " ");
        r.append(blob.as_str());
        r
    }

    /// The human-oriented line of this bookmark, with the name and the tags in
    /// bold and the URL in blue where the terminal takes styles.
    pub fn pretty(&self) -> (r: String)
        ensures
            looks(r@, self@),
    {
        let n = bold(self.name.as_str());
        let u = blue(self.url.as_str());
        let mut ts: Vec<String> = Vec::new();
        let mut i: usize = 0;
        while i < self.tags.len()
            invariant
                i <= self.tags@.len(),
                ts@.len() == i,
                forall|k: int| 0 <= k < i ==> shows(#[trigger] ts@[k]@, self.tags@[k]@, bold_code()),
            decreases self.tags@.len() - i,
        {
            let t = bold(self.tags[i].as_str());
            ts.push(t);
            i = i + 1;
        }
        let r = pretty_from(n.as_str(), u.as_str(), &ts);
        assert(forall|k: int| 0 <= k < ts@.len() ==> shows(#[trigger] strs(ts@)[k], self@.tags[k], bold_code()));
        assert(looks(r@, self@)) by {
            let w = strs(ts@);
            assert(w.len() == self@.tags.len());
        }
        r
    }
}

/// The human-oriented line of a bookmark from its already styled parts.
pub fn pretty_from(name: &str, url: &str, tags: &Vec<String>) -> (r: String)
    ensures
        r@ == pretty_text(name@, url@, strs(tags@)),
{
    proof {
        reveal_strlit(" (");
        reveal_strlit(") ");
        reveal_strlit(", ");
        assert(" ("@ =~= seq![' ', '(']);
        assert(") "@ =~= seq![')', ' ']);
        assert(", "@ =~= seq![',', ' ']);
    }
    let mut r = String::new();
    r.append(name);
    r.append(" (");
    r.append(url);
    r.append(") ");
    let joined = join_with(tags, ", ");
    r.append(joined.as_str());
    r
}

/// No `|` and no newline in `f`.
pub open spec fn plain_field(f: Seq<char>) -> bool {
    forall|k: int| 0 <= k < f.len() ==> #[trigger] f[k] != '|' && f[k] != '\n'
}

/// A record that its stored line describes exactly: plain name and URL, a name
/// that does not open with `#`, and tags that are non-empty runs of
/// non-whitespace characters.
pub open spec fn storable(r: Record) -> bool {
    &&& plain_field(r.name)
    &&& plain_field(r.url)
    &&& (r.name.len() == 0 || r.name[0] != '#')
    &&& forall|k: int| 0 <= k < r.tags.len() ==> is_word(#[trigger] r.tags[k])
}

/// Reading back the stored line of a storable record gives the same record,
/// field for field, with the tags in their order.
pub proof fn lemma_round_trip(r: Record)
    requires
        storable(r),
    ensures
        parse_line(format_line(r)) == Some(r),
{
    let s = format_line(r);
    let a = r.name.len() as int;
    let b = r.url.len() as int;
    let blob = join(r.tags, seq![' ']);
    assert(s =~= r.name + seq!['|'] + r.url + seq!['|'] + blob);
    assert(s[a] == '|');
    assert(forall|m: int| 0 <= m < a ==> s[m] == r.name[m]);
    lemma_find_from_at(s, '|', 0, a);
    assert(s[a + 1 + b] == '|');
    assert(forall|m: int| a + 1 <= m < a + 1 + b ==> s[m] == r.url[m - a - 1]);
    lemma_find_from_at(s, '|', a + 1, a + 1 + b);
    assert(s.subrange(0, a) =~= r.name);
    assert(s.subrange(a + 1, a + 1 + b) =~= r.url);
    assert(s.subrange(a + 2 + b, s.len() as int) =~= blob);
    lemma_words_of_join(r.tags);
    if a > 0 {
        assert(s[0] == r.name[0]);
    }
    assert(s.len() > 0 && s[0] != '#');
}

} // verus!
