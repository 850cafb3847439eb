use vstd::prelude::*;
use vstd::string::*;

verus! {

/// The characters with Unicode's White_Space property.
pub open spec fn is_ws(c: char) -> bool {
    let n = c as u32;
    (9 <= n && n <= 13) || n == 32 || n == 0x85 || n == 0xa0 || n == 0x1680 || (0x2000 <= n
        && n <= 0x200a) || n == 0x2028 || n == 0x2029 || n == 0x202f || n == 0x205f || n == 0x3000
}

/// The maximal runs of non-whitespace characters of `s`, in order.
pub open spec fn words(s: Seq<char>) -> Seq<Seq<char>>
    decreases s.len(),
{
    if s.len() == 0 {
        seq![]
    } else {
        let c = s.last();
        let w = words(s.drop_last());
        if is_ws(c) {
            w
        } else if s.len() >= 2 && !is_ws(s[s.len() - 2]) {
            w.update(w.len() - 1, w.last().push(c))
        } else {
            w.push(seq![c])
        }
    }
}

/// The elements of `ws` with `sep` between each two neighbours.
pub open spec fn join(ws: Seq<Seq<char>>, sep: Seq<char>) -> Seq<char>
    decreases ws.len(),
{
    if ws.len() == 0 {
        seq![]
    } else if ws.len() == 1 {
        ws[0]
    } else {
        join(ws.drop_last(), sep) + sep + ws.last()
    }
}

/// `needle` occurs in `hay` at some position.
pub open spec fn contains(hay: Seq<char>, needle: Seq<char>) -> bool {
    exists|i: int|
        0 <= i <= hay.len() - needle.len() && #[trigger] hay.subrange(i, i + needle.len())
            == needle
}

/// The views of a sequence of strings.
pub open spec fn strs(v: Seq<String>) -> Seq<Seq<char>> {
    v.map_values(|x: String| x@)
}

pub fn is_whitespace(c: char) -> (r: bool)
    ensures
        r == is_ws(c),
{
    let n = c as u32;
    (9 <= n && n <= 13) || n == 32 || n == 0x85 || n == 0xa0 || n == 0x1680 || (0x2000 <= n
        && n <= 0x200a) || n == 0x2028 || n == 0x2029 || n == 0x202f || n == 0x205f || n == 0x3000
}

/// The characters of `s`, one by one.
pub fn chars_of(s: &str) -> (v: Vec<char>)
    ensures
        v@ == s@,
{
    let n = s.unicode_len();
    let mut v: Vec<char> = Vec::new();
    let mut i: usize = 0;
    while i < n
        invariant
            n == s@.len(),
            i <= n,
            v@ == s@.take(i as int),
        decreases n - i,
    {
        let c = s.get_char(i);
        v.push(c);
        i = i + 1;
        assert(v@ =~= s@.take(i as int));
    }
    assert(v@ =~= s@);
    v
}

/// The characters `s[from..to]`, counted in characters, as a new string.
pub fn slice(s: &str, from: usize, to: usize) -> (r: String)
    requires
        from <= to <= s@.len(),
    ensures
        r@ == s@.subrange(from as int, to as int),
{
    s.substring_char(from, to).to_owned()
}

/// The whitespace-separated words of `s`, in order.
pub fn split_words(s: &str) -> (r: Vec<String>)
    ensures
        strs(r@) == words(s@),
{
    let cs = chars_of(s);
    let n = cs.len();
    let mut out: Vec<String> = Vec::new();
    let mut start: usize = 0;
    let mut in_word = false;
    let mut i: usize = 0;
    while i < n
        invariant
            n == cs@.len(),
            cs@ == s@,
            i <= n,
            !in_word ==> strs(out@) == words(s@.take(i as int)),
            !in_word && i > 0 ==> is_ws(s@[i - 1]),
            in_word ==> start < i && !is_ws(s@[i - 1]),
            in_word ==> strs(out@).push(s@.subrange(start as int, i as int)) == words(
                s@.take(i as int),
            ),
        decreases n - i,
    {
        let c = cs[i];
        let ghost pre = s@.take(i as int);
        let ghost cur = s@.take(i as int + 1);
        assert(cur.drop_last() =~= pre);
        assert(cur.last() == c);
        if is_whitespace(c) {
            if in_word {
                let w = slice(s, start, i);
                let ghost before = out@;
                out.push(w);
                assert(strs(out@) =~= strs(before).push(s@.subrange(start as int, i as int)));
            }
            in_word = false;
        } else {
            if !in_word {
                start = i;
                in_word = true;
                assert(s@.subrange(start as int, i as int + 1) =~= seq![c]);
            } else {
                assert(s@.subrange(start as int, i as int + 1) =~= s@.subrange(
                    start as int,
                    i as int,
                ).push(c));
            }
        }
        i = i + 1;
    }
    if in_word {
        let w = slice(s, start, n);
        let ghost before = out@;
        out.push(w);
        assert(strs(out@) =~= strs(before).push(s@.subrange(start as int, n as int)));
    }
    assert(s@.take(n as int) =~= s@);
    proof {
        assert(strs(out@) =~= words(s@));
    }
    out
}

/// The elements of `v` with `sep` between each two neighbours.
pub fn join_with(v: &Vec<String>, sep: &str) -> (r: String)
    ensures
        r@ == join(strs(v@), sep@),
{
    let mut r = String::new();
    let mut i: usize = 0;
    while i < v.len()
        invariant
            i <= v@.len(),
            r@ == join(strs(v@.take(i as int)), sep@),
        decreases v@.len() - i,
    {
        let ghost prev = strs(v@.take(i as int));
        let ghost next = strs(v@.take(i as int + 1));
        assert(next.drop_last() =~= prev);
        assert(next.last() == v@[i as int]@);
        if i > 0 {
            r.append(sep);
        } else {
            assert(join(next, sep@) == next[0]);
        }
        r.append(v[i].as_str());
        i = i + 1;
    }
    assert(v@.take(v@.len() as int) =~= v@);
    r
}

/// The position of the first `c` in `s` at or after `k`, or `-1` when none is there.
pub open spec fn find_from(s: Seq<char>, c: char, k: int) -> int
    decreases s.len() - k,
{
    if k < 0 || k >= s.len() {
        -1
    } else if s[k] == c {
        k
    } else {
        find_from(s, c, k + 1)
    }
}

pub proof fn lemma_find_from_bounds(s: Seq<char>, c: char, k: int)
    requires
        0 <= k,
    ensures
        find_from(s, c, k) == -1 || (k <= find_from(s, c, k) < s.len() && s[find_from(s, c, k)]
            == c),
        forall|m: int| k <= m < s.len() && (m < find_from(s, c, k) || find_from(s, c, k) == -1) ==> s[m] != c,
    decreases s.len() - k,
{
    if k < s.len() && s[k] != c {
        lemma_find_from_bounds(s, c, k + 1);
    }
}

/// Where `c` occurs in `v` at or after `from`; `v.len()` stands for nowhere.
pub fn find_char(v: &Vec<char>, c: char, from: usize) -> (r: usize)
    requires
        from <= v@.len(),
    ensures
        from <= r <= v@.len(),
        r == v@.len() <==> find_from(v@, c, from as int) == -1,
        r < v@.len() ==> r == find_from(v@, c, from as int),
{
    let mut i: usize = from;
    while i < v.len()
        invariant
            from <= i <= v@.len(),
            find_from(v@, c, from as int) == find_from(v@, c, i as int),
        decreases v@.len() - i,
    {
        if v[i] == c {
            return i;
        }
        i = i + 1;
    }
    i
}

/// Whether `needle` occurs in `hay`.
pub fn has_substring(hay: &str, needle: &str) -> (r: bool)
    ensures
        r == contains(hay@, needle@),
{
    let h = chars_of(hay);
    let n = chars_of(needle);
    if n.len() > h.len() {
        return false;
    }
    if n.len() == 0 {
        assert(hay@.subrange(0, 0 + needle@.len() as int) =~= needle@);
        return true;
    }
    let hlen = h.len();
    let last = hlen - n.len();
    let mut i: usize = 0;
    while i <= last
        invariant
            h@ == hay@,
            n@ == needle@,
            last == h@.len() - n@.len(),
            hlen == h@.len(),
            0 < n@.len() <= h@.len(),
            i <= last + 1,
            forall|k: int| 0 <= k < i ==> #[trigger] h@.subrange(k, k + n@.len()) != n@,
        decreases last + 1 - i,
    {
        let mut j: usize = 0;
        let mut same = true;
        while j < n.len()
            invariant
                h@ == hay@,
                n@ == needle@,
                i <= last,
                last == h@.len() - n@.len(),
                hlen == h@.len(),
                n@.len() <= h@.len(),
                j <= n@.len(),
                same == (forall|m: int| 0 <= m < j ==> h@[i + m] == n@[m]),
            decreases n@.len() - j,
        {
            if h[i + j] != n[j] {
                same = false;
            }
            j = j + 1;
        }
        if same {
            assert(h@.subrange(i as int, i + n@.len()) =~= n@);
            return true;
        }
        assert(h@[i + (choose|m: int| 0 <= m < n@.len() && h@[i + m] != n@[m])] != n@[(choose|m: int| 0 <= m < n@.len() && h@[i + m] != n@[m])]);
        i = i + 1;
    }
    assert(!contains(hay@, needle@));
    false
}

/// A non-empty run of non-whitespace characters.
pub open spec fn is_word(t: Seq<char>) -> bool {
    t.len() > 0 && forall|m: int| 0 <= m < t.len() ==> !is_ws(#[trigger] t[m])
}

pub proof fn lemma_words_single(t: Seq<char>)
    requires
        is_word(t),
    ensures
        words(t) == seq![t],
    decreases t.len(),
{
    if t.len() == 1 {
        assert(!is_ws(t[0]));
        assert(t.drop_last() =~= Seq::<char>::empty());
        assert(words(t.drop_last()) =~= Seq::<Seq<char>>::empty());
        assert(seq![t[0]] =~= t);
        assert(words(t) =~= seq![t]);
    } else {
        let p = t.drop_last();
        assert(!is_ws(t[t.len() - 2]));
        assert(!is_ws(t[t.len() - 1]));
        lemma_words_single(p);
        assert(p.push(t.last()) =~= t);
        assert(words(t) =~= seq![t]);
    }
}

pub proof fn lemma_words_after_space(x: Seq<char>, t: Seq<char>)
    requires
        is_word(t),
    ensures
        words(x + seq![' '] + t) == words(x).push(t),
    decreases t.len(),
{
    let s = x + seq![' '] + t;
    let c = t.last();
    assert(!is_ws(t[t.len() - 1]));
    assert(is_ws(' '));
    assert((x + seq![' ']).drop_last() =~= x);
    assert((x + seq![' ']).last() == ' ');
    assert(words(x + seq![' ']) == words(x));
    if t.len() == 1 {
        assert(s.drop_last() =~= x + seq![' ']);
        assert(s[s.len() - 2] == ' ');
        assert(s.last() == c);
        assert(seq![c] =~= t);
        assert(words(s) =~= words(x).push(t));
    } else {
        let p = t.drop_last();
        assert(!is_ws(t[t.len() - 2]));
        lemma_words_after_space(x, p);
        assert(s.drop_last() =~= x + seq![' '] + p);
        assert(s[s.len() - 2] == t[t.len() - 2]);
        assert(p.push(c) =~= t);
        assert(words(s) =~= words(x).push(t));
    }
}

/// Splitting words joined by single spaces gives the words back.
pub proof fn lemma_words_of_join(ts: Seq<Seq<char>>)
    requires
        forall|k: int| 0 <= k < ts.len() ==> is_word(#[trigger] ts[k]),
    ensures
        words(join(ts, seq![' '])) == ts,
    decreases ts.len(),
{
    if ts.len() == 0 {
        assert(words(join(ts, seq![' '])) =~= ts);
    } else if ts.len() == 1 {
        lemma_words_single(ts[0]);
        assert(seq![ts[0]] =~= ts);
    } else {
        let p = ts.drop_last();
        assert(forall|k: int| 0 <= k < p.len() ==> #[trigger] p[k] == ts[k]);
        lemma_words_of_join(p);
        assert(is_word(ts[ts.len() - 1]));
        lemma_words_after_space(join(p, seq![' ']), ts.last());
        assert(p.push(ts.last()) =~= ts);
    }
}

/// `find_from` lands on the first `c` at or after `k`.
pub proof fn lemma_find_from_at(s: Seq<char>, c: char, k: int, p: int)
    requires
        0 <= k <= p < s.len(),
        s[p] == c,
        forall|m: int| k <= m < p ==> s[m] != c,
    ensures
        find_from(s, c, k) == p,
    decreases p - k,
{
    if k < p {
        lemma_find_from_at(s, c, k + 1, p);
    }
}

/// Every word that `words` gives is a non-empty run of non-whitespace characters.
pub proof fn lemma_words_are_words(s: Seq<char>)
    ensures
        forall|k: int| 0 <= k < words(s).len() ==> is_word(#[trigger] words(s)[k]),
    decreases s.len(),
{
    if s.len() > 0 {
        let p = s.drop_last();
        lemma_words_are_words(p);
        let w = words(p);
        let c = s.last();
        if !is_ws(c) {
            if s.len() >= 2 && !is_ws(s[s.len() - 2]) {
                assert(w.len() > 0) by {
                    lemma_words_nonempty(p);
                }
                let t = w.last().push(c);
                assert(is_word(w.last()));
                assert forall|m: int| 0 <= m < t.len() implies !is_ws(#[trigger] t[m]) by {
                    if m < t.len() - 1 {
                        assert(t[m] == w.last()[m]);
                    }
                }
                assert(forall|k: int| 0 <= k < w.len() - 1 ==> words(s)[k] == w[k]);
            } else {
                assert(forall|k: int| 0 <= k < w.len() ==> words(s)[k] == w[k]);
                assert(words(s)[w.len() as int] =~= seq![c]);
            }
        }
    }
}

/// A string whose last character is not whitespace has at least one word.
pub proof fn lemma_words_nonempty(s: Seq<char>)
    requires
        s.len() > 0,
        !is_ws(s.last()),
    ensures
        words(s).len() > 0,
    decreases s.len(),
{
    let p = s.drop_last();
    if s.len() >= 2 && !is_ws(s[s.len() - 2]) {
        assert(p.last() == s[s.len() - 2]);
        lemma_words_nonempty(p);
    }
}

pub open spec fn is_digit(c: char) -> bool {
    '0' <= c && c <= '9'
}

/// The number that a run of decimal digits writes.
pub open spec fn digits_value(s: Seq<char>) -> nat
    decreases s.len(),
{
    if s.len() == 0 {
        0
    } else {
        digits_value(s.drop_last()) * 10 + (s.last() as nat - '0' as nat) as nat
    }
}

/// The digits of an unsigned number's text: all of it, or what follows a leading `+`.
pub open spec fn unsigned_digits(s: Seq<char>) -> Seq<char> {
    if s.len() > 0 && s[0] == '+' {
        s.skip(1)
    } else {
        s
    }
}

/// The `usize` that `s` writes in decimal, with an optional leading `+`, or none
/// when `s` is no such text or the number does not fit.
pub open spec fn index_value(s: Seq<char>) -> Option<nat> {
    if all_digits(unsigned_digits(s)) && digits_value(unsigned_digits(s)) <= usize::MAX {
        Some(digits_value(unsigned_digits(s)))
    } else {
        None
    }
}

/// A non-empty run of decimal digits.
pub open spec fn all_digits(d: Seq<char>) -> bool {
    d.len() > 0 && forall|k: int| 0 <= k < d.len() ==> is_digit(#[trigger] d[k])
}

/// Reads a position written in decimal.
pub fn parse_index(s: &str) -> (r: Option<usize>)
    ensures
        match r {
            Some(n) => index_value(s@) == Some(n as nat),
            None => index_value(s@).is_none(),
        },
{
    let cs = chars_of(s);
    let n = cs.len();
    let start: usize = if n > 0 && cs[0] == '+' { 1 } else { 0 };
    let ghost d = unsigned_digits(s@);
    assert(d =~= s@.subrange(start as int, n as int));
    if start == n {
        assert(d.len() == 0);
        return None;
    }
    let mut acc: usize = 0;
    let mut big = false;
    let mut i: usize = start;
    while i < n
        invariant
            cs@ == s@,
            n == cs@.len(),
            start <= i <= n,
            d == s@.subrange(start as int, n as int),
            d == unsigned_digits(s@),
            forall|k: int| 0 <= k < i - start ==> is_digit(#[trigger] d[k]),
            !big ==> acc == digits_value(d.take(i - start)),
            big ==> digits_value(d.take(i - start)) > usize::MAX,
        decreases n - i,
    {
        let c = cs[i];
        if !('0' <= c && c <= '9') {
            assert(!is_digit(d[i - start]));
            assert(!all_digits(d));
            return None;
        }
        let dg = (c as u32 - '0' as u32) as usize;
        let ghost prev = d.take(i - start);
        let ghost next = d.take(i - start + 1);
        assert(next.drop_last() =~= prev);
        assert(next.last() == c);
        assert(digits_value(next) == digits_value(prev) * 10 + dg);
        if !big {
            match acc.checked_mul(10) {
                Some(m) => match m.checked_add(dg) {
                    Some(v) => {
                        acc = v;
                    },
                    None => {
                        big = true;
                    },
                },
                None => {
                    big = true;
                },
            }
        } else {
            assert(digits_value(prev) * 10 + dg >= digits_value(prev)) by (nonlinear_arith);
        }
        i = i + 1;
    }
    assert(d.take(n - start) =~= d);
    if big {
        None
    } else {
        Some(acc)
    }
}

} // verus!
