use vstd::prelude::*;
use vstd::string::*;

verus! {

/// The characters that `char::is_whitespace` accepts: the Unicode
/// White_Space property.
pub open spec fn is_space(c: char) -> bool {
    let n = c as u32;
    (9 <= n && n <= 13) || n == 32 || n == 0x85 || n == 0xA0 || n == 0x1680 || (0x2000 <= n
        && n <= 0x200A) || n == 0x2028 || n == 0x2029 || n == 0x202F || n == 0x205F || n == 0x3000
}

pub fn is_space_char(c: char) -> (r: bool)
    ensures
        r == is_space(c),
{
    let n = c as u32;
    (9 <= n && n <= 13) || n == 32 || n == 0x85 || n == 0xA0 || n == 0x1680 || (0x2000 <= n
        && n <= 0x200A) || n == 0x2028 || n == 0x2029 || n == 0x202F || n == 0x205F || n == 0x3000
}

/// A line with one trailing carriage return removed.
pub open spec fn strip_cr(l: Seq<char>) -> Seq<char> {
    if l.len() > 0 && l.last() == '\r' {
        l.drop_last()
    } else {
        l
    }
}

/// The lines of `s` from position `i` on, where the line being read began at
/// `start`. A line ends at `\n` (an `\r` just before it is dropped); the last
/// line needs no terminator, and an empty remainder after the last `\n` is no
/// line.
pub open spec fn lines_from(s: Seq<char>, i: int, start: int) -> Seq<Seq<char>>
    decreases s.len() - i,
{
    if i >= s.len() {
        if start < s.len() {
            seq![s.subrange(start, s.len() as int)]
        } else {
            seq![]
        }
    } else if s[i] == '\n' {
        seq![strip_cr(s.subrange(start, i))] + lines_from(s, i + 1, i + 1)
    } else {
        lines_from(s, i + 1, start)
    }
}

/// The lines of a text, as `str::lines` yields them.
pub open spec fn lines(s: Seq<char>) -> Seq<Seq<char>> {
    lines_from(s, 0, 0)
}

/// The words of `s` from position `i` on, where the word being read began at
/// `start`: maximal runs of characters that are not white space.
pub open spec fn words_from(s: Seq<char>, i: int, start: int) -> Seq<Seq<char>>
    decreases s.len() - i,
{
    if i >= s.len() {
        if start < s.len() {
            seq![s.subrange(start, s.len() as int)]
        } else {
            seq![]
        }
    } else if is_space(s[i]) {
        if start < i {
            seq![s.subrange(start, i)] + words_from(s, i + 1, i + 1)
        } else {
            words_from(s, i + 1, i + 1)
        }
    } else {
        words_from(s, i + 1, start)
    }
}

/// The words of a text, as `str::split_whitespace` yields them.
pub open spec fn words(s: Seq<char>) -> Seq<Seq<char>> {
    words_from(s, 0, 0)
}

pub open spec fn views(v: Seq<String>) -> Seq<Seq<char>> {
    v.map_values(|x: String| x@)
}

/// Leading white space removed.
pub open spec fn trim_start(s: Seq<char>) -> Seq<char>
    decreases s.len(),
{
    if s.len() > 0 && is_space(s[0]) {
        trim_start(s.drop_first())
    } else {
        s
    }
}

/// Trailing NUL characters removed.
pub open spec fn trim_nul_end(s: Seq<char>) -> Seq<char>
    decreases s.len(),
{
    if s.len() > 0 && s.last() == '\0' {
        trim_nul_end(s.drop_last())
    } else {
        s
    }
}

/// `HTTP` stands in `s` at position `i`.
pub open spec fn http_at(s: Seq<char>, i: int) -> bool {
    0 <= i && i + 4 <= s.len() && s[i] == 'H' && s[i + 1] == 'T' && s[i + 2] == 'T' && s[i + 3]
        == 'P'
}

/// `s` holds `HTTP` somewhere.
pub open spec fn has_http(s: Seq<char>) -> bool {
    exists|i: int| #[trigger] http_at(s, i)
}

/// Whether a text holds `HTTP`.
pub fn contains_http(s: &str) -> (r: bool)
    ensures
        r == has_http(s@),
{
    let n = s.unicode_len();
    let mut i: usize = 0;
    while n >= 4 && i <= n - 4
        invariant
            n == s@.len(),
            i <= n,
            forall|j: int| 0 <= j < i ==> !http_at(s@, j),
        decreases n - i,
    {
        if s.get_char(i) == 'H' && s.get_char(i + 1) == 'T' && s.get_char(i + 2) == 'T'
            && s.get_char(i + 3) == 'P' {
            assert(http_at(s@, i as int));
            return true;
        }
        i += 1;
    }
    assert forall|j: int| !http_at(s@, j) by {
        if 0 <= j < i {
        } else if j >= i && j + 4 <= n {
            assert(n < 4 || i > n - 4);
        }
    }
    false
}

/// The position of the first `c` in a text, if there is one.
pub fn find_char(s: &str, c: char) -> (r: Option<usize>)
    ensures
        r matches Some(k) ==> is_first(s@, c, k as int),
        r is None ==> forall|j: int| 0 <= j < s@.len() ==> s@[j] != c,
{
    let n = s.unicode_len();
    let mut i: usize = 0;
    while i < n
        invariant
            n == s@.len(),
            i <= n,
            forall|j: int| 0 <= j < i ==> s@[j] != c,
        decreases n - i,
    {
        if s.get_char(i) == c {
            return Some(i);
        }
        i += 1;
    }
    None
}

/// A text without its leading white space.
pub fn trim_start_str(s: &str) -> (r: String)
    ensures
        r@ == trim_start(s@),
{
    let n = s.unicode_len();
    let mut i: usize = 0;
    assert(s@.subrange(0, n as int) =~= s@);
    while i < n && is_space_char(s.get_char(i))
        invariant
            n == s@.len(),
            i <= n,
            trim_start(s@.subrange(i as int, n as int)) == trim_start(s@),
        decreases n - i,
    {
        assert(s@.subrange(i as int, n as int).drop_first() =~= s@.subrange(i + 1, n as int));
        i += 1;
    }
    String::from_str(s.substring_char(i, n))
}

/// A text without its trailing NUL characters.
pub fn trim_nul_end_str(s: &str) -> (r: String)
    ensures
        r@ == trim_nul_end(s@),
{
    let mut k = s.unicode_len();
    assert(s@.subrange(0, k as int) =~= s@);
    while k > 0 && s.get_char(k - 1) == '\0'
        invariant
            k <= s@.len(),
            trim_nul_end(s@.subrange(0, k as int)) == trim_nul_end(s@),
        decreases k,
    {
        assert(s@.subrange(0, k as int).drop_last() =~= s@.subrange(0, k - 1));
        k -= 1;
    }
    String::from_str(s.substring_char(0, k))
}

/// `k` is the position of the first `c` in `s`.
pub open spec fn is_first(s: Seq<char>, c: char, k: int) -> bool {
    0 <= k < s.len() && s[k] == c && forall|j: int| 0 <= j < k ==> s[j] != c
}

pub open spec fn first_pos(s: Seq<char>, c: char) -> int {
    choose|k: int| is_first(s, c, k)
}

pub proof fn lemma_first_unique(s: Seq<char>, c: char, k: int)
    requires
        is_first(s, c, k),
    ensures
        first_pos(s, c) == k,
{
    let k2 = first_pos(s, c);
    assert(is_first(s, c, k2));
    if k2 < k {
        assert(s[k2] != c);
    } else if k < k2 {
        assert(s[k] != c);
    }
}

/// A text without a line feed is one line, taken whole.
pub proof fn lemma_lines_single(s: Seq<char>)
    requires
        s.len() > 0,
        forall|i: int| 0 <= i < s.len() ==> s[i] != '\n',
    ensures
        lines(s) == seq![s],
{
    lemma_lines_from_single(s, 0);
}

proof fn lemma_lines_from_single(s: Seq<char>, i: int)
    requires
        s.len() > 0,
        0 <= i <= s.len(),
        forall|j: int| 0 <= j < s.len() ==> s[j] != '\n',
    ensures
        lines_from(s, i, 0) == seq![s],
    decreases s.len() - i,
{
    if i < s.len() {
        lemma_lines_from_single(s, i + 1);
    } else {
        assert(s.subrange(0, s.len() as int) =~= s);
    }
}

/// A line as it can be written out: no line feed in it, and no carriage
/// return at its end.
pub open spec fn is_plain_line(l: Seq<char>) -> bool {
    (forall|i: int| 0 <= i < l.len() ==> l[i] != '\n') && !(l.len() > 0 && l.last() == '\r')
}

/// Lines written one after another, each ended by a line feed.
pub open spec fn join_lines(ls: Seq<Seq<char>>) -> Seq<char>
    decreases ls.len(),
{
    if ls.len() == 0 {
        seq![]
    } else {
        ls[0] + seq!['\n'] + join_lines(ls.drop_first())
    }
}

proof fn lemma_lines_from_shift(pre: Seq<char>, rest: Seq<char>, i: int, j: int)
    requires
        0 <= j <= i <= rest.len(),
    ensures
        lines_from(pre + rest, pre.len() + i, pre.len() + j) == lines_from(rest, i, j),
    decreases rest.len() - i,
{
    let s = pre + rest;
    let k = pre.len() as int;
    if i < rest.len() {
        assert(s[k + i] == rest[i]);
        assert(s.subrange(k + j, k + i) =~= rest.subrange(j, i));
        if rest[i] == '\n' {
            lemma_lines_from_shift(pre, rest, i + 1, i + 1);
        } else {
            lemma_lines_from_shift(pre, rest, i + 1, j);
        }
    } else {
        assert(s.subrange(k + j, s.len() as int) =~= rest.subrange(j, rest.len() as int));
    }
}

proof fn lemma_lines_from_first(l: Seq<char>, rest: Seq<char>, i: int)
    requires
        0 <= i <= l.len(),
        forall|j: int| 0 <= j < l.len() ==> l[j] != '\n',
    ensures
        lines_from(l + seq!['\n'] + rest, i, 0) == seq![strip_cr(l)] + lines_from(
            l + seq!['\n'] + rest,
            l.len() + 1 as int,
            l.len() + 1 as int,
        ),
    decreases l.len() - i,
{
    let s = l + seq!['\n'] + rest;
    if i < l.len() {
        assert(s[i] == l[i]);
        lemma_lines_from_first(l, rest, i + 1);
    } else {
        assert(s[i] == '\n');
        assert(s.subrange(0, i) =~= l);
    }
}

/// Plain lines, each written with a line feed after it, read back as the same
/// lines.
pub proof fn lemma_lines_join(ls: Seq<Seq<char>>)
    requires
        forall|i: int| 0 <= i < ls.len() ==> is_plain_line(#[trigger] ls[i]),
    ensures
        lines(join_lines(ls)) == ls,
    decreases ls.len(),
{
    if ls.len() == 0 {
        assert(lines(Seq::<char>::empty()) =~= Seq::<Seq<char>>::empty());
    } else {
        let l = ls[0];
        let rest = join_lines(ls.drop_first());
        assert(is_plain_line(ls[0]));
        assert forall|i: int| 0 <= i < ls.drop_first().len() implies is_plain_line(
            #[trigger] ls.drop_first()[i],
        ) by {
            assert(is_plain_line(ls[i + 1]));
        }
        lemma_lines_join(ls.drop_first());
        lemma_lines_from_first(l, rest, 0);
        lemma_lines_from_shift(l + seq!['\n'], rest, 0, 0);
        assert(l + seq!['\n'] + rest =~= (l + seq!['\n']) + rest);
        assert(strip_cr(l) == l);
        assert(seq![l] + ls.drop_first() =~= ls);
    }
}

/// Whether two texts are equal, character by character.
pub fn str_eq(a: &str, b: &str) -> (r: bool)
    ensures
        r == (a@ == b@),
{
    let n = a.unicode_len();
    let m = b.unicode_len();
    if n != m {
        return false;
    }
    let mut i: usize = 0;
    while i < n
        invariant
            n == a@.len(),
            m == b@.len(),
            n == m,
            i <= n,
            forall|j: int| 0 <= j < i ==> a@[j] == b@[j],
        decreases n - i,
    {
        if a.get_char(i) != b.get_char(i) {
            return false;
        }
        i += 1;
    }
    assert(a@ =~= b@);
    true
}

/// Splits a text into its lines, as `str::lines` does.
pub fn split_lines(s: &str) -> (r: Vec<String>)
    ensures
        views(r@) == lines(s@),
{
    let n = s.unicode_len();
    let mut out: Vec<String> = Vec::new();
    let mut start: usize = 0;
    let mut i: usize = 0;
    while i < n
        invariant
            n == s@.len(),
            start <= i <= n,
            views(out@) + lines_from(s@, i as int, start as int) == lines(s@),
        decreases n - i,
    {
        let c = s.get_char(i);
        if c == '\n' {
            let ghost cur = s@.subrange(start as int, i as int);
            let mut end = i;
            if end > start && s.get_char(end - 1) == '\r' {
                end = end - 1;
                assert(cur.drop_last() =~= s@.subrange(start as int, end as int));
            }
            let line = String::from_str(s.substring_char(start, end));
            assert(line@ == strip_cr(cur));
            let ghost before = out@;
            out.push(line);
            assert(views(out@) =~= views(before).push(line@));
            assert(views(out@) + lines_from(s@, i + 1, i + 1) =~= views(before) + lines_from(
                s@,
                i as int,
                start as int,
            ));
            start = i + 1;
        }
        i += 1;
    }
    if start < n {
        let line = String::from_str(s.substring_char(start, n));
        let ghost before = out@;
        out.push(line);
        assert(views(out@) =~= views(before).push(line@));
        assert(views(before) + lines_from(s@, n as int, start as int) =~= views(out@));
    } else {
        assert(views(out@) + lines_from(s@, n as int, start as int) =~= views(out@));
    }
    out
}

/// Splits a text at white space, as `str::split_whitespace` does.
pub fn split_words(s: &str) -> (r: Vec<String>)
    ensures
        views(r@) == words(s@),
{
    let n = s.unicode_len();
    let mut out: Vec<String> = Vec::new();
    let mut start: usize = 0;
    let mut i: usize = 0;
    while i < n
        invariant
            n == s@.len(),
            start <= i <= n,
            views(out@) + words_from(s@, i as int, start as int) == words(s@),
        decreases n - i,
    {
        let c = s.get_char(i);
        if is_space_char(c) {
            if start < i {
                let w = String::from_str(s.substring_char(start, i));
                let ghost before = out@;
                out.push(w);
                assert(views(out@) =~= views(before).push(w@));
                assert(views(out@) + words_from(s@, i + 1, i + 1) =~= views(before)
                    + words_from(s@, i as int, start as int));
            }
            start = i + 1;
        }
        i += 1;
    }
    if start < n {
        let w = String::from_str(s.substring_char(start, n));
        let ghost before = out@;
        out.push(w);
        assert(views(out@) =~= views(before).push(w@));
        assert(views(before) + words_from(s@, n as int, start as int) =~= views(out@));
    } else {
        assert(views(out@) + words_from(s@, n as int, start as int) =~= views(out@));
    }
    out
}

} // verus!
