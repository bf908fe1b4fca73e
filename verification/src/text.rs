//! Character-level text operations, each with its meaning over `Seq<char>`.

use vstd::prelude::*;
use vstd::string::StringExecFns;
use vstd::string::StrSliceExecFns;

verus! {

/// `String::push` appends one character.
pub assume_specification[ String::push ](s: &mut String, ch: char)
    ensures
        final(s)@ == old(s)@.push(ch),
;

/// The lower-case form of a text, as `str::to_lowercase` gives it.
pub uninterp spec fn lowercase(s: Seq<char>) -> Seq<char>;

/// `str::to_lowercase` maps a text to its Unicode lower-case form; the form
/// depends on the text alone.
pub assume_specification[ str::to_lowercase ](s: &str) -> (r: String)
    ensures
        r@ == lowercase(s@),
;

/// The text of an optional string.
pub open spec fn text_of(s: Option<String>) -> Option<Seq<char>> {
    match s {
        Some(t) => Some(t@),
        None => None,
    }
}

/// Characters with the Unicode `White_Space` property.
pub open spec fn is_space(c: char) -> bool {
    let n = c as u32;
    (0x09 <= n && n <= 0x0D) || n == 0x20 || n == 0x85 || n == 0xA0 || n == 0x1680 || (0x2000 <= n
        && n <= 0x200A) || n == 0x2028 || n == 0x2029 || n == 0x202F || n == 0x205F || n == 0x3000
}

/// Number of white-space characters at the start of `s`.
pub open spec fn leading_spaces(s: Seq<char>) -> nat
    decreases s.len(),
{
    if s.len() > 0 && is_space(s[0]) {
        1 + leading_spaces(s.drop_first())
    } else {
        0
    }
}

/// Number of white-space characters at the end of `s`.
pub open spec fn trailing_spaces(s: Seq<char>) -> nat
    decreases s.len(),
{
    if s.len() > 0 && is_space(s.last()) {
        1 + trailing_spaces(s.drop_last())
    } else {
        0
    }
}

/// `s` without its leading and trailing white space.
pub open spec fn trimmed(s: Seq<char>) -> Seq<char> {
    let t = s.skip(leading_spaces(s) as int);
    t.take(t.len() - trailing_spaces(t))
}

/// `needle` stands in `hay` at position `i`.
pub open spec fn occurs_at(hay: Seq<char>, needle: Seq<char>, i: int) -> bool {
    0 <= i && i + needle.len() <= hay.len() && hay.subrange(i, i + needle.len()) == needle
}

/// `needle` stands somewhere in `hay`.
pub open spec fn has_infix(hay: Seq<char>, needle: Seq<char>) -> bool {
    exists|i: int| occurs_at(hay, needle, i)
}

/// `s` begins with `prefix`.
pub open spec fn has_prefix(s: Seq<char>, prefix: Seq<char>) -> bool {
    occurs_at(s, prefix, 0)
}

/// `s` ends with `suffix`.
pub open spec fn has_suffix(s: Seq<char>, suffix: Seq<char>) -> bool {
    occurs_at(s, suffix, s.len() - suffix.len())
}

/// Position of the leftmost occurrence of `needle` in `hay` at or after `from`.
pub open spec fn first_match(hay: Seq<char>, needle: Seq<char>, from: int) -> Option<int>
    decreases hay.len() + 1 - from,
{
    if from < 0 || from + needle.len() > hay.len() {
        None
    } else if occurs_at(hay, needle, from) {
        Some(from)
    } else {
        first_match(hay, needle, from + 1)
    }
}

/// What [`first_match`] finds is the leftmost occurrence, and it finds one
/// whenever there is one.
pub proof fn lemma_first_match(hay: Seq<char>, needle: Seq<char>, from: int)
    requires
        0 <= from,
    ensures
        match first_match(hay, needle, from) {
            Some(i) => from <= i && occurs_at(hay, needle, i) && forall|j: int|
                from <= j < i ==> !occurs_at(hay, needle, j),
            None => forall|j: int| from <= j ==> !occurs_at(hay, needle, j),
        },
    decreases hay.len() + 1 - from,
{
    if from + needle.len() > hay.len() {
    } else if occurs_at(hay, needle, from) {
    } else {
        lemma_first_match(hay, needle, from + 1);
    }
}

/// The pieces of `s` between the occurrences of `sep`, read from `start`.
pub open spec fn pieces_from(s: Seq<char>, sep: Seq<char>, start: int) -> Seq<Seq<char>>
    decreases s.len() + 1 - start,
    when sep.len() > 0 && 0 <= start
    via pieces_from_decreases
{
    match first_match(s, sep, start) {
        Some(i) => seq![s.subrange(start, i)] + pieces_from(s, sep, i + sep.len()),
        None => seq![s.subrange(start, s.len() as int)],
    }
}

#[via_fn]
proof fn pieces_from_decreases(s: Seq<char>, sep: Seq<char>, start: int) {
    lemma_first_match(s, sep, start);
}

/// The pieces of `s` between the non-overlapping occurrences of `sep`, taken
/// from the left; with an empty `sep`, `s` itself.
pub open spec fn pieces(s: Seq<char>, sep: Seq<char>) -> Seq<Seq<char>> {
    if sep.len() == 0 {
        seq![s]
    } else {
        pieces_from(s, sep, 0)
    }
}

/// A text has at least one piece.
pub proof fn lemma_pieces_nonempty(s: Seq<char>, sep: Seq<char>)
    ensures
        pieces(s, sep).len() >= 1,
{
}

/// The parts in order with `sep` between each two.
pub open spec fn joined(parts: Seq<Seq<char>>, sep: Seq<char>) -> Seq<char>
    decreases parts.len(),
{
    if parts.len() == 0 {
        Seq::empty()
    } else if parts.len() == 1 {
        parts[0]
    } else {
        joined(parts.drop_last(), sep) + sep + parts.last()
    }
}

/// `s` with every occurrence of `from`, taken from the left, replaced by `to`.
pub open spec fn replaced(s: Seq<char>, from: Seq<char>, to: Seq<char>) -> Seq<char> {
    joined(pieces(s, from), to)
}

/// `s` without one carriage return at its end.
pub open spec fn without_cr(s: Seq<char>) -> Seq<char> {
    if s.len() > 0 && s.last() == '\r' {
        s.drop_last()
    } else {
        s
    }
}

/// The lines of a text: it is cut at each line feed, a carriage return before
/// a line feed goes with it, and an empty piece after the last line feed is no line.
pub open spec fn text_lines(s: Seq<char>) -> Seq<Seq<char>> {
    let p = pieces(s, seq!['\n']);
    let n = if p.last().len() == 0 {
        p.len() - 1
    } else {
        p.len() as int
    };
    Seq::new(
        n as nat,
        |i: int|
            if i < p.len() - 1 {
                without_cr(p[i])
            } else {
                p[i]
            },
    )
}

/// The lines that have words, trimmed.
pub open spec fn worded_lines(lines: Seq<Seq<char>>) -> Seq<Seq<char>>
    decreases lines.len(),
{
    if lines.len() == 0 {
        Seq::empty()
    } else if trimmed(lines.last()).len() > 0 {
        worded_lines(lines.drop_last()).push(trimmed(lines.last()))
    } else {
        worded_lines(lines.drop_last())
    }
}

/// The lines that have words are no more than the lines, each has text,
/// and where every line has words they are the lines, trimmed, one for one.
pub proof fn lemma_worded_lines(lines: Seq<Seq<char>>)
    ensures
        worded_lines(lines).len() <= lines.len(),
        forall|i: int| 0 <= i < worded_lines(lines).len() ==> (#[trigger] worded_lines(lines)[i]).len() > 0,
        (forall|i: int| 0 <= i < lines.len() ==> trimmed(#[trigger] lines[i]).len() > 0) ==> {
            &&& worded_lines(lines).len() == lines.len()
            &&& forall|i: int|
                0 <= i < lines.len() ==> #[trigger] worded_lines(lines)[i] == trimmed(lines[i])
        },
    decreases lines.len(),
{
    if lines.len() > 0 {
        let front = lines.drop_last();
        lemma_worded_lines(front);
        if forall|i: int| 0 <= i < lines.len() ==> trimmed(#[trigger] lines[i]).len() > 0 {
            assert forall|i: int| 0 <= i < front.len() implies trimmed(#[trigger] front[i]).len()
                > 0 by {
                assert(front[i] == lines[i]);
            }
            assert(trimmed(lines[lines.len() - 1]).len() > 0);
            assert forall|i: int| 0 <= i < lines.len() implies #[trigger] worded_lines(lines)[i]
                == trimmed(lines[i]) by {
                if i < front.len() {
                    assert(front[i] == lines[i]);
                }
            }
        }
    }
}

/// The lines one after the other, each closed by a line feed.
pub open spec fn closed_lines(lines: Seq<Seq<char>>) -> Seq<char>
    decreases lines.len(),
{
    if lines.len() == 0 {
        Seq::empty()
    } else {
        lines[0] + seq!['\n'] + closed_lines(lines.drop_first())
    }
}

/// A text that is one line when written down: no line feed in it, no
/// carriage return at its end.
pub open spec fn is_one_line(line: Seq<char>) -> bool {
    !line.contains('\n') && (line.len() == 0 || line.last() != '\r')
}

/// White space at the ends is no more than the text.
pub proof fn lemma_spaces_bounded(s: Seq<char>)
    ensures
        leading_spaces(s) <= s.len(),
        trailing_spaces(s) <= s.len(),
        leading_spaces(s) == 0 <==> (s.len() == 0 || !is_space(s[0])),
        trailing_spaces(s) == 0 <==> (s.len() == 0 || !is_space(s.last())),
    decreases s.len(),
{
    if s.len() > 0 {
        lemma_spaces_bounded(s.drop_first());
        lemma_spaces_bounded(s.drop_last());
    }
}

/// A text that trimming leaves as it is has no white space at its ends.
pub proof fn lemma_trimmed_ends(s: Seq<char>)
    requires
        trimmed(s) == s,
        s.len() > 0,
    ensures
        !is_space(s[0]),
        !is_space(s.last()),
{
    lemma_spaces_bounded(s);
    let t = s.skip(leading_spaces(s) as int);
    lemma_spaces_bounded(t);
}

/// In a line followed by a line feed, the line feed is the first to be found.
pub proof fn lemma_line_feed_found(line: Seq<char>, rest: Seq<char>, from: int)
    requires
        !line.contains('\n'),
        0 <= from <= line.len(),
    ensures
        first_match(line + seq!['\n'] + rest, seq!['\n'], from) == Some(line.len() as int),
    decreases line.len() - from,
{
    let s = line + seq!['\n'] + rest;
    let sep = seq!['\n'];
    if from < line.len() {
        assert(s.subrange(from, from + 1)[0] == s[from]);
        lemma_line_feed_found(line, rest, from + 1);
    } else {
        assert(s.subrange(from, from + 1) =~= sep);
    }
}

/// What is found in a text is found in the same place behind a prefix.
pub proof fn lemma_first_match_shift(prefix: Seq<char>, s: Seq<char>, sep: Seq<char>, from: int)
    requires
        0 <= from,
    ensures
        first_match(prefix + s, sep, prefix.len() + from) == match first_match(s, sep, from) {
            Some(i) => Some(i + prefix.len()),
            None => None,
        },
    decreases s.len() + 1 - from,
{
    let whole = prefix + s;
    if from + sep.len() <= s.len() {
        assert(whole.subrange(prefix.len() + from, prefix.len() + from + sep.len()) =~= s.subrange(
            from,
            from + sep.len(),
        ));
        if !occurs_at(s, sep, from) {
            lemma_first_match_shift(prefix, s, sep, from + 1);
        }
    }
}

/// The pieces of a text are its pieces behind a prefix.
pub proof fn lemma_pieces_from_shift(prefix: Seq<char>, s: Seq<char>, sep: Seq<char>, from: int)
    requires
        sep.len() > 0,
        0 <= from <= s.len(),
    ensures
        pieces_from(prefix + s, sep, prefix.len() + from) == pieces_from(s, sep, from),
    decreases s.len() + 1 - from,
{
    let whole = prefix + s;
    lemma_first_match_shift(prefix, s, sep, from);
    lemma_first_match(s, sep, from);
    match first_match(s, sep, from) {
        Some(i) => {
            assert(whole.subrange(prefix.len() + from, prefix.len() + i) =~= s.subrange(from, i));
            lemma_pieces_from_shift(prefix, s, sep, i + sep.len());
        },
        None => {
            assert(whole.subrange(prefix.len() + from, whole.len() as int) =~= s.subrange(
                from,
                s.len() as int,
            ));
        },
    }
}

/// Lines that are written down one after the other, each closed by a line
/// feed, are read back as they were.
pub proof fn lemma_lines_read_back(lines: Seq<Seq<char>>)
    requires
        forall|i: int| 0 <= i < lines.len() ==> is_one_line(#[trigger] lines[i]),
    ensures
        text_lines(closed_lines(lines)) == lines,
{
    lemma_pieces_of_closed_lines(lines);
}

proof fn lemma_pieces_of_closed_lines(lines: Seq<Seq<char>>)
    requires
        forall|i: int| 0 <= i < lines.len() ==> !(#[trigger] lines[i]).contains('\n'),
    ensures
        pieces(closed_lines(lines), seq!['\n']) == lines.push(Seq::empty()),
    decreases lines.len(),
{
    let sep = seq!['\n'];
    if lines.len() == 0 {
        let none = Seq::<char>::empty();
        assert(none.subrange(0, 0) =~= none);
    } else {
        let a = lines[0];
        let rest = lines.drop_first();
        let tail = closed_lines(rest);
        let s = closed_lines(lines);
        lemma_pieces_of_closed_lines(rest);
        lemma_line_feed_found(a, tail, 0);
        lemma_pieces_from_shift(a + sep, tail, sep, 0);
        assert(s.subrange(0, a.len() as int) =~= a);
    }
}

/// Executable test for [`is_space`].
pub fn char_is_space(c: char) -> (r: bool)
    ensures
        r == is_space(c),
{
    let n: u32 = c as u32;
    (0x09 <= n && n <= 0x0D) || n == 0x20 || n == 0x85 || n == 0xA0 || n == 0x1680 || (0x2000 <= n
        && n <= 0x200A) || n == 0x2028 || n == 0x2029 || n == 0x202F || n == 0x205F || n == 0x3000
}

/// The characters of a string, in order.
pub fn chars_of(s: &str) -> (r: Vec<char>)
    ensures
        r@ == s@,
{
    let mut out: Vec<char> = Vec::new();
    for c in it: s.chars()
        invariant
            it.seq() == s@,
            out@ == it.seq().take(it.index()),
    {
        out.push(c);
    }
    out
}

/// The string made of the characters `v[lo..hi]`.
pub fn string_of(v: &Vec<char>, lo: usize, hi: usize) -> (r: String)
    requires
        lo <= hi <= v.len(),
    ensures
        r@ == v@.subrange(lo as int, hi as int),
{
    let mut out = String::new();
    let mut i: usize = lo;
    while i < hi
        invariant
            lo <= i <= hi <= v.len(),
            out@ == v@.subrange(lo as int, i as int),
        decreases hi - i,
    {
        out.push(v[i]);
        i += 1;
    }
    out
}

proof fn lemma_leading_spaces(s: Seq<char>, a: int)
    requires
        0 <= a <= s.len(),
        forall|i: int| 0 <= i < a ==> is_space(#[trigger] s[i]),
        a == s.len() || !is_space(s[a]),
    ensures
        leading_spaces(s) == a,
    decreases a,
{
    if a > 0 {
        let t = s.drop_first();
        lemma_leading_spaces(t, a - 1);
    }
}

proof fn lemma_trailing_spaces(s: Seq<char>, k: int)
    requires
        0 <= k <= s.len(),
        forall|i: int| s.len() - k <= i < s.len() ==> is_space(#[trigger] s[i]),
        k == s.len() || !is_space(s[s.len() - k - 1]),
    ensures
        trailing_spaces(s) == k,
    decreases k,
{
    if k > 0 {
        let t = s.drop_last();
        lemma_trailing_spaces(t, k - 1);
    }
}

/// The characters of `v` without leading and trailing white space.
pub fn trim_chars(v: &Vec<char>) -> (r: String)
    ensures
        r@ == trimmed(v@),
{
    let mut a: usize = 0;
    while a < v.len() && char_is_space(v[a])
        invariant
            a <= v.len(),
            forall|i: int| 0 <= i < a ==> is_space(#[trigger] v@[i]),
        decreases v.len() - a,
    {
        a += 1;
    }
    let mut b: usize = v.len();
    while b > a && char_is_space(v[b - 1])
        invariant
            a <= b <= v.len(),
            forall|i: int| b <= i < v.len() ==> is_space(#[trigger] v@[i]),
        decreases b,
    {
        b -= 1;
    }
    proof {
        lemma_leading_spaces(v@, a as int);
        let t = v@.skip(a as int);
        lemma_trailing_spaces(t, v.len() - b);
    }
    string_of(v, a, b)
}

/// `s` without its leading and trailing white space.
pub fn trim(s: &str) -> (r: String)
    ensures
        r@ == trimmed(s@),
{
    let v = chars_of(s);
    trim_chars(&v)
}

/// Whether `needle` stands in `hay` at position `i`.
pub fn matches_at(hay: &Vec<char>, needle: &Vec<char>, i: usize) -> (r: bool)
    requires
        i + needle.len() <= hay.len(),
    ensures
        r == occurs_at(hay@, needle@, i as int),
{
    let mut k: usize = 0;
    while k < needle.len()
        invariant
            k <= needle.len(),
            i + needle.len() <= hay.len(),
            forall|j: int| 0 <= j < k ==> hay@[i + j] == needle@[j],
        decreases needle.len() - k,
    {
        if hay[i + k] != needle[k] {
            return false;
        }
        k += 1;
    }
    proof {
        assert(hay@.subrange(i as int, i + needle.len()) =~= needle@);
    }
    true
}

/// The leftmost position at or after `from` where `needle` stands in `hay`.
pub fn find_from(hay: &Vec<char>, needle: &Vec<char>, from: usize) -> (r: Option<usize>)
    ensures
        match r {
            Some(i) => first_match(hay@, needle@, from as int) == Some(i as int),
            None => first_match(hay@, needle@, from as int) is None,
        },
{
    if needle.len() > hay.len() {
        return None;
    }
    let last: usize = hay.len() - needle.len();
    let mut i: usize = from;
    while i <= last
        invariant
            from <= i,
            last == hay.len() - needle.len(),
            first_match(hay@, needle@, from as int) == first_match(hay@, needle@, i as int),
        decreases last + 1 - i,
    {
        if matches_at(hay, needle, i) {
            return Some(i);
        }
        if i == last {
            return None;
        }
        i += 1;
    }
    None
}

/// Whether `needle` stands somewhere in `hay`.
pub fn contains(hay: &str, needle: &str) -> (r: bool)
    ensures
        r == has_infix(hay@, needle@),
{
    let h = chars_of(hay);
    let n = chars_of(needle);
    let found = find_from(&h, &n, 0);
    proof {
        lemma_first_match(h@, n@, 0);
    }
    found.is_some()
}

/// Whether `s` begins with `prefix`.
pub fn starts_with(s: &str, prefix: &str) -> (r: bool)
    ensures
        r == has_prefix(s@, prefix@),
{
    let v = chars_of(s);
    let p = chars_of(prefix);
    if p.len() > v.len() {
        false
    } else {
        matches_at(&v, &p, 0)
    }
}

/// Whether `s` ends with `suffix`.
pub fn ends_with(s: &str, suffix: &str) -> (r: bool)
    ensures
        r == has_suffix(s@, suffix@),
{
    let v = chars_of(s);
    let p = chars_of(suffix);
    if p.len() > v.len() {
        false
    } else {
        matches_at(&v, &p, v.len() - p.len())
    }
}

/// Number of characters of `s`.
pub fn char_count(s: &str) -> (r: usize)
    ensures
        r == s@.len(),
{
    s.unicode_len()
}

/// The pieces of `s` between the occurrences of `sep`.
pub fn split(s: &str, sep: &str) -> (r: Vec<String>)
    ensures
        r.deep_view() == pieces(s@, sep@),
{
    let v = chars_of(s);
    let n = chars_of(sep);
    let mut out: Vec<String> = Vec::new();
    if n.len() == 0 {
        out.push(string_of(&v, 0, v.len()));
        proof {
            assert(v@.subrange(0, v.len() as int) =~= v@);
        }
        return out;
    }
    let mut start: usize = 0;
    loop
        invariant
            start <= v.len(),
            n.len() > 0,
            v@ == s@,
            n@ == sep@,
            out.deep_view() + pieces_from(v@, n@, start as int) == pieces_from(v@, n@, 0),
        decreases v.len() - start,
    {
        proof {
            lemma_first_match(v@, n@, start as int);
        }
        match find_from(&v, &n, start) {
            Some(i) => {
                out.push(string_of(&v, start, i));
                start = i + n.len();
            },
            None => {
                out.push(string_of(&v, start, v.len()));
                return out;
            },
        }
    }
}

/// The parts in order with `sep` between each two.
pub fn join(parts: &Vec<String>, sep: &str) -> (r: String)
    ensures
        r@ == joined(parts.deep_view(), sep@),
{
    let mut out = String::new();
    let mut i: usize = 0;
    while i < parts.len()
        invariant
            i <= parts.len(),
            out@ == joined(parts.deep_view().take(i as int), sep@),
        decreases parts.len() - i,
    {
        proof {
            let next = parts.deep_view().take(i + 1);
            assert(next.drop_last() =~= parts.deep_view().take(i as int));
        }
        if i > 0 {
            out.append(sep);
        }
        out.append(parts[i].as_str());
        i += 1;
    }
    proof {
        assert(parts.deep_view().take(parts.len() as int) =~= parts.deep_view());
    }
    out
}

/// `s` with every occurrence of `from` replaced by `to`.
pub fn replace(s: &str, from: &str, to: &str) -> (r: String)
    ensures
        r@ == replaced(s@, from@, to@),
{
    let parts = split(s, from);
    join(&parts, to)
}

/// The lines of a text.
pub fn lines(s: &str) -> (r: Vec<String>)
    ensures
        r.deep_view() == text_lines(s@),
{
    proof {
        reveal_strlit("\n");
        assert("\n"@ =~= seq!['\n']);
    }
    let p = split(s, "\n");
    proof {
        assert(pieces_from(s@, seq!['\n'], 0).len() >= 1);
    }
    let last: usize = p.len() - 1;
    let n: usize = if p[last].as_str().is_empty() {
        last
    } else {
        p.len()
    };
    let mut out: Vec<String> = Vec::new();
    let mut i: usize = 0;
    while i < n
        invariant
            i <= n <= p.len(),
            last == p.len() - 1,
            p.deep_view() == pieces(s@, seq!['\n']),
            out.deep_view() == text_lines(s@).take(i as int),
            n == text_lines(s@).len(),
        decreases n - i,
    {
        let ghost before = out.deep_view();
        let v = chars_of(p[i].as_str());
        let end: usize = if i < last && v.len() > 0 && v[v.len() - 1] == '\r' {
            v.len() - 1
        } else {
            v.len()
        };
        out.push(string_of(&v, 0, end));
        proof {
            assert(v@.subrange(0, end as int) =~= text_lines(s@)[i as int]);
            assert(out.deep_view() =~= before.push(text_lines(s@)[i as int]));
        }
        i += 1;
    }
    out
}

/// Whether two strings hold the same text.
pub fn same_text(a: &String, b: &String) -> (r: bool)
    ensures
        r == (a@ == b@),
{
    *a == *b
}

} // verus!
