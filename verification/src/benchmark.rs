//! Records and rules of a benchmark that grades hosted language models on
//! title cleaning: which models to ask, how much may be sent, and how an
//! answer is read and marked.

use crate::text::{
    char_count, chars_of, contains, ends_with, has_infix, has_prefix, has_suffix, is_space,
    char_is_space, join, joined, lines, lowercase, pieces, replace, replaced, same_text, split,
    starts_with, string_of, text_lines, text_of, trim, trimmed, worded_lines,
};
use vstd::prelude::*;
use vstd::string::StringExecFns;

verus! {

/// A model as the catalogue lists it.
#[derive(Debug, Clone)]
pub struct ModelInfo {
    pub id: String,
    pub name: Option<String>,
    pub original_name: Option<String>,
    pub friendly_name: Option<String>,
    pub task: Option<String>,
    pub publisher: Option<String>,
}

/// When and on how many titles a model was tested.
#[derive(Debug, Clone)]
pub struct TestMetadata {
    pub test_date: String,
    pub test_data_size: usize,
    pub test_type: String,
}

/// Which models a run tested, and the files it read.
#[derive(Debug)]
pub struct TestConfiguration {
    pub models_tested: Vec<String>,
    pub test_data_source: String,
    pub prompt_template: String,
    pub pricing_data_source: String,
    pub model_data_source: String,
}

/// `char::is_alphanumeric`: the character is a letter or a number of some
/// script.
pub uninterp spec fn alphanumeric(c: char) -> bool;

/// `char::is_alphanumeric` depends on the character alone.
pub assume_specification[ char::is_alphanumeric ](c: char) -> (r: bool)
    ensures
        r == alphanumeric(c),
;

/// The text of a field, empty where the field is missing.
pub open spec fn or_empty(field: Option<String>) -> Seq<char> {
    match field {
        Some(s) => s@,
        None => Seq::empty(),
    }
}

/// The task that marks a model for conversation.
pub const CHAT_TASK: &'static str = "chat-completion";

/// Whether the catalogue lists the model for conversation.
pub fn is_chat_model(model: &ModelInfo) -> (r: bool)
    ensures
        r == (text_of(model.task) == Some(CHAT_TASK@)),
{
    match &model.task {
        Some(t) => same_text(t, &CHAT_TASK.to_owned()),
        None => false,
    }
}

/// The name under which the provider serves a model: publisher in lower
/// case, a slash and the original name; without a publisher the original
/// name; without that the id.
pub open spec fn served_name(m: ModelInfo) -> Seq<char> {
    match m.original_name {
        Some(n) => match m.publisher {
            Some(p) => lowercase(p@) + "/"@ + n@,
            None => n@,
        },
        None => m.id@,
    }
}

/// The name under which the provider serves a model.
pub fn request_model_id(model: &ModelInfo) -> (r: String)
    ensures
        r@ == served_name(*model),
{
    match &model.original_name {
        Some(n) => match &model.publisher {
            Some(p) => p.as_str().to_lowercase().concat("/").concat(n.as_str()),
            None => n.clone(),
        },
        None => model.id.clone(),
    }
}

/// The four names under which a price list may hold a model: its id, its
/// original name, its name, and publisher in lower case, a slash and the
/// original name. A missing field counts as empty.
pub open spec fn price_names(m: ModelInfo) -> Seq<Seq<char>> {
    seq![
        m.id@,
        or_empty(m.original_name),
        or_empty(m.name),
        lowercase(or_empty(m.publisher)) + "/"@ + or_empty(m.original_name),
    ]
}

/// The text of a field, empty where the field is missing.
pub fn field_or_empty(field: &Option<String>) -> (r: String)
    ensures
        r@ == or_empty(*field),
{
    match field {
        Some(s) => s.clone(),
        None => String::new(),
    }
}

/// The names under which a price list may hold a model.
pub fn pricing_keys(model: &ModelInfo) -> (r: Vec<String>)
    ensures
        r.deep_view() == price_names(*model),
{
    let publisher = field_or_empty(&model.publisher);
    let original = field_or_empty(&model.original_name);
    let mut out: Vec<String> = Vec::new();
    out.push(model.id.clone());
    out.push(original.clone());
    out.push(field_or_empty(&model.name));
    out.push(publisher.as_str().to_lowercase().concat("/").concat(original.as_str()));
    out
}

/// A name of a model and a name in a price list match loosely: without
/// regard to case, one that has more than three characters stands in the
/// other.
pub open spec fn loosely_same(name: Seq<char>, priced: Seq<char>) -> bool {
    (lowercase(name).len() > 3 && has_infix(lowercase(priced), lowercase(name))) || (lowercase(
        priced,
    ).len() > 3 && has_infix(lowercase(name), lowercase(priced)))
}

/// Whether two names match loosely.
pub fn names_match_loosely(name: &str, priced: &str) -> (r: bool)
    ensures
        r == loosely_same(name@, priced@),
{
    let a = name.to_lowercase();
    let b = priced.to_lowercase();
    (char_count(a.as_str()) > 3 && contains(b.as_str(), a.as_str())) || (char_count(b.as_str())
        > 3 && contains(a.as_str(), b.as_str()))
}

/// A name with its blanks turned to hyphens.
pub fn hyphenated(name: &str) -> (r: String)
    ensures
        r@ == replaced(name@, " "@, "-"@),
{
    replace(name, " ", "-")
}

/// A name with its hyphens turned to blanks.
pub fn unhyphenated(name: &str) -> (r: String)
    ensures
        r@ == replaced(name@, "-"@, " "@),
{
    replace(name, "-", " ")
}

/// Characters to a token, by the rule of thumb.
pub const CHARS_PER_TOKEN: usize = 4;

/// The most tokens that an answer is asked to hold.
pub const ANSWER_TOKENS: u32 = 3000;

/// The tokens that a prompt of so many bytes is taken to have.
pub open spec fn estimated_tokens(system_len: nat, user_len: nat) -> nat {
    (system_len + user_len) / 4
}

/// The prompt is too long for a model: its estimate exceeds seven tenths of
/// what the model takes.
pub open spec fn over_budget(estimate: nat, max_tokens: nat) -> bool {
    estimate > max_tokens * 7 / 10
}

/// The tokens that a prompt is taken to have, given the lengths of its two
/// parts.
pub fn estimate_input_tokens(system_len: usize, user_len: usize) -> (r: usize)
    requires
        system_len + user_len <= usize::MAX,
    ensures
        r == estimated_tokens(system_len as nat, user_len as nat),
{
    (system_len + user_len) / CHARS_PER_TOKEN
}

/// Whether the prompt is too long for a model.
pub fn exceeds_budget(estimate: usize, max_tokens: u32) -> (r: bool)
    ensures
        r == over_budget(estimate as nat, max_tokens as nat),
{
    (estimate as u128) > (max_tokens as u128) * 7 / 10
}

/// The tokens to ask an answer to stay within: half of what the model
/// takes, and no more than [`ANSWER_TOKENS`].
pub fn answer_limit(max_tokens: u32) -> (r: u32)
    ensures
        r == if max_tokens / 2 < ANSWER_TOKENS {
            max_tokens / 2
        } else {
            ANSWER_TOKENS
        },
{
    if max_tokens / 2 < ANSWER_TOKENS {
        max_tokens / 2
    } else {
        ANSWER_TOKENS
    }
}

/// An answer looks cut off: it does not end in a closing brace and has
/// fewer lines than titles were sent.
pub open spec fn looks_truncated(answer: Seq<char>, titles: nat) -> bool {
    !has_suffix(trimmed(answer), "}"@) && text_lines(answer).len() < titles
}

/// Whether an answer looks cut off.
pub fn appears_truncated(answer: &str, titles: usize) -> (r: bool)
    ensures
        r == looks_truncated(answer@, titles as nat),
{
    let t = trim(answer);
    let ls = lines(answer);
    !ends_with(t.as_str(), "}") && ls.len() < titles
}

/// Number of markup rules.
pub const MARKUP_RULES: usize = 11;

/// Markup rule `i`: what a model may wrap its answer in, and what stands
/// for it. Code fences go first, then back-ticks at braces, then headings.
pub open spec fn markup_rule(i: int) -> (Seq<char>, Seq<char>) {
    if i == 0 {
        ("```json"@, ""@)
    } else if i == 1 {
        ("```JSON"@, ""@)
    } else if i == 2 {
        ("```"@, ""@)
    } else if i == 3 {
        ("`{"@, "{"@)
    } else if i == 4 {
        ("}`"@, "}"@)
    } else if i == 5 {
        ("**Output:**"@, ""@)
    } else if i == 6 {
        ("**Response:**"@, ""@)
    } else if i == 7 {
        ("Here is the output:"@, ""@)
    } else if i == 8 {
        ("Here are the results:"@, ""@)
    } else if i == 9 {
        ("Output:"@, ""@)
    } else {
        ("Response:"@, ""@)
    }
}

/// Markup rule `i`.
pub fn markup_rule_at(i: usize) -> (r: (&'static str, &'static str))
    requires
        i < MARKUP_RULES,
    ensures
        (r.0@, r.1@) == markup_rule(i as int),
{
    if i == 0 {
        ("```json", "")
    } else if i == 1 {
        ("```JSON", "")
    } else if i == 2 {
        ("```", "")
    } else if i == 3 {
        ("`{", "{")
    } else if i == 4 {
        ("}`", "}")
    } else if i == 5 {
        ("**Output:**", "")
    } else if i == 6 {
        ("**Response:**", "")
    } else if i == 7 {
        ("Here is the output:", "")
    } else if i == 8 {
        ("Here are the results:", "")
    } else if i == 9 {
        ("Output:", "")
    } else {
        ("Response:", "")
    }
}

/// The text after the first `n` markup rules, each replacing every
/// occurrence.
pub open spec fn unmarked(text: Seq<char>, n: nat) -> Seq<char>
    decreases n,
{
    if n == 0 {
        text
    } else {
        let rule = markup_rule(n - 1);
        replaced(unmarked(text, (n - 1) as nat), rule.0, rule.1)
    }
}

/// An answer without markup: the markup rules applied, then the lines
/// trimmed, blank lines dropped, the rest joined by line feeds.
pub open spec fn without_markup(text: Seq<char>) -> Seq<char> {
    joined(worded_lines(text_lines(unmarked(text, MARKUP_RULES as nat))), seq!['\n'])
}

/// Removes the markup that a model may add to its answer.
pub fn clean_markdown_formatting(text: &str) -> (r: String)
    ensures
        r@ == without_markup(text@),
{
    let mut current = String::from_str(text);
    let mut i: usize = 0;
    while i < MARKUP_RULES
        invariant
            i <= MARKUP_RULES,
            current@ == unmarked(text@, i as nat),
        decreases MARKUP_RULES - i,
    {
        let (from, to) = markup_rule_at(i);
        current = replace(current.as_str(), from, to);
        i += 1;
    }
    let ls = lines(current.as_str());
    let mut kept: Vec<String> = Vec::new();
    let mut k: usize = 0;
    while k < ls.len()
        invariant
            k <= ls.len(),
            kept.deep_view() == worded_lines(ls.deep_view().take(k as int)),
        decreases ls.len() - k,
    {
        proof {
            let next = ls.deep_view().take(k + 1);
            assert(next.drop_last() =~= ls.deep_view().take(k as int));
        }
        let t = trim(ls[k].as_str());
        if char_count(t.as_str()) > 0 {
            kept.push(t);
        }
        k += 1;
    }
    proof {
        assert(ls.deep_view().take(ls.len() as int) =~= ls.deep_view());
        reveal_strlit("\n");
        assert("\n"@ =~= seq!['\n']);
    }
    join(&kept, "\n")
}

/// A title in its normal form: trimmed, without double quotes, an ellipsis
/// as three dots, long dashes as hyphens.
pub open spec fn normal_title(title: Seq<char>) -> Seq<char> {
    let s = replaced(trimmed(title), "\""@, Seq::empty());
    let s = replaced(s, "…"@, "..."@);
    let s = replaced(s, "–"@, "-"@);
    replaced(s, "—"@, "-"@)
}

/// Brings a title to its normal form.
pub fn normalize_title(title: &str) -> (r: String)
    ensures
        r@ == normal_title(title@),
{
    proof {
        reveal_strlit("");
        assert(""@ =~= Seq::<char>::empty());
    }
    let s = trim(title);
    let s = replace(s.as_str(), "\"", "");
    let s = replace(s.as_str(), "…", "...");
    let s = replace(s.as_str(), "–", "-");
    replace(s.as_str(), "—", "-")
}

/// The letters, numbers and white space of a text.
pub open spec fn letters_and_spaces(s: Seq<char>) -> Seq<char>
    decreases s.len(),
{
    if s.len() == 0 {
        Seq::empty()
    } else if alphanumeric(s.last()) || is_space(s.last()) {
        letters_and_spaces(s.drop_last()).push(s.last())
    } else {
        letters_and_spaces(s.drop_last())
    }
}

/// Where the run of characters that begins at `from` ends: a run of white
/// space, or a run of anything else.
pub open spec fn run_end(s: Seq<char>, from: int, spaces: bool) -> int
    decreases s.len() - from,
{
    if from < 0 || from >= s.len() || is_space(s[from]) != spaces {
        from
    } else {
        run_end(s, from + 1, spaces)
    }
}

/// A run ends within the text, behind its start if it has a character,
/// and at a character of the other kind.
pub proof fn lemma_run_end(s: Seq<char>, from: int, spaces: bool)
    requires
        0 <= from <= s.len(),
    ensures
        from <= run_end(s, from, spaces) <= s.len(),
        from < s.len() && is_space(s[from]) == spaces ==> from < run_end(s, from, spaces),
        run_end(s, from, spaces) < s.len() ==> is_space(s[run_end(s, from, spaces)]) != spaces,
    decreases s.len() - from,
{
    if from < s.len() && is_space(s[from]) == spaces {
        lemma_run_end(s, from + 1, spaces);
    }
}

/// The words of a text from `from` on: the runs of characters between
/// white space.
pub open spec fn words_from(s: Seq<char>, from: int) -> Seq<Seq<char>>
    decreases s.len() - from,
    when 0 <= from <= s.len()
    via words_from_decreases
{
    let start = run_end(s, from, true);
    if start >= s.len() {
        Seq::empty()
    } else {
        seq![s.subrange(start, run_end(s, start, false))] + words_from(s, run_end(s, start, false))
    }
}

#[via_fn]
proof fn words_from_decreases(s: Seq<char>, from: int) {
    lemma_run_end(s, from, true);
    let start = run_end(s, from, true);
    if start < s.len() {
        lemma_run_end(s, start, false);
    }
}

/// A text in its plain form: lower case, letters and numbers only, its
/// words one blank apart.
pub open spec fn plain_form(s: Seq<char>) -> Seq<char> {
    joined(words_from(letters_and_spaces(lowercase(s)), 0), seq![' '])
}

/// A cleaned title counts as the expected one: their normal forms are the
/// same, or the plain forms of those are.
pub open spec fn same_title(cleaned: Seq<char>, expected: Seq<char>) -> bool {
    normal_title(cleaned) == normal_title(expected) || plain_form(normal_title(cleaned))
        == plain_form(normal_title(expected))
}

/// Where the run that begins at `from` ends.
pub fn find_run_end(v: &Vec<char>, from: usize, spaces: bool) -> (r: usize)
    requires
        from <= v.len(),
    ensures
        r == run_end(v@, from as int, spaces),
        from <= r <= v.len(),
{
    let mut i: usize = from;
    while i < v.len() && char_is_space(v[i]) == spaces
        invariant
            from <= i <= v.len(),
            run_end(v@, from as int, spaces) == run_end(v@, i as int, spaces),
        decreases v.len() - i,
    {
        i += 1;
    }
    i
}

/// Brings a text to its plain form.
pub fn plain(s: &str) -> (r: String)
    ensures
        r@ == plain_form(s@),
{
    let lower = s.to_lowercase();
    let all = chars_of(lower.as_str());
    let mut v: Vec<char> = Vec::new();
    let mut i: usize = 0;
    while i < all.len()
        invariant
            i <= all.len(),
            v@ == letters_and_spaces(all@.take(i as int)),
        decreases all.len() - i,
    {
        proof {
            let next = all@.take(i + 1);
            assert(next.drop_last() =~= all@.take(i as int));
        }
        let c = all[i];
        if c.is_alphanumeric() || char_is_space(c) {
            v.push(c);
        }
        i += 1;
    }
    proof {
        assert(all@.take(all.len() as int) =~= all@);
    }
    let mut found: Vec<String> = Vec::new();
    let mut at: usize = 0;
    loop
        invariant
            at <= v.len(),
            found.deep_view() + words_from(v@, at as int) == words_from(v@, 0),
        ensures
            found.deep_view() == words_from(v@, 0),
        decreases v.len() - at,
    {
        let start = find_run_end(&v, at, true);
        if start >= v.len() {
            break;
        }
        let end = find_run_end(&v, start, false);
        found.push(string_of(&v, start, end));
        at = end;
    }
    proof {
        reveal_strlit(" ");
        assert(" "@ =~= seq![' ']);
    }
    join(&found, " ")
}

/// Whether a cleaned title counts as the expected one.
pub fn titles_match(cleaned: &str, expected: &str) -> (r: bool)
    ensures
        r == same_title(cleaned@, expected@),
{
    let a = normalize_title(cleaned);
    let b = normalize_title(expected);
    if same_text(&a, &b) {
        return true;
    }
    same_text(&plain(a.as_str()), &plain(b.as_str()))
}

/// What one line of an answer says, once it is read as a JSON object.
#[derive(Debug)]
pub struct AnswerLine {
    /// The cleaned title, where the line gives one as a text.
    pub cleaned_title: Option<String>,
    /// Whether the line gives a confidence between zero and one.
    pub confidence_in_range: bool,
    /// Whether the line tells which markers it kept.
    pub has_kept_markers: bool,
    /// Whether the line tells which context it removed.
    pub has_removed_context: bool,
}

/// How many lines of an answer were valid, and how many of those right.
#[derive(Debug, Clone, Copy, PartialEq, Eq, Structural)]
pub struct Grade {
    pub valid: usize,
    pub correct: usize,
}

/// The lines of an answer to be read one by one: the answer without
/// markup, trimmed, cut at its line feeds.
pub open spec fn answer_pieces(answer: Seq<char>) -> Seq<Seq<char>> {
    pieces(trimmed(without_markup(answer)), seq!['\n'])
}

/// The lines of an answer to be read one by one.
pub fn answer_lines(answer: &str) -> (r: Vec<String>)
    ensures
        r.deep_view() == answer_pieces(answer@),
{
    proof {
        reveal_strlit("\n");
        assert("\n"@ =~= seq!['\n']);
    }
    let cleaned = clean_markdown_formatting(answer);
    let t = trim(cleaned.as_str());
    split(t.as_str(), "\n")
}

/// The line, trimmed, begins and ends like a JSON object.
pub open spec fn is_object_text(line: Seq<char>) -> bool {
    has_prefix(trimmed(line), "{"@) && has_suffix(trimmed(line), "}"@)
}

/// Whether the line, trimmed, begins and ends like a JSON object.
pub fn is_object_line(line: &str) -> (r: bool)
    ensures
        r == is_object_text(line@),
{
    let t = trim(line);
    starts_with(t.as_str(), "{") && ends_with(t.as_str(), "}")
}

/// A title that can be marked: trimmed it has text, holds no replacement
/// character and does not begin with `ERROR` or `FAIL`.
pub open spec fn usable_title(title: Seq<char>) -> bool {
    &&& trimmed(title).len() > 0
    &&& !has_infix(trimmed(title), "\u{FFFD}"@)
    &&& !has_prefix(trimmed(title), "ERROR"@)
    &&& !has_prefix(trimmed(title), "FAIL"@)
}

/// A valid line: a usable title, a confidence in range, and both lists.
pub open spec fn is_valid(line: Option<AnswerLine>) -> bool {
    match line {
        Some(a) => match a.cleaned_title {
            Some(t) => usable_title(t@) && a.confidence_in_range && a.has_kept_markers
                && a.has_removed_context,
            None => false,
        },
        None => false,
    }
}

/// A right line: valid, with an expected title at its place, and its title
/// counts as that one.
pub open spec fn is_correct(line: Option<AnswerLine>, at: int, expected: Seq<Seq<char>>) -> bool {
    is_valid(line) && 0 <= at < expected.len() && same_title(
        trimmed(line->0.cleaned_title->0@),
        expected[at],
    )
}

/// The number of valid lines.
pub open spec fn count_valid(lines: Seq<Option<AnswerLine>>) -> nat
    decreases lines.len(),
{
    if lines.len() == 0 {
        0
    } else {
        count_valid(lines.drop_last()) + if is_valid(lines.last()) {
            1nat
        } else {
            0nat
        }
    }
}

/// The number of right lines.
pub open spec fn count_correct(lines: Seq<Option<AnswerLine>>, expected: Seq<Seq<char>>) -> nat
    decreases lines.len(),
{
    if lines.len() == 0 {
        0
    } else {
        count_correct(lines.drop_last(), expected) + if is_correct(
            lines.last(),
            lines.len() - 1,
            expected,
        ) {
            1nat
        } else {
            0nat
        }
    }
}

/// Whether a title can be marked.
pub fn title_is_usable(title: &str) -> (r: bool)
    ensures
        r == usable_title(title@),
{
    let t = trim(title);
    char_count(t.as_str()) > 0 && !contains(t.as_str(), "\u{FFFD}") && !starts_with(
        t.as_str(),
        "ERROR",
    ) && !starts_with(t.as_str(), "FAIL")
}

/// Whether a line is valid.
pub fn line_is_valid(line: &Option<AnswerLine>) -> (r: bool)
    ensures
        r == is_valid(*line),
{
    match line {
        Some(a) => match &a.cleaned_title {
            Some(t) => title_is_usable(t.as_str()) && a.confidence_in_range && a.has_kept_markers
                && a.has_removed_context,
            None => false,
        },
        None => false,
    }
}

/// Marks the lines of an answer against the expected titles: line `i` is
/// held against title `i`. A line that could not be read is `None`.
pub fn grade_answers(lines: &Vec<Option<AnswerLine>>, expected: &Vec<String>) -> (r: Grade)
    ensures
        r.valid == count_valid(lines@),
        r.correct == count_correct(lines@, expected.deep_view()),
        r.correct <= r.valid <= lines.len(),
{
    let mut valid: usize = 0;
    let mut correct: usize = 0;
    let mut i: usize = 0;
    while i < lines.len()
        invariant
            i <= lines.len(),
            valid == count_valid(lines@.take(i as int)),
            correct == count_correct(lines@.take(i as int), expected.deep_view()),
            correct <= valid <= i,
        decreases lines.len() - i,
    {
        proof {
            let next = lines@.take(i + 1);
            assert(next.drop_last() =~= lines@.take(i as int));
        }
        if line_is_valid(&lines[i]) {
            valid += 1;
            if i < expected.len() {
                let right = match &lines[i] {
                    Some(a) => match &a.cleaned_title {
                        Some(t) => titles_match(trim(t.as_str()).as_str(), expected[i].as_str()),
                        None => false,
                    },
                    None => false,
                };
                if right {
                    correct += 1;
                }
            }
        }
        i += 1;
    }
    proof {
        assert(lines@.take(lines.len() as int) =~= lines@);
    }
    Grade { valid, correct }
}

/// The score of an answer as a fraction, numerator and denominator: zero
/// without titles or without a right line; the share of right lines where
/// every title got a valid line and nine in ten are right; otherwise six
/// tenths of the share of right lines times the share of valid lines, and
/// no more than one.
pub open spec fn score_of(valid: nat, correct: nat, total: nat) -> (nat, nat) {
    if total == 0 || correct == 0 {
        (0, 1)
    } else if valid == total && correct >= total * 9 / 10 {
        (correct, total)
    } else if correct * valid * 6 >= total * total * 10 {
        (1, 1)
    } else {
        (correct * valid * 6, total * total * 10)
    }
}

/// A score as a fraction.
#[derive(Debug, Clone, Copy, PartialEq, Eq, Structural)]
pub struct Score {
    pub numerator: u128,
    pub denominator: u128,
}

/// The score of an answer.
pub fn score(valid: u32, correct: u32, total: u32) -> (r: Score)
    ensures
        (r.numerator as nat, r.denominator as nat) == score_of(
            valid as nat,
            correct as nat,
            total as nat,
        ),
        r.denominator > 0,
{
    let v: u128 = valid as u128;
    let c: u128 = correct as u128;
    let t: u128 = total as u128;
    if total == 0 || correct == 0 {
        Score { numerator: 0, denominator: 1 }
    } else if valid == total && c >= t * 9 / 10 {
        Score { numerator: c, denominator: t }
    } else {
        assert(c * v <= 0xFFFF_FFFF * 0xFFFF_FFFF) by (nonlinear_arith)
            requires
                c <= 0xFFFF_FFFF,
                v <= 0xFFFF_FFFF,
        ;
        assert(t * t <= 0xFFFF_FFFF * 0xFFFF_FFFF) by (nonlinear_arith)
            requires
                t <= 0xFFFF_FFFF,
        ;
        let part: u128 = c * v * 6;
        let whole: u128 = t * t * 10;
        if part >= whole {
            Score { numerator: 1, denominator: 1 }
        } else {
            Score { numerator: part, denominator: whole }
        }
    }
}

/// The words for a score.
#[derive(Debug, Clone, Copy, PartialEq, Eq, Structural)]
pub enum Quality {
    Excellent,
    Good,
    Fair,
    Poor,
    VeryPoor,
}

/// The fraction is at least so many hundredths.
pub open spec fn at_least(fraction: (nat, nat), hundredths: nat) -> bool {
    fraction.0 * 100 >= hundredths * fraction.1
}

/// The words for a score: excellent from 0.95, good from 0.8, fair from
/// 0.6, poor from 0.3.
pub open spec fn quality_of(fraction: (nat, nat)) -> Quality {
    if at_least(fraction, 95) {
        Quality::Excellent
    } else if at_least(fraction, 80) {
        Quality::Good
    } else if at_least(fraction, 60) {
        Quality::Fair
    } else if at_least(fraction, 30) {
        Quality::Poor
    } else {
        Quality::VeryPoor
    }
}

/// Whether the score of an answer is at least so many hundredths.
pub fn scores_at_least(valid: u32, correct: u32, total: u32, hundredths: u8) -> (r: bool)
    ensures
        r == at_least(score_of(valid as nat, correct as nat, total as nat), hundredths as nat),
{
    let s = score(valid, correct, total);
    assert(s.denominator <= 0xFFFF_FFFF * 0xFFFF_FFFF * 10) by (nonlinear_arith)
        requires
            (s.numerator as nat, s.denominator as nat) == score_of(
                valid as nat,
                correct as nat,
                total as nat,
            ),
            valid <= 0xFFFF_FFFF,
            correct <= 0xFFFF_FFFF,
            total <= 0xFFFF_FFFF,
    ;
    let h: u128 = hundredths as u128;
    assert(h * s.denominator <= 255 * s.denominator) by (nonlinear_arith)
        requires
            h <= 255,
    ;
    s.numerator * 100 >= h * s.denominator
}

/// The words for the score of an answer.
pub fn quality(valid: u32, correct: u32, total: u32) -> (r: Quality)
    ensures
        r == quality_of(score_of(valid as nat, correct as nat, total as nat)),
{
    if scores_at_least(valid, correct, total, 95) {
        Quality::Excellent
    } else if scores_at_least(valid, correct, total, 80) {
        Quality::Good
    } else if scores_at_least(valid, correct, total, 60) {
        Quality::Fair
    } else if scores_at_least(valid, correct, total, 30) {
        Quality::Poor
    } else {
        Quality::VeryPoor
    }
}

impl Quality {
    /// The word as it is written in a report.
    pub fn name(&self) -> (r: &'static str)
        ensures
            r@ == match self {
                Quality::Excellent => "excellent"@,
                Quality::Good => "good"@,
                Quality::Fair => "fair"@,
                Quality::Poor => "poor"@,
                Quality::VeryPoor => "very_poor"@,
            },
    {
        match self {
            Quality::Excellent => "excellent",
            Quality::Good => "good",
            Quality::Fair => "fair",
            Quality::Poor => "poor",
            Quality::VeryPoor => "very_poor",
        }
    }
}

/// A test counts as a success: it ran without error, scored at least 0.8,
/// and eight in ten titles are right.
pub open spec fn succeeded(failed: bool, valid: nat, correct: nat, total: nat) -> bool {
    !failed && at_least(score_of(valid, correct, total), 80) && correct >= total * 8 / 10
}

/// Whether a test counts as a success.
pub fn is_successful(failed: bool, valid: u32, correct: u32, total: u32) -> (r: bool)
    ensures
        r == succeeded(failed, valid as nat, correct as nat, total as nat),
{
    !failed && scores_at_least(valid, correct, total, 80) && (correct as u64) >= (total as u64) * 8
        / 10
}

/// The first place at which a list of marks holds a mark.
pub open spec fn first_true(marks: Seq<bool>) -> Option<int>
    decreases marks.len(),
{
    if marks.len() == 0 {
        None
    } else {
        match first_true(marks.drop_last()) {
            Some(i) => Some(i),
            None => if marks.last() {
                Some(marks.len() - 1)
            } else {
                None
            },
        }
    }
}

/// What [`first_true`] finds is the first mark, and it finds one whenever
/// there is one.
pub proof fn lemma_first_true(marks: Seq<bool>)
    ensures
        match first_true(marks) {
            Some(i) => 0 <= i < marks.len() && marks[i] && forall|j: int|
                0 <= j < i ==> !#[trigger] marks[j],
            None => forall|j: int| 0 <= j < marks.len() ==> !#[trigger] marks[j],
        },
    decreases marks.len(),
{
    if marks.len() > 0 {
        let front = marks.drop_last();
        lemma_first_true(front);
        assert forall|j: int| 0 <= j < front.len() implies front[j] == marks[j] by {}
        match first_true(front) {
            Some(i) => {
            },
            None => {
            },
        }
    }
}

/// For each name of a list, whether it is the given name.
pub open spec fn same_marks(list: Seq<Seq<char>>, name: Seq<char>) -> Seq<bool> {
    Seq::new(list.len(), |i: int| list[i] == name)
}

/// For each name of a list, whether it matches the given name loosely.
pub open spec fn loose_marks(list: Seq<Seq<char>>, name: Seq<char>) -> Seq<bool> {
    Seq::new(list.len(), |i: int| loosely_same(name, list[i]))
}

/// The first place at which a list holds a name.
pub open spec fn place_of(list: Seq<Seq<char>>, name: Seq<char>) -> Option<int> {
    first_true(same_marks(list, name))
}

/// The first place at which a list holds a name that matches loosely.
pub open spec fn loose_place_of(list: Seq<Seq<char>>, name: Seq<char>) -> Option<int> {
    first_true(loose_marks(list, name))
}

/// The place in a price list that a name leads to when nothing is held
/// under the name itself: the name with hyphens for blanks, else the name
/// with blanks for hyphens, else the first name that matches loosely.
pub open spec fn close_place_of(list: Seq<Seq<char>>, name: Seq<char>) -> Option<int> {
    match place_of(list, replaced(name, " "@, "-"@)) {
        Some(i) => Some(i),
        None => match place_of(list, replaced(name, "-"@, " "@)) {
            Some(i) => Some(i),
            None => loose_place_of(list, name),
        },
    }
}

/// For each of the names, whether it is not empty and the list holds it.
pub open spec fn exact_marks(names: Seq<Seq<char>>, list: Seq<Seq<char>>) -> Seq<bool> {
    Seq::new(names.len(), |k: int| names[k].len() > 0 && place_of(list, names[k]) is Some)
}

/// For each of the names, whether it is not empty and leads anywhere in
/// the list.
pub open spec fn close_marks(names: Seq<Seq<char>>, list: Seq<Seq<char>>) -> Seq<bool> {
    Seq::new(names.len(), |k: int| names[k].len() > 0 && close_place_of(list, names[k]) is Some)
}

/// The first of the names, empty ones passed over, that the list holds.
pub open spec fn exact_name(names: Seq<Seq<char>>, list: Seq<Seq<char>>) -> Option<int> {
    first_true(exact_marks(names, list))
}

/// The first of the names, empty ones passed over, that leads anywhere in
/// the list.
pub open spec fn close_name(names: Seq<Seq<char>>, list: Seq<Seq<char>>) -> Option<int> {
    first_true(close_marks(names, list))
}

/// The price of a model: the place in the price list held under the first
/// of its names that the list holds; failing that, the place that the
/// first of its names leads to which leads anywhere. Empty names are
/// passed over.
pub open spec fn price_place(names: Seq<Seq<char>>, list: Seq<Seq<char>>) -> Option<int> {
    match exact_name(names, list) {
        Some(k) => place_of(list, names[k]),
        None => match close_name(names, list) {
            Some(k) => close_place_of(list, names[k]),
            None => None,
        },
    }
}

/// The place of an optional index.
pub open spec fn place(i: Option<usize>) -> Option<int> {
    match i {
        Some(i) => Some(i as int),
        None => None,
    }
}

/// The first place at which a list holds a name.
pub fn find_name(list: &Vec<String>, name: &String) -> (r: Option<usize>)
    ensures
        place(r) == place_of(list.deep_view(), name@),
        r matches Some(i) ==> i < list.len(),
{
    let ghost marks = same_marks(list.deep_view(), name@);
    proof {
        lemma_first_true(marks);
    }
    let mut i: usize = 0;
    while i < list.len()
        invariant
            i <= list.len(),
            marks == same_marks(list.deep_view(), name@),
            forall|j: int| 0 <= j < i ==> !#[trigger] marks[j],
        decreases list.len() - i,
    {
        proof {
            lemma_first_true(marks);
        }
        if same_text(&list[i], name) {
            assert(marks[i as int]);
            return Some(i);
        }
        i += 1;
    }
    None
}

/// The first place at which a list holds a name that matches loosely.
pub fn find_loose_name(list: &Vec<String>, name: &String) -> (r: Option<usize>)
    ensures
        place(r) == loose_place_of(list.deep_view(), name@),
        r matches Some(i) ==> i < list.len(),
{
    let ghost marks = loose_marks(list.deep_view(), name@);
    proof {
        lemma_first_true(marks);
    }
    let mut i: usize = 0;
    while i < list.len()
        invariant
            i <= list.len(),
            marks == loose_marks(list.deep_view(), name@),
            forall|j: int| 0 <= j < i ==> !#[trigger] marks[j],
        decreases list.len() - i,
    {
        proof {
            lemma_first_true(marks);
        }
        if names_match_loosely(name.as_str(), list[i].as_str()) {
            assert(marks[i as int]);
            return Some(i);
        }
        i += 1;
    }
    None
}

/// The place in a price list that a name leads to when nothing is held
/// under the name itself.
pub fn find_close_name(list: &Vec<String>, name: &String) -> (r: Option<usize>)
    ensures
        place(r) == close_place_of(list.deep_view(), name@),
        r matches Some(i) ==> i < list.len(),
{
    match find_name(list, &hyphenated(name.as_str())) {
        Some(i) => Some(i),
        None => match find_name(list, &unhyphenated(name.as_str())) {
            Some(i) => Some(i),
            None => find_loose_name(list, name),
        },
    }
}

/// Finds the price of a model in a price list, given the names that the
/// list may hold it under and the names of the list in the order in which
/// they are to be tried.
pub fn find_price(names: &Vec<String>, list: &Vec<String>) -> (r: Option<usize>)
    ensures
        place(r) == price_place(names.deep_view(), list.deep_view()),
        r matches Some(i) ==> i < list.len(),
{
    let ghost exact = exact_marks(names.deep_view(), list.deep_view());
    let ghost close = close_marks(names.deep_view(), list.deep_view());
    proof {
        lemma_first_true(exact);
        lemma_first_true(close);
    }
    let mut k: usize = 0;
    while k < names.len()
        invariant
            k <= names.len(),
            exact == exact_marks(names.deep_view(), list.deep_view()),
            forall|j: int| 0 <= j < k ==> !#[trigger] exact[j],
        decreases names.len() - k,
    {
        proof {
            lemma_first_true(exact);
        }
        if char_count(names[k].as_str()) > 0 {
            match find_name(list, &names[k]) {
                Some(i) => {
                    assert(exact[k as int]);
                    return Some(i);
                },
                None => {
                },
            }
        }
        k += 1;
    }
    let mut k: usize = 0;
    while k < names.len()
        invariant
            k <= names.len(),
            exact_name(names.deep_view(), list.deep_view()) is None,
            close == close_marks(names.deep_view(), list.deep_view()),
            forall|j: int| 0 <= j < k ==> !#[trigger] close[j],
        decreases names.len() - k,
    {
        proof {
            lemma_first_true(close);
        }
        if char_count(names[k].as_str()) > 0 {
            match find_close_name(list, &names[k]) {
                Some(i) => {
                    assert(close[k as int]);
                    return Some(i);
                },
                None => {
                },
            }
        }
        k += 1;
    }
    None
}

/// What the request says before the titles.
pub const PROMPT_HEAD: &'static str =
    "**Task**: Clean the following track titles into canonical song titles using human judgment.\n\n**Configuration** (YAML):\n\n```yaml\nkeep_feat: false\nkeep_version_markers: true\nprefer_primary_language: as_is\nallow_album_context: false\npreserve_parenthetical_if_ambiguous: true\n```\n\n**Items (one per line):**\n\n```\n";

/// What the request says after the titles.
pub const PROMPT_TAIL: &'static str =
    "\n```\n\n**Output Format - CRITICAL**:\n- Return EXACTLY one JSON object per input line\n- Each JSON object must be on its own line\n- NO markdown formatting (no ```json blocks)  \n- NO wrapping in code blocks or backticks\n- NO extra text, explanations, or commentary\n- ONLY raw JSON objects, one per line\n- Schema: `cleaned_title`, `kept_markers`, `removed_context`, `confidence`, `notes`\n\nIMPORTANT: Output must be parseable as raw JSON. Do not use markdown, code blocks, or any formatting.";

/// The request that asks a model to clean the titles: the task, the titles
/// one per line, and the form of the answer.
pub open spec fn prompt_for(titles: Seq<Seq<char>>) -> Seq<char> {
    PROMPT_HEAD@ + joined(titles, seq!['\n']) + PROMPT_TAIL@
}

/// Writes the request that asks a model to clean the titles.
pub fn create_test_prompt(titles: &Vec<String>) -> (r: String)
    ensures
        r@ == prompt_for(titles.deep_view()),
{
    proof {
        reveal_strlit("\n");
        assert("\n"@ =~= seq!['\n']);
    }
    let items = join(titles, "\n");
    String::from_str(PROMPT_HEAD).concat(items.as_str()).concat(PROMPT_TAIL)
}

} // verus!
