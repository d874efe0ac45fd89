//! The input shaper: the pure transformation applied to a caller-supplied
//! snippet before it is written to a child's standard input.
//!
//! The pipeline has four steps, each enabled per command: per-line truncation
//! by a regular expression, removal of blank lines, replacement of newlines
//! by a joining string, and a trailing newline. After shaping, commands may
//! reject input that carries no visible content at all.

use crate::process_manager::ProcessManagerError;
use vstd::prelude::*;

verus! {

// ---------------------------------------------------------------------------
// Whitespace
// ---------------------------------------------------------------------------

/// A character with the Unicode `White_Space` property, the set that both
/// `char::is_whitespace` and the regex class `\s` recognise.
pub open spec fn is_space_char(c: char) -> bool {
    let u = c as u32;
    u == 0x09 || u == 0x0A || u == 0x0B || u == 0x0C || u == 0x0D || u == 0x20 || u == 0x85
        || u == 0xA0 || u == 0x1680 || (0x2000 <= u && u <= 0x200A) || u == 0x2028 || u == 0x2029
        || u == 0x202F || u == 0x205F || u == 0x3000
}

/// Every character of `s` is whitespace; true for the empty sequence.
pub open spec fn all_space(s: Seq<char>) -> bool {
    forall|i: int| 0 <= i < s.len() ==> is_space_char(#[trigger] s[i])
}

pub fn char_is_space(c: char) -> (r: bool)
    ensures
        r == is_space_char(c),
{
    let u = c as u32;
    u == 0x09 || u == 0x0A || u == 0x0B || u == 0x0C || u == 0x0D || u == 0x20 || u == 0x85
        || u == 0xA0 || u == 0x1680 || (0x2000 <= u && u <= 0x200A) || u == 0x2028 || u == 0x2029
        || u == 0x202F || u == 0x205F || u == 0x3000
}

/// True when `s` holds at least one non-whitespace character.
pub fn has_visible_char(s: &str) -> (r: bool)
    ensures
        r == !all_space(s@),
{
    let len = s.unicode_len();
    let mut i: usize = 0;
    while i < len
        invariant
            i <= len,
            len == s@.len(),
            forall|j: int| 0 <= j < i ==> is_space_char(#[trigger] s@[j]),
        decreases len - i,
    {
        if !char_is_space(s.get_char(i)) {
            return true;
        }
        i += 1;
    }
    false
}

// ---------------------------------------------------------------------------
// Lines
// ---------------------------------------------------------------------------

/// Index of the first newline in `s`, or `s.len()` when there is none.
pub open spec fn find_nl(s: Seq<char>) -> int
    decreases s.len(),
{
    if s.len() == 0 {
        0
    } else if s[0] == '\n' {
        0
    } else {
        1 + find_nl(s.drop_first())
    }
}

/// `find_nl` is pinned by any witness of a first newline.
pub proof fn lemma_find_nl_at(s: Seq<char>, k: int)
    requires
        0 <= k <= s.len(),
        forall|j: int| 0 <= j < k ==> s[j] != '\n',
        k == s.len() || s[k] == '\n',
    ensures
        find_nl(s) == k,
    decreases s.len(),
{
    if s.len() != 0 && s[0] != '\n' {
        lemma_find_nl_at(s.drop_first(), k - 1);
    }
}

/// The lines of `s`, split on `'\n'`. Splitting never yields an empty
/// sequence: a string without newlines is one line, possibly empty.
pub open spec fn split_lines(s: Seq<char>) -> Seq<Seq<char>>
    decreases s.len(),
{
    let i = find_nl(s);
    if 0 <= i < s.len() {
        seq![s.take(i)] + split_lines(s.skip(i + 1))
    } else {
        seq![s]
    }
}

/// The lines joined back with the separator `sep` between them.
pub open spec fn join_lines(ls: Seq<Seq<char>>, sep: Seq<char>) -> Seq<char>
    decreases ls.len(),
{
    if ls.len() == 0 {
        Seq::empty()
    } else if ls.len() == 1 {
        ls[0]
    } else {
        ls[0] + sep + join_lines(ls.drop_first(), sep)
    }
}

pub proof fn lemma_join_lines_push(ls: Seq<Seq<char>>, l: Seq<char>, sep: Seq<char>)
    ensures
        join_lines(ls.push(l), sep) == if ls.len() == 0 {
            l
        } else {
            join_lines(ls, sep) + sep + l
        },
    decreases ls.len(),
{
    if ls.len() == 0 {
        assert(ls.push(l) =~= seq![l]);
    } else {
        lemma_join_lines_push(ls.drop_first(), l, sep);
        assert(ls.push(l).drop_first() =~= ls.drop_first().push(l));
        if ls.len() == 1 {
            assert(join_lines(ls, sep) == ls[0]);
        }
    }
}

/// The views of a vector of owned lines.
pub open spec fn views_of(ls: Seq<String>) -> Seq<Seq<char>> {
    ls.map_values(|l: String| l@)
}

/// Split a string into its lines, as `split_lines` describes.
pub fn split_lines_exec(s: &str) -> (r: Vec<String>)
    ensures
        views_of(r@) == split_lines(s@),
{
    let len = s.unicode_len();
    let mut r: Vec<String> = Vec::new();
    let mut start: usize = 0;
    let mut i: usize = 0;
    proof {
        assert(s@.skip(0) =~= s@);
        assert(views_of(r@) =~= Seq::<Seq<char>>::empty());
    }
    while i < len
        invariant
            start <= i <= len,
            len == s@.len(),
            split_lines(s@) =~= views_of(r@) + split_lines(s@.skip(start as int)),
            forall|j: int| start <= j < i ==> s@[j] != '\n',
        decreases len - i,
    {
        if s.get_char(i) == '\n' {
            let line = String::from_str(s.substring_char(start, i));
            proof {
                let t = s@.skip(start as int);
                assert(forall|j: int| 0 <= j < i - start ==> t[j] != '\n');
                lemma_find_nl_at(t, i - start);
                assert(t.take(i - start) =~= s@.subrange(start as int, i as int));
                assert(t.skip(i - start + 1) =~= s@.skip(i + 1));
                assert(views_of(r@.push(line)) =~= views_of(r@).push(line@));
            }
            r.push(line);
            start = i + 1;
        }
        i += 1;
    }
    let tail = String::from_str(s.substring_char(start, len));
    proof {
        let t = s@.skip(start as int);
        assert(forall|j: int| 0 <= j < t.len() ==> t[j] != '\n');
        lemma_find_nl_at(t, t.len() as int);
        assert(split_lines(t) == seq![t]);
        assert(t =~= s@.subrange(start as int, len as int));
        assert(views_of(r@.push(tail)) =~= views_of(r@).push(tail@));
        assert(views_of(r@).push(tail@) =~= views_of(r@) + seq![t]);
    }
    r.push(tail);
    r
}

/// Join lines with a separator, as `join_lines` describes.
pub fn join_lines_exec(ls: &Vec<String>, sep: &str) -> (r: String)
    ensures
        r@ == join_lines(views_of(ls@), sep@),
{
    let mut r = String::new();
    let mut i: usize = 0;
    while i < ls.len()
        invariant
            i <= ls@.len(),
            i == 0 ==> r@ == Seq::<char>::empty(),
            i > 0 ==> r@ == join_lines(views_of(ls@.take(i as int)), sep@),
        decreases ls@.len() - i,
    {
        if i > 0 {
            r.append(sep);
        }
        r.append(ls[i].as_str());
        proof {
            let prior = views_of(ls@.take(i as int));
            lemma_join_lines_push(prior, ls@[i as int]@, sep@);
            assert(views_of(ls@.take(i + 1)) =~= prior.push(ls@[i as int]@));
        }
        i += 1;
    }
    proof {
        if ls@.len() == 0 {
            assert(join_lines(views_of(ls@), sep@) =~= Seq::<char>::empty());
        } else {
            assert(ls@.take(ls@.len() as int) =~= ls@);
        }
    }
    r
}

// ---------------------------------------------------------------------------
// Blank-line removal
// ---------------------------------------------------------------------------

/// The lines that survive blank-line removal: a line is dropped when it is
/// empty or consists of whitespace only.
pub open spec fn kept_lines(ls: Seq<Seq<char>>) -> Seq<Seq<char>>
    decreases ls.len(),
{
    if ls.len() == 0 {
        Seq::empty()
    } else if all_space(ls[0]) {
        kept_lines(ls.drop_first())
    } else {
        seq![ls[0]] + kept_lines(ls.drop_first())
    }
}

pub proof fn lemma_kept_lines_push(ls: Seq<Seq<char>>, l: Seq<char>)
    ensures
        kept_lines(ls.push(l)) == if all_space(l) {
            kept_lines(ls)
        } else {
            kept_lines(ls).push(l)
        },
    decreases ls.len(),
{
    if ls.len() == 0 {
        assert(ls.push(l) =~= seq![l]);
        assert(seq![l].drop_first() =~= Seq::<Seq<char>>::empty());
        assert(kept_lines(Seq::<Seq<char>>::empty()) =~= Seq::<Seq<char>>::empty());
        assert(ls =~= Seq::<Seq<char>>::empty());
        if all_space(l) {
            assert(kept_lines(ls.push(l)) =~= kept_lines(ls));
        } else {
            assert(kept_lines(seq![l]) =~= seq![l] + Seq::<Seq<char>>::empty());
            assert(seq![l] + Seq::<Seq<char>>::empty() =~= kept_lines(ls).push(l));
        }
    } else {
        lemma_kept_lines_push(ls.drop_first(), l);
        assert(ls.push(l).drop_first() =~= ls.drop_first().push(l));
        assert(ls.push(l)[0] == ls[0]);
        if !all_space(l) {
            if all_space(ls[0]) {
            } else {
                assert(seq![ls[0]] + kept_lines(ls.drop_first()).push(l) =~= (seq![ls[0]]
                    + kept_lines(ls.drop_first())).push(l));
            }
        }
    }
}

/// Drop the blank lines, as `kept_lines` describes.
fn keep_visible_lines(ls: Vec<String>) -> (r: Vec<String>)
    ensures
        views_of(r@) == kept_lines(views_of(ls@)),
{
    let mut r: Vec<String> = Vec::new();
    let mut i: usize = 0;
    proof {
        assert(views_of(ls@.take(0)) =~= Seq::<Seq<char>>::empty());
        assert(views_of(r@) =~= Seq::<Seq<char>>::empty());
    }
    while i < ls.len()
        invariant
            i <= ls@.len(),
            views_of(r@) == kept_lines(views_of(ls@.take(i as int))),
        decreases ls@.len() - i,
    {
        proof {
            lemma_kept_lines_push(views_of(ls@.take(i as int)), ls@[i as int]@);
            assert(views_of(ls@.take(i + 1)) =~= views_of(ls@.take(i as int)).push(
                ls@[i as int]@,
            ));
        }
        if has_visible_char(ls[i].as_str()) {
            let kept = ls[i].clone();
            proof {
                assert(views_of(r@.push(kept)) =~= views_of(r@).push(kept@));
            }
            r.push(kept);
        }
        i += 1;
    }
    proof {
        assert(ls@.take(ls@.len() as int) =~= ls@);
    }
    r
}

// ---------------------------------------------------------------------------
// Newline joining and the trailing newline
// ---------------------------------------------------------------------------

/// `s` with every newline replaced by `sep`.
pub open spec fn replace_nl(s: Seq<char>, sep: Seq<char>) -> Seq<char>
    decreases s.len(),
{
    if s.len() == 0 {
        Seq::empty()
    } else if s[0] == '\n' {
        sep + replace_nl(s.drop_first(), sep)
    } else {
        seq![s[0]] + replace_nl(s.drop_first(), sep)
    }
}

pub proof fn lemma_replace_nl_push(s: Seq<char>, c: char, sep: Seq<char>)
    ensures
        replace_nl(s.push(c), sep) == replace_nl(s, sep) + if c == '\n' {
            sep
        } else {
            seq![c]
        },
    decreases s.len(),
{
    if s.len() == 0 {
        assert(s.push(c) =~= seq![c]);
        assert(seq![c].drop_first() =~= Seq::<char>::empty());
        assert(replace_nl(Seq::<char>::empty(), sep) =~= Seq::<char>::empty());
        assert(s =~= Seq::<char>::empty());
        if c == '\n' {
            assert(replace_nl(seq![c], sep) =~= sep + Seq::<char>::empty());
            assert(sep + Seq::<char>::empty() =~= replace_nl(s, sep) + sep);
        } else {
            assert(replace_nl(seq![c], sep) =~= seq![c] + Seq::<char>::empty());
            assert(seq![c] + Seq::<char>::empty() =~= replace_nl(s, sep) + seq![c]);
        }
    } else {
        lemma_replace_nl_push(s.drop_first(), c, sep);
        assert(s.push(c).drop_first() =~= s.drop_first().push(c));
        assert(s.push(c)[0] == s[0]);
        let tail = if c == '\n' {
            sep
        } else {
            seq![c]
        };
        if s[0] == '\n' {
            assert(sep + (replace_nl(s.drop_first(), sep) + tail) =~= (sep + replace_nl(
                s.drop_first(),
                sep,
            )) + tail);
        } else {
            assert(seq![s[0]] + (replace_nl(s.drop_first(), sep) + tail) =~= (seq![s[0]]
                + replace_nl(s.drop_first(), sep)) + tail);
        }
    }
}

/// Replace every newline by the joining string, as `replace_nl` describes.
fn join_newlines_with(s: &str, sep: &str) -> (r: String)
    ensures
        r@ == replace_nl(s@, sep@),
{
    let len = s.unicode_len();
    let mut r = String::new();
    let mut i: usize = 0;
    proof {
        assert(s@.take(0) =~= Seq::<char>::empty());
    }
    while i < len
        invariant
            i <= len,
            len == s@.len(),
            r@ == replace_nl(s@.take(i as int), sep@),
        decreases len - i,
    {
        proof {
            lemma_replace_nl_push(s@.take(i as int), s@[i as int], sep@);
            assert(s@.take(i + 1) =~= s@.take(i as int).push(s@[i as int]));
        }
        if s.get_char(i) == '\n' {
            r.append(sep);
        } else {
            let piece = s.substring_char(i, i + 1);
            proof {
                assert(piece@ =~= seq![s@[i as int]]);
            }
            r.append(piece);
        }
        i += 1;
    }
    proof {
        assert(s@.take(s@.len() as int) =~= s@);
    }
    r
}

// ---------------------------------------------------------------------------
// Per-line truncation by a regular expression
// ---------------------------------------------------------------------------

/// Whether a regular-expression source compiles: the outcome of
/// `regex::Regex::new`, which depends on the pattern source alone.
pub uninterp spec fn regex_ok(pattern: Seq<char>) -> bool;

/// The text a line becomes when every match of the pattern is replaced by
/// nothing: the result of `regex::Regex::replace_all` with the empty
/// replacement, which depends on the pattern and the line alone.
pub uninterp spec fn regex_strip(pattern: Seq<char>, line: Seq<char>) -> Seq<char>;

/// Relies on `regex::Regex::new`, whose success is a function of the
/// pattern source alone, and on `regex::Regex::replace_all`, which with the
/// empty replacement removes every non-overlapping match and is a function
/// of the pattern and the haystack alone.
#[verifier::external_body]
fn strip_line(pattern: &str, line: &str) -> (r: Option<String>)
    ensures
        r is Some <==> regex_ok(pattern@),
        r matches Some(out) ==> out@ == regex_strip(pattern@, line@),
{
    match regex::Regex::new(pattern) {
        Ok(re) => Some(re.replace_all(line, "").into_owned()),
        Err(_) => None,
    }
}

/// Every line of `s`, stripped of the pattern's matches, rejoined with
/// newlines.
pub open spec fn truncate_step(pattern: Seq<char>, s: Seq<char>) -> Seq<char> {
    join_lines(
        split_lines(s).map_values(|l: Seq<char>| regex_strip(pattern, l)),
        seq!['\n'],
    )
}

/// Apply `strip_line` to every line, as `truncate_step` describes; `None`
/// exactly when the pattern does not compile.
fn truncate_lines(input: &str, pattern: &str) -> (r: Option<String>)
    ensures
        r is Some <==> regex_ok(pattern@),
        r matches Some(out) ==> out@ == truncate_step(pattern@, input@),
{
    let lines = split_lines_exec(input);
    let mut stripped: Vec<String> = Vec::new();
    let mut i: usize = 0;
    proof {
        assert(views_of(lines@).take(0) =~= Seq::<Seq<char>>::empty());
        assert(views_of(stripped@) =~= Seq::<Seq<char>>::empty());
        assert(Seq::<Seq<char>>::empty() =~= Seq::<Seq<char>>::empty().map_values(
            |l: Seq<char>| regex_strip(pattern@, l),
        ));
    }
    while i < lines.len()
        invariant
            i <= lines@.len(),
            views_of(lines@) == split_lines(input@),
            i > 0 ==> regex_ok(pattern@),
            views_of(stripped@) == views_of(lines@).take(i as int).map_values(
                |l: Seq<char>| regex_strip(pattern@, l),
            ),
        decreases lines@.len() - i,
    {
        match strip_line(pattern, lines[i].as_str()) {
            Some(out) => {
                proof {
                    assert(views_of(stripped@.push(out)) =~= views_of(stripped@).push(out@));
                    assert(views_of(lines@).take(i + 1).map_values(
                        |l: Seq<char>| regex_strip(pattern@, l),
                    ) =~= views_of(lines@).take(i as int).map_values(
                        |l: Seq<char>| regex_strip(pattern@, l),
                    ).push(regex_strip(pattern@, views_of(lines@)[i as int])));
                }
                stripped.push(out);
            },
            None => {
                return None;
            },
        }
        i += 1;
    }
    proof {
        assert(split_lines(input@).len() >= 1);
        assert(views_of(lines@).take(lines@.len() as int) =~= views_of(lines@));
    }
    Some(join_lines_exec(&stripped, newline_str()))
}

/// The one-character string holding a newline.
fn newline_str() -> (r: &'static str)
    ensures
        r@ == seq!['\n'],
{
    proof {
        reveal_strlit("\n");
        assert("\n"@ =~= seq!['\n']);
    }
    "\n"
}

// ---------------------------------------------------------------------------
// The whole pipeline
// ---------------------------------------------------------------------------

/// The byte-for-byte text a request's input becomes before it is written to
/// the child: truncation, blank-line removal, newline joining and the
/// trailing newline, each applied only when the command asks for it, in
/// that fixed order.
pub open spec fn shaped_text(
    input: Seq<char>,
    auto_trailing_newline: bool,
    join_with: Option<Seq<char>>,
    truncate_pattern: Option<Seq<char>>,
    remove_empty_line: bool,
) -> Seq<char> {
    let truncated = match truncate_pattern {
        Some(p) => truncate_step(p, input),
        None => input,
    };
    let cleaned = if remove_empty_line {
        join_lines(kept_lines(split_lines(truncated)), seq!['\n'])
    } else {
        truncated
    };
    let joined = match join_with {
        Some(sep) => replace_nl(cleaned, sep),
        None => cleaned,
    };
    if auto_trailing_newline {
        joined + seq!['\n']
    } else {
        joined
    }
}

/// The view of an optional borrowed string.
pub open spec fn opt_view(o: Option<&String>) -> Option<Seq<char>> {
    match o {
        Some(s) => Some(s@),
        None => None,
    }
}

/// The view of an optional owned string.
pub open spec fn opt_string_view(o: Option<String>) -> Option<Seq<char>> {
    match o {
        Some(s) => Some(s@),
        None => None,
    }
}

/// Shape a request's input for the child's standard input. Fails exactly
/// when a truncation pattern is configured and does not compile.
pub fn arrange_input(
    input: String,
    auto_trailing_newline: bool,
    join_new_lines_with: Option<&String>,
    truncate_line_regex: Option<&String>,
    remove_empty_line: bool,
) -> (r: Result<String, ProcessManagerError>)
    ensures
        ({
            let trunc = opt_view(truncate_line_regex);
            match r {
                Ok(out) => (trunc matches Some(p) ==> regex_ok(p)) && out@ == shaped_text(
                    input@,
                    auto_trailing_newline,
                    opt_view(join_new_lines_with),
                    trunc,
                    remove_empty_line,
                ),
                Err(e) => (trunc matches Some(p) && !regex_ok(p)) && (e matches
                    ProcessManagerError::RegexError(src) && src@ == trunc.unwrap()),
            }
        }),
{
    let mut text = input;
    if let Some(pat) = truncate_line_regex {
        match truncate_lines(text.as_str(), pat.as_str()) {
            Some(t) => {
                text = t;
            },
            None => {
                return Err(ProcessManagerError::RegexError(pat.clone()));
            },
        }
    }
    if remove_empty_line {
        let lines = split_lines_exec(text.as_str());
        let kept = keep_visible_lines(lines);
        text = join_lines_exec(&kept, newline_str());
    }
    if let Some(rep) = join_new_lines_with {
        text = join_newlines_with(text.as_str(), rep.as_str());
    }
    if auto_trailing_newline {
        text.append(newline_str());
    }
    Ok(text)
}

// ---------------------------------------------------------------------------
// Laws of the pipeline
// ---------------------------------------------------------------------------

/// Under the identity policy — no truncation pattern, no blank-line
/// removal, no joining string, no trailing newline — shaping returns its
/// input unchanged.
pub proof fn lemma_shape_identity(input: Seq<char>)
    ensures
        shaped_text(input, false, None, None, false) == input,
{
}

/// Shaping an already-shaped text under the identity policy changes
/// nothing: the pipeline is idempotent there.
pub proof fn lemma_shape_identity_idempotent(
    input: Seq<char>,
    auto_trailing_newline: bool,
    join_with: Option<Seq<char>>,
    truncate_pattern: Option<Seq<char>>,
    remove_empty_line: bool,
)
    ensures
        shaped_text(
            shaped_text(
                input,
                auto_trailing_newline,
                join_with,
                truncate_pattern,
                remove_empty_line,
            ),
            false,
            None,
            None,
            false,
        ) == shaped_text(
            input,
            auto_trailing_newline,
            join_with,
            truncate_pattern,
            remove_empty_line,
        ),
{
}

/// Text holding any visible character is never treated as empty.
pub proof fn lemma_visible_not_rejected(s: Seq<char>, i: int)
    requires
        0 <= i < s.len(),
        !is_space_char(s[i]),
    ensures
        !all_space(s),
{
}

} // verus!
