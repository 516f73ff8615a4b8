//! The two-stage definition parser: a dictionary cell's definition text is
//! split into a part of speech and a translation.
//!
//! Stage one looks for a leading parenthesized group after optional white
//! space; the group may not span a line break, and the remainder of the line
//! after it becomes the candidate translation. Stage two prefers a more
//! specific inline tag: when the candidate translation starts with one of a
//! short closed set of part-of-speech abbreviations (tried in the order
//! `pron`, `adj`, `det`, `n`, `v`, `adv`, `int`, `conj`, case-insensitively,
//! with an optional trailing period), that abbreviation overrides the
//! parenthesized one. With no parenthesized group at all, the part of speech
//! is the sentinel `N/A` and the whole text is the translation, verbatim.

use vstd::prelude::*;

use crate::text::{
    chars_to_string, ci_eq, copy_range, is_space, is_space_char, to_chars, trim_in_range,
    trim_spec,
};

verus! {

/// The position of the first occurrence of `c` in `s` at or after `from`.
pub open spec fn find_char_from(s: Seq<char>, c: char, from: int) -> Option<int>
    decreases s.len() - from,
        when 0 <= from <= s.len()
{
    if from >= s.len() {
        None
    } else if s[from] == c {
        Some(from)
    } else {
        find_char_from(s, c, from + 1)
    }
}

/// The position just past the run of white space starting at `from`.
pub open spec fn space_run_end(s: Seq<char>, from: int) -> int
    decreases s.len() - from,
        when 0 <= from <= s.len()
{
    if from >= s.len() {
        from
    } else if is_space_char(s[from]) {
        space_run_end(s, from + 1)
    } else {
        from
    }
}

/// The position of the line break at or after `from`, or the end of `s`.
pub open spec fn line_end(s: Seq<char>, from: int) -> int {
    match find_char_from(s, '\n', from) {
        Some(i) => i,
        None => s.len() as int,
    }
}

pub proof fn lemma_find_char_bounds(s: Seq<char>, c: char, from: int)
    requires
        0 <= from <= s.len(),
    ensures
        match find_char_from(s, c, from) {
            Some(i) => from <= i < s.len() && s[i] == c,
            None => true,
        },
    decreases s.len() - from,
{
    if from < s.len() && s[from] != c {
        lemma_find_char_bounds(s, c, from + 1);
    }
}

/// Maps an optional index into the mathematical domain.
pub open spec fn opt_index(o: Option<usize>) -> Option<int> {
    match o {
        Some(i) => Some(i as int),
        None => None,
    }
}

/// Finds the first occurrence of `c` in `v` at or after `from`.
pub fn find_char(v: &Vec<char>, c: char, from: usize) -> (r: Option<usize>)
    requires
        from <= v@.len(),
    ensures
        opt_index(r) == find_char_from(v@, c, from as int),
{
    let mut i: usize = from;
    while i < v.len()
        invariant
            from <= i <= v@.len(),
            find_char_from(v@, c, from as int) == find_char_from(v@, c, i as int),
        decreases v@.len() - i,
    {
        if v[i] == c {
            return Some(i);
        }
        i += 1;
    }
    None
}

/// Skips the run of white space starting at `from`.
pub fn space_run(v: &Vec<char>, from: usize) -> (r: usize)
    requires
        from <= v@.len(),
    ensures
        r as int == space_run_end(v@, from as int),
        from <= r <= v@.len(),
{
    let mut i: usize = from;
    while i < v.len() && is_space(v[i])
        invariant
            from <= i <= v@.len(),
            space_run_end(v@, from as int) == space_run_end(v@, i as int),
        decreases v@.len() - i,
    {
        i += 1;
    }
    i
}

/// Finds the end of the line starting at `from`.
pub fn line_break(v: &Vec<char>, from: usize) -> (r: usize)
    requires
        from <= v@.len(),
    ensures
        r as int == line_end(v@, from as int),
        from <= r <= v@.len(),
{
    proof {
        lemma_find_char_bounds(v@, '\n', from as int);
    }
    match find_char(v, '\n', from) {
        Some(i) => i,
        None => v.len(),
    }
}

/// The length of the first abbreviation of the closed part-of-speech set that
/// prefixes `t`, tried in the fixed preference order.
pub open spec fn inline_abbrev_len(t: Seq<char>) -> Option<int> {
    if t.len() >= 4 && ci_eq(t[0], 'p') && ci_eq(t[1], 'r') && ci_eq(t[2], 'o') && ci_eq(
        t[3],
        'n',
    ) {
        Some(4)
    } else if t.len() >= 3 && ci_eq(t[0], 'a') && ci_eq(t[1], 'd') && ci_eq(t[2], 'j') {
        Some(3)
    } else if t.len() >= 3 && ci_eq(t[0], 'd') && ci_eq(t[1], 'e') && ci_eq(t[2], 't') {
        Some(3)
    } else if t.len() >= 1 && ci_eq(t[0], 'n') {
        Some(1)
    } else if t.len() >= 1 && ci_eq(t[0], 'v') {
        Some(1)
    } else if t.len() >= 3 && ci_eq(t[0], 'a') && ci_eq(t[1], 'd') && ci_eq(t[2], 'v') {
        Some(3)
    } else if t.len() >= 3 && ci_eq(t[0], 'i') && ci_eq(t[1], 'n') && ci_eq(t[2], 't') {
        Some(3)
    } else if t.len() >= 4 && ci_eq(t[0], 'c') && ci_eq(t[1], 'o') && ci_eq(t[2], 'n') && ci_eq(
        t[3],
        'j',
    ) {
        Some(4)
    } else {
        None
    }
}

/// The inline-tag match on a candidate translation: the matched abbreviation
/// as written, and the rest of its line after an optional period and white
/// space.
pub open spec fn inline_match(t: Seq<char>) -> Option<(Seq<char>, Seq<char>)> {
    match inline_abbrev_len(t) {
        Some(al) => {
            let dot = if al < t.len() && t[al] == '.' {
                al + 1
            } else {
                al
            };
            let w = space_run_end(t, dot);
            let e = line_end(t, w);
            Some((t.subrange(0, al), t.subrange(w, e)))
        },
        None => None,
    }
}

/// Whether a line break occurs in `d` at or after `from` and before `p`.
pub open spec fn break_before(d: Seq<char>, from: int, p: int) -> bool {
    match find_char_from(d, '\n', from) {
        Some(q) => q < p,
        None => false,
    }
}

/// The leading-parenthetical match: the group between the first parenthesis
/// pair, and the rest of its line. There is no match when the text after
/// leading white space does not open a parenthesis, when no closing
/// parenthesis follows, or when a line break falls inside the group.
pub open spec fn paren_match(d: Seq<char>) -> Option<(Seq<char>, Seq<char>)> {
    let lead = space_run_end(d, 0);
    if lead < d.len() && d[lead] == '(' {
        match find_char_from(d, ')', lead + 1) {
            Some(p) => {
                if break_before(d, lead + 1, p) {
                    None
                } else {
                    let w = space_run_end(d, p + 1);
                    let e = line_end(d, w);
                    Some((d.subrange(lead + 1, p), d.subrange(w, e)))
                }
            },
            None => None,
        }
    } else {
        None
    }
}

/// What `parse_definition` returns: the part of speech and the translation.
pub open spec fn parse_definition_spec(d: Seq<char>) -> (Seq<char>, Seq<char>) {
    match paren_match(d) {
        Some((g1, g2)) => {
            let t = trim_spec(g2);
            match inline_match(t) {
                Some((a, rest)) => (a, trim_spec(rest)),
                None => (trim_spec(g1), t),
            }
        },
        None => (seq!['N', '/', 'A'], d),
    }
}

/// Checks the candidate translation for an inline part-of-speech tag.
fn check_abbrev(t: &Vec<char>) -> (r: Option<usize>)
    ensures
        opt_index(r) == inline_abbrev_len(t@),
        r matches Some(al) ==> al <= t@.len(),
{
    let n = t.len();
    if n >= 4 && lower_eq(t[0], 'p') && lower_eq(t[1], 'r') && lower_eq(t[2], 'o') && lower_eq(
        t[3],
        'n',
    ) {
        Some(4)
    } else if n >= 3 && lower_eq(t[0], 'a') && lower_eq(t[1], 'd') && lower_eq(t[2], 'j') {
        Some(3)
    } else if n >= 3 && lower_eq(t[0], 'd') && lower_eq(t[1], 'e') && lower_eq(t[2], 't') {
        Some(3)
    } else if n >= 1 && lower_eq(t[0], 'n') {
        Some(1)
    } else if n >= 1 && lower_eq(t[0], 'v') {
        Some(1)
    } else if n >= 3 && lower_eq(t[0], 'a') && lower_eq(t[1], 'd') && lower_eq(t[2], 'v') {
        Some(3)
    } else if n >= 3 && lower_eq(t[0], 'i') && lower_eq(t[1], 'n') && lower_eq(t[2], 't') {
        Some(3)
    } else if n >= 4 && lower_eq(t[0], 'c') && lower_eq(t[1], 'o') && lower_eq(t[2], 'n')
        && lower_eq(t[3], 'j') {
        Some(4)
    } else {
        None
    }
}

/// Case-insensitive comparison of one character against a pattern letter.
fn lower_eq(a: char, b: char) -> (r: bool)
    ensures
        r == ci_eq(a, b),
{
    crate::text::lower_code(a) == crate::text::lower_code(b)
}

/// Splits a definition into its part of speech and translation text.
pub fn parse_definition(definition: &str) -> (r: (String, String))
    ensures
        r.0@ == parse_definition_spec(definition@).0,
        r.1@ == parse_definition_spec(definition@).1,
{
    let v = to_chars(definition);
    let lead = space_run(&v, 0);
    if lead < v.len() && v[lead] == '(' {
        proof {
            lemma_find_char_bounds(v@, ')', lead + 1 as int);
        }
        match find_char(&v, ')', lead + 1) {
            Some(p) => {
                let broken = match find_char(&v, '\n', lead + 1) {
                    Some(q) => q < p,
                    None => false,
                };
                if broken {
                    sentinel_result(definition)
                } else {
                    let w = space_run(&v, p + 1);
                    let e = line_break(&v, w);
                    let t = trim_in_range(&v, w, e);
                    match check_abbrev(&t) {
                        Some(al) => {
                            let dot: usize = if al < t.len() && t[al] == '.' {
                                al + 1
                            } else {
                                al
                            };
                            let w2 = space_run(&t, dot);
                            let e2 = line_break(&t, w2);
                            let pos = copy_range(&t, 0, al);
                            let rest = trim_in_range(&t, w2, e2);
                            (chars_to_string(&pos), chars_to_string(&rest))
                        },
                        None => {
                            let g1 = trim_in_range(&v, lead + 1, p);
                            (chars_to_string(&g1), chars_to_string(&t))
                        },
                    }
                }
            },
            None => sentinel_result(definition),
        }
    } else {
        sentinel_result(definition)
    }
}

/// The no-match result: the sentinel part of speech and the text verbatim.
fn sentinel_result(definition: &str) -> (r: (String, String))
    requires
        paren_match(definition@) is None,
    ensures
        r.0@ == parse_definition_spec(definition@).0,
        r.1@ == parse_definition_spec(definition@).1,
{
    let pos = String::from_str("N/A");
    proof {
        reveal_strlit("N/A");
        assert(pos@ =~= seq!['N', '/', 'A']);
    }
    (pos, String::from_str(definition))
}

} // verus!
