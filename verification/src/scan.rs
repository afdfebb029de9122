//! Scanners that respect string literals and bracket nesting, and the small
//! lexical predicates of the language.
use vstd::prelude::*;

use crate::text::{
    alnum, alpha, chars_of, contains, digit, find_from, has_suffix, has_suffix_str, ident_char,
    ident_start, is, is_alnum, is_alpha, is_digit, is_ident_char, is_ident_start, lemma_find_from,
    occurs_at, slice, spec_find, spec_find_from, views,
};

verus! {

// ---------------------------------------------------------------------------
// Bracket matching
// ---------------------------------------------------------------------------

/// The position of the `close` that balances an `open` already consumed,
/// scanning from `i` with `depth` further opens pending. Inside a string
/// literal brackets do not count, and a backslash escapes the next character.
pub open spec fn close_from(
    s: Seq<char>,
    open: char,
    close: char,
    i: int,
    depth: nat,
    in_str: bool,
    esc: bool,
) -> Option<int>
    decreases s.len() - i,
{
    if i < 0 || i >= s.len() {
        None
    } else {
        let c = s[i];
        if in_str {
            if esc {
                close_from(s, open, close, i + 1, depth, true, false)
            } else if c == '\\' {
                close_from(s, open, close, i + 1, depth, true, true)
            } else if c == '"' {
                close_from(s, open, close, i + 1, depth, false, false)
            } else {
                close_from(s, open, close, i + 1, depth, true, false)
            }
        } else if c == '"' {
            close_from(s, open, close, i + 1, depth, true, esc)
        } else if c == open {
            close_from(s, open, close, i + 1, depth + 1, false, esc)
        } else if c == close {
            if depth == 0 {
                Some(i)
            } else {
                close_from(s, open, close, i + 1, (depth - 1) as nat, false, esc)
            }
        } else {
            close_from(s, open, close, i + 1, depth, false, esc)
        }
    }
}

/// The position in `s` of the `close` that matches an `open` just before `s`.
pub open spec fn spec_matching_close(s: Seq<char>, open: char, close: char) -> Option<int> {
    close_from(s, open, close, 0, 0, false, false)
}

pub proof fn lemma_close_from(
    s: Seq<char>,
    open: char,
    close: char,
    i: int,
    depth: nat,
    in_str: bool,
    esc: bool,
)
    requires
        0 <= i,
    ensures
        close_from(s, open, close, i, depth, in_str, esc) matches Some(k) ==> i <= k < s.len()
            && s[k] == close,
    decreases s.len() - i,
{
    if i < s.len() {
        let c = s[i];
        if in_str {
            if esc {
                lemma_close_from(s, open, close, i + 1, depth, true, false);
            } else if c == '\\' {
                lemma_close_from(s, open, close, i + 1, depth, true, true);
            } else if c == '"' {
                lemma_close_from(s, open, close, i + 1, depth, false, false);
            } else {
                lemma_close_from(s, open, close, i + 1, depth, true, false);
            }
        } else if c == '"' {
            lemma_close_from(s, open, close, i + 1, depth, true, esc);
        } else if c == open {
            lemma_close_from(s, open, close, i + 1, depth + 1, false, esc);
        } else if c == close {
            if depth != 0 {
                lemma_close_from(s, open, close, i + 1, (depth - 1) as nat, false, esc);
            }
        } else {
            lemma_close_from(s, open, close, i + 1, depth, false, esc);
        }
    }
}

pub fn matching_close(s: &Vec<char>, open: char, close: char) -> (r: Option<usize>)
    ensures
        r matches Some(k) ==> spec_matching_close(s@, open, close) == Some(k as int) && k < s.len(),
        r is None ==> spec_matching_close(s@, open, close) is None,
{
    let mut depth: usize = 0;
    let mut in_str = false;
    let mut esc = false;
    let mut i: usize = 0;
    proof {
        lemma_close_from(s@, open, close, 0, 0, false, false);
    }
    while i < s.len()
        invariant
            i <= s.len(),
            depth <= i,
            close_from(s@, open, close, i as int, depth as nat, in_str, esc)
                == spec_matching_close(s@, open, close),
        decreases s.len() - i,
    {
        let c = s[i];
        if in_str {
            if esc {
                esc = false;
            } else if c == '\\' {
                esc = true;
            } else if c == '"' {
                in_str = false;
            }
        } else if c == '"' {
            in_str = true;
        } else if c == open {
            depth += 1;
        } else if c == close {
            if depth == 0 {
                return Some(i);
            }
            depth -= 1;
        }
        i += 1;
    }
    None
}

// ---------------------------------------------------------------------------
// Top-level commas
// ---------------------------------------------------------------------------

pub open spec fn is_opening(c: char) -> bool {
    c == '(' || c == '[' || c == '{'
}

pub open spec fn is_closing(c: char) -> bool {
    c == ')' || c == ']' || c == '}'
}

/// The pieces of `s` between top-level commas, scanning from `i`, where the
/// current piece started at `start`. Brackets of the three kinds nest
/// together, and nothing inside a string literal counts.
pub open spec fn split_from(
    s: Seq<char>,
    i: int,
    start: int,
    depth: int,
    in_str: bool,
    esc: bool,
) -> Seq<Seq<char>>
    decreases s.len() - i,
{
    if i < 0 || i >= s.len() {
        seq![s.subrange(start, s.len() as int)]
    } else {
        let c = s[i];
        if in_str {
            if esc {
                split_from(s, i + 1, start, depth, true, false)
            } else if c == '\\' {
                split_from(s, i + 1, start, depth, true, true)
            } else if c == '"' {
                split_from(s, i + 1, start, depth, false, false)
            } else {
                split_from(s, i + 1, start, depth, true, false)
            }
        } else if c == '"' {
            split_from(s, i + 1, start, depth, true, esc)
        } else if is_opening(c) {
            split_from(s, i + 1, start, depth + 1, false, esc)
        } else if is_closing(c) {
            split_from(s, i + 1, start, depth - 1, false, esc)
        } else if c == ',' && depth == 0 {
            seq![s.subrange(start, i)] + split_from(s, i + 1, i + 1, depth, false, esc)
        } else {
            split_from(s, i + 1, start, depth, false, esc)
        }
    }
}

/// The pieces of `s` between its top-level commas; there is always at least one.
pub open spec fn spec_split_commas(s: Seq<char>) -> Seq<Seq<char>> {
    split_from(s, 0, 0, 0, false, false)
}

pub proof fn lemma_split_from(s: Seq<char>, i: int, start: int, depth: int, in_str: bool, esc: bool)
    requires
        0 <= start <= i <= s.len(),
    ensures
        split_from(s, i, start, depth, in_str, esc).len() >= 1,
        forall|k: int|
            0 <= k < split_from(s, i, start, depth, in_str, esc).len() ==> (#[trigger] split_from(
                s,
                i,
                start,
                depth,
                in_str,
                esc,
            )[k]).len() <= s.len() - start,
    decreases s.len() - i,
{
    if i < s.len() {
        let c = s[i];
        if in_str {
            if esc {
                lemma_split_from(s, i + 1, start, depth, true, false);
            } else if c == '\\' {
                lemma_split_from(s, i + 1, start, depth, true, true);
            } else if c == '"' {
                lemma_split_from(s, i + 1, start, depth, false, false);
            } else {
                lemma_split_from(s, i + 1, start, depth, true, false);
            }
        } else if c == '"' {
            lemma_split_from(s, i + 1, start, depth, true, esc);
        } else if is_opening(c) {
            lemma_split_from(s, i + 1, start, depth + 1, false, esc);
        } else if is_closing(c) {
            lemma_split_from(s, i + 1, start, depth - 1, false, esc);
        } else if c == ',' && depth == 0 {
            lemma_split_from(s, i + 1, i + 1, depth, false, esc);
            let rest = split_from(s, i + 1, i + 1, depth, false, esc);
            assert forall|k: int|
                0 <= k < split_from(s, i, start, depth, in_str, esc).len() implies (
            #[trigger] split_from(s, i, start, depth, in_str, esc)[k]).len() <= s.len()
                - start by {
                if k > 0 {
                    assert(split_from(s, i, start, depth, in_str, esc)[k] == rest[k - 1]);
                }
            }
        } else {
            lemma_split_from(s, i + 1, start, depth, false, esc);
        }
    }
}

/// Every piece is no longer than `s`, and there is at least one.
pub proof fn lemma_split_commas(s: Seq<char>)
    ensures
        spec_split_commas(s).len() >= 1,
        forall|k: int|
            0 <= k < spec_split_commas(s).len() ==> (#[trigger] spec_split_commas(s)[k]).len()
                <= s.len(),
{
    lemma_split_from(s, 0, 0, 0, false, false);
}

pub fn split_top_level_commas(s: &Vec<char>) -> (r: Vec<Vec<char>>)
    ensures
        views(r@) == spec_split_commas(s@),
        r.len() >= 1,
{
    let mut r: Vec<Vec<char>> = Vec::new();
    let mut start: usize = 0;
    // the depth is `opens - closes`
    let mut opens: usize = 0;
    let mut closes: usize = 0;
    let mut in_str = false;
    let mut esc = false;
    let mut i: usize = 0;
    while i < s.len()
        invariant
            start <= i <= s.len(),
            opens <= i,
            closes <= i,
            views(r@) + split_from(s@, i as int, start as int, opens - closes, in_str, esc)
                == spec_split_commas(s@),
        decreases s.len() - i,
    {
        let c = s[i];
        if in_str {
            if esc {
                esc = false;
            } else if c == '\\' {
                esc = true;
            } else if c == '"' {
                in_str = false;
            }
        } else if c == '"' {
            in_str = true;
        } else if c == '(' || c == '[' || c == '{' {
            opens += 1;
        } else if c == ')' || c == ']' || c == '}' {
            closes += 1;
        } else if c == ',' && opens == closes {
            let piece = slice(s, start, i);
            let ghost before = views(r@);
            r.push(piece);
            proof {
                assert(views(r@) == before.push(piece@));
                assert(views(r@) + split_from(s@, i + 1, i + 1, opens - closes, false, esc)
                    =~= before + split_from(s@, i as int, start as int, opens - closes, false, esc));
            }
            start = i + 1;
        }
        i += 1;
    }
    let piece = slice(s, start, s.len());
    let ghost before = views(r@);
    r.push(piece);
    proof {
        assert(views(r@) == before.push(piece@));
        assert(views(r@) =~= before + split_from(s@, i as int, start as int, opens - closes, in_str, esc));
    }
    r
}

/// The position of the first `needle` outside brackets and string literals,
/// scanning from `i`.
pub open spec fn index_from(
    s: Seq<char>,
    needle: char,
    i: int,
    depth: int,
    in_str: bool,
    esc: bool,
) -> Option<int>
    decreases s.len() - i,
{
    if i < 0 || i >= s.len() {
        None
    } else {
        let c = s[i];
        if in_str {
            if esc {
                index_from(s, needle, i + 1, depth, true, false)
            } else if c == '\\' {
                index_from(s, needle, i + 1, depth, true, true)
            } else if c == '"' {
                index_from(s, needle, i + 1, depth, false, false)
            } else {
                index_from(s, needle, i + 1, depth, true, false)
            }
        } else if c == '"' {
            index_from(s, needle, i + 1, depth, true, esc)
        } else if is_opening(c) {
            index_from(s, needle, i + 1, depth + 1, false, esc)
        } else if is_closing(c) {
            index_from(s, needle, i + 1, depth - 1, false, esc)
        } else if c == needle && depth == 0 {
            Some(i)
        } else {
            index_from(s, needle, i + 1, depth, false, esc)
        }
    }
}

/// The position of the first top-level `needle` in `s`.
pub open spec fn spec_split_index(s: Seq<char>, needle: char) -> Option<int> {
    index_from(s, needle, 0, 0, false, false)
}

pub proof fn lemma_index_from(
    s: Seq<char>,
    needle: char,
    i: int,
    depth: int,
    in_str: bool,
    esc: bool,
)
    requires
        0 <= i,
    ensures
        index_from(s, needle, i, depth, in_str, esc) matches Some(k) ==> i <= k < s.len()
            && s[k] == needle,
    decreases s.len() - i,
{
    if i < s.len() {
        let c = s[i];
        if in_str {
            if esc {
                lemma_index_from(s, needle, i + 1, depth, true, false);
            } else if c == '\\' {
                lemma_index_from(s, needle, i + 1, depth, true, true);
            } else if c == '"' {
                lemma_index_from(s, needle, i + 1, depth, false, false);
            } else {
                lemma_index_from(s, needle, i + 1, depth, true, false);
            }
        } else if c == '"' {
            lemma_index_from(s, needle, i + 1, depth, true, esc);
        } else if is_opening(c) {
            lemma_index_from(s, needle, i + 1, depth + 1, false, esc);
        } else if is_closing(c) {
            lemma_index_from(s, needle, i + 1, depth - 1, false, esc);
        } else if c == needle && depth == 0 {
        } else {
            lemma_index_from(s, needle, i + 1, depth, false, esc);
        }
    }
}

pub fn split_index(s: &Vec<char>, needle: char) -> (r: Option<usize>)
    ensures
        r matches Some(k) ==> spec_split_index(s@, needle) == Some(k as int) && k < s.len(),
        r is None ==> spec_split_index(s@, needle) is None,
{
    let mut opens: usize = 0;
    let mut closes: usize = 0;
    let mut in_str = false;
    let mut esc = false;
    let mut i: usize = 0;
    proof {
        lemma_index_from(s@, needle, 0, 0, false, false);
    }
    while i < s.len()
        invariant
            i <= s.len(),
            opens <= i,
            closes <= i,
            index_from(s@, needle, i as int, opens - closes, in_str, esc) == spec_split_index(
                s@,
                needle,
            ),
        decreases s.len() - i,
    {
        let c = s[i];
        if in_str {
            if esc {
                esc = false;
            } else if c == '\\' {
                esc = true;
            } else if c == '"' {
                in_str = false;
            }
        } else if c == '"' {
            in_str = true;
        } else if c == '(' || c == '[' || c == '{' {
            opens += 1;
        } else if c == ')' || c == ']' || c == '}' {
            closes += 1;
        } else if c == needle && opens == closes {
            return Some(i);
        }
        i += 1;
    }
    None
}

/// The position of the first top-level comma.
pub fn find_top_level_comma(s: &Vec<char>) -> (r: Option<usize>)
    ensures
        r matches Some(k) ==> spec_split_index(s@, ',') == Some(k as int) && k < s.len(),
        r is None ==> spec_split_index(s@, ',') is None,
{
    split_index(s, ',')
}

// ---------------------------------------------------------------------------
// Identifiers and words
// ---------------------------------------------------------------------------

/// The first position at or after `i` where an identifier may start.
pub open spec fn ident_start_from(s: Seq<char>, i: int) -> Option<int>
    decreases s.len() - i,
{
    if i < 0 || i >= s.len() {
        None
    } else if is_ident_start(s[i]) {
        Some(i)
    } else {
        ident_start_from(s, i + 1)
    }
}

/// The end of the run of identifier characters that starts at `j`.
pub open spec fn ident_end_from(s: Seq<char>, j: int) -> int
    decreases s.len() - j,
{
    if j < 0 || j >= s.len() || !is_ident_char(s[j]) {
        j
    } else {
        ident_end_from(s, j + 1)
    }
}

/// The bounds of the first identifier in `s`.
pub open spec fn spec_next_identifier(s: Seq<char>) -> Option<(int, int)> {
    match ident_start_from(s, 0) {
        Some(a) => Some((a, ident_end_from(s, a + 1))),
        None => None,
    }
}

pub proof fn lemma_ident_start_from(s: Seq<char>, i: int)
    requires
        0 <= i,
    ensures
        ident_start_from(s, i) matches Some(a) ==> i <= a < s.len() && is_ident_start(s[a])
            && forall|k: int| i <= k < a ==> !is_ident_start(s[k]),
        ident_start_from(s, i) is None ==> forall|k: int|
            i <= k < s.len() ==> !is_ident_start(s[k]),
    decreases s.len() - i,
{
    if i < s.len() && !is_ident_start(s[i]) {
        lemma_ident_start_from(s, i + 1);
    }
}

pub proof fn lemma_ident_end_from(s: Seq<char>, j: int)
    requires
        0 <= j <= s.len(),
    ensures
        j <= ident_end_from(s, j) <= s.len(),
        forall|k: int| j <= k < ident_end_from(s, j) ==> is_ident_char(s[k]),
        ident_end_from(s, j) < s.len() ==> !is_ident_char(s[ident_end_from(s, j)]),
    decreases s.len() - j,
{
    if j < s.len() && is_ident_char(s[j]) {
        lemma_ident_end_from(s, j + 1);
    }
}

pub proof fn lemma_next_identifier(s: Seq<char>)
    ensures
        spec_next_identifier(s) matches Some((a, b)) ==> 0 <= a < b <= s.len(),
{
    lemma_ident_start_from(s, 0);
    if let Some(a) = ident_start_from(s, 0) {
        lemma_ident_end_from(s, a + 1);
    }
}

/// The start and end of the first identifier in `s`.
pub fn next_identifier(s: &Vec<char>) -> (r: Option<(usize, usize)>)
    ensures
        r matches Some((a, b)) ==> spec_next_identifier(s@) == Some((a as int, b as int)) && a
            < b <= s.len(),
        r is None ==> spec_next_identifier(s@) is None,
{
    proof {
        lemma_ident_start_from(s@, 0);
    }
    let mut i: usize = 0;
    while i < s.len() && !ident_start(s[i])
        invariant
            i <= s.len(),
            ident_start_from(s@, i as int) == ident_start_from(s@, 0),
        decreases s.len() - i,
    {
        i += 1;
    }
    if i == s.len() {
        return None;
    }
    proof {
        lemma_ident_end_from(s@, i + 1);
    }
    let mut j = i + 1;
    while j < s.len() && ident_char(s[j])
        invariant
            i < j <= s.len(),
            ident_end_from(s@, j as int) == ident_end_from(s@, i + 1),
        decreases s.len() - j,
    {
        j += 1;
    }
    Some((i, j))
}

/// The character before position `a` is not a letter or digit (or there is none).
pub open spec fn free_before(s: Seq<char>, a: int) -> bool {
    a <= 0 || !is_alnum(s[a - 1])
}

/// The character at position `b` is not a letter or digit (or there is none).
pub open spec fn free_after(s: Seq<char>, b: int) -> bool {
    b >= s.len() || !is_alnum(s[b])
}

/// The first occurrence of `w` at or after `offset` that is not part of a
/// longer run of letters and digits.
pub open spec fn word_from(s: Seq<char>, w: Seq<char>, offset: int) -> Option<int>
    decreases s.len() + 1 - offset,
{
    if w.len() == 0 || offset < 0 {
        None
    } else {
        match spec_find_from(s, w, offset) {
            None => None,
            Some(a) => {
                proof {
                    lemma_find_from(s, w, offset);
                }
                if free_before(s, a) && free_after(s, a + w.len()) {
                    Some(a)
                } else {
                    word_from(s, w, a + w.len())
                }
            },
        }
    }
}

/// The position of the first occurrence of `w` in `s` as a whole word.
pub open spec fn spec_find_word(s: Seq<char>, w: Seq<char>) -> Option<int> {
    word_from(s, w, 0)
}

pub proof fn lemma_word_from(s: Seq<char>, w: Seq<char>, offset: int)
    requires
        0 <= offset,
    ensures
        word_from(s, w, offset) matches Some(a) ==> offset <= a && occurs_at(s, w, a),
    decreases s.len() + 1 - offset,
{
    if w.len() > 0 {
        lemma_find_from(s, w, offset);
        if let Some(a) = spec_find_from(s, w, offset) {
            if !(free_before(s, a) && free_after(s, a + w.len())) {
                lemma_word_from(s, w, a + w.len());
            }
        }
    }
}

pub fn find_word(s: &Vec<char>, w: &Vec<char>) -> (r: Option<usize>)
    ensures
        r matches Some(a) ==> spec_find_word(s@, w@) == Some(a as int) && a + w.len() <= s.len(),
        r is None ==> spec_find_word(s@, w@) is None,
{
    if w.len() == 0 {
        return None;
    }
    proof {
        lemma_word_from(s@, w@, 0);
    }
    let mut offset: usize = 0;
    loop
        invariant
            w.len() > 0,
            offset <= s.len() + 1,
            word_from(s@, w@, offset as int) == spec_find_word(s@, w@),
        decreases s.len() + 1 - offset,
    {
        proof {
            lemma_find_from(s@, w@, offset as int);
        }
        match find_from(s, w, offset) {
            None => {
                return None;
            },
            Some(a) => {
                let before_ok = a == 0 || !alnum(s[a - 1]);
                let after_ok = a + w.len() >= s.len() || !alnum(s[a + w.len()]);
                if before_ok && after_ok {
                    return Some(a);
                }
                offset = a + w.len();
            },
        }
    }
}

/// Whether the text of a raw line opens a nested `do` block.
pub open spec fn spec_has_do_word(s: Seq<char>) -> bool {
    s == "do"@ || has_suffix(s, " do"@) || spec_find(s, " do "@) is Some
}

pub fn has_do_word(s: &Vec<char>) -> (b: bool)
    ensures
        b == spec_has_do_word(s@),
{
    if is(s, "do") {
        return true;
    }
    if has_suffix_str(s, " do") {
        return true;
    }
    let needle = chars_of(" do ");
    contains(s, &needle)
}

pub open spec fn spec_is_identifier(s: Seq<char>) -> bool {
    s.len() > 0 && is_ident_start(s[0]) && forall|k: int| 1 <= k < s.len() ==> is_ident_char(s[k])
}

pub open spec fn spec_is_command_name(s: Seq<char>) -> bool {
    s.len() > 0 && forall|k: int| 0 <= k < s.len() ==> is_alpha(s[k])
}

pub open spec fn spec_is_plain_number(s: Seq<char>) -> bool {
    &&& s.len() > 0
    &&& forall|k: int| 0 <= k < s.len() ==> is_digit(s[k]) || s[k] == '.'
    &&& exists|k: int| 0 <= k < s.len() && is_digit(s[k])
}

pub fn is_identifier(s: &Vec<char>) -> (b: bool)
    ensures
        b == spec_is_identifier(s@),
{
    if s.len() == 0 || !ident_start(s[0]) {
        return false;
    }
    let mut i: usize = 1;
    while i < s.len()
        invariant
            1 <= i <= s.len(),
            forall|k: int| 1 <= k < i ==> is_ident_char(s@[k]),
        decreases s.len() - i,
    {
        if !ident_char(s[i]) {
            return false;
        }
        i += 1;
    }
    true
}

pub fn is_latex_command_name(s: &Vec<char>) -> (b: bool)
    ensures
        b == spec_is_command_name(s@),
{
    if s.len() == 0 {
        return false;
    }
    let mut i: usize = 0;
    while i < s.len()
        invariant
            i <= s.len(),
            forall|k: int| 0 <= k < i ==> is_alpha(s@[k]),
        decreases s.len() - i,
    {
        if !alpha(s[i]) {
            return false;
        }
        i += 1;
    }
    true
}

pub fn is_plain_number(s: &Vec<char>) -> (b: bool)
    ensures
        b == spec_is_plain_number(s@),
{
    if s.len() == 0 {
        return false;
    }
    let mut any_digit = false;
    let mut i: usize = 0;
    while i < s.len()
        invariant
            i <= s.len(),
            forall|k: int| 0 <= k < i ==> is_digit(s@[k]) || s@[k] == '.',
            any_digit == exists|k: int| 0 <= k < i && is_digit(s@[k]),
        decreases s.len() - i,
    {
        let c = s[i];
        if !(digit(c) || c == '.') {
            return false;
        }
        if digit(c) {
            any_digit = true;
        }
        i += 1;
    }
    any_digit
}

} // verus!
