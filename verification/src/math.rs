//! Math expressions: `integral`/`sum` blocks, function calls and macros,
//! and operator tokens, rewritten into LaTeX.
//!
//! Rewriting never adds a `:` to the text, and each `integral`/`sum` block
//! that is rewritten consumes the `:` of its variable. The number of colons
//! therefore measures the recursion of the renderer.
use vstd::prelude::*;

use crate::scan::{
    find_word, ident_end_from, lemma_ident_end_from, lemma_next_identifier, lemma_split_commas,
    lemma_word_from, matching_close, next_identifier, spec_find_word, spec_matching_close,
    spec_next_identifier, spec_split_commas, split_from, split_top_level_commas,
};
use crate::syntax::{Definition, DefinitionModel, definitions_model};
use crate::text::{
    alpha, chars_of, find, find_from, has_suffix, ident_char, ident_start, is, is_alpha,
    is_ident_start, lemma_find_from, lemma_skip_ws, lemma_skip_ws_back,
    lemma_trim_len, occurs_at, push_all, push_str, same, skip_ws, skip_ws_back, slice, spec_find,
    spec_find_from, spec_squeeze, spec_trim, spec_trim_start, squeeze, tail, trim, views, ws_end,
};

verus! {

// ---------------------------------------------------------------------------
// Counting colons
// ---------------------------------------------------------------------------

/// The number of `:` in `s`.
pub open spec fn colons(s: Seq<char>) -> nat
    decreases s.len(),
{
    if s.len() == 0 {
        0
    } else {
        (if s[0] == ':' {
            1nat
        } else {
            0nat
        }) + colons(s.subrange(1, s.len() as int))
    }
}

pub open spec fn no_colon(s: Seq<char>) -> bool {
    forall|i: int| 0 <= i < s.len() ==> s[i] != ':'
}

pub proof fn lemma_no_colon(s: Seq<char>)
    requires
        no_colon(s),
    ensures
        colons(s) == 0,
    decreases s.len(),
{
    if s.len() > 0 {
        lemma_no_colon(s.subrange(1, s.len() as int));
    }
}

pub proof fn lemma_colons_concat(a: Seq<char>, b: Seq<char>)
    ensures
        colons(a + b) == colons(a) + colons(b),
    decreases a.len(),
{
    if a.len() > 0 {
        lemma_colons_concat(a.subrange(1, a.len() as int), b);
        assert((a + b).subrange(1, (a + b).len() as int) =~= a.subrange(1, a.len() as int) + b);
    } else {
        assert(a + b =~= b);
    }
}

/// `s` is cut in two at `k`.
pub proof fn lemma_colons_split(s: Seq<char>, k: int)
    requires
        0 <= k <= s.len(),
    ensures
        colons(s) == colons(s.subrange(0, k)) + colons(s.subrange(k, s.len() as int)),
{
    lemma_colons_concat(s.subrange(0, k), s.subrange(k, s.len() as int));
    assert(s.subrange(0, k) + s.subrange(k, s.len() as int) =~= s);
}

pub proof fn lemma_colons_sub(s: Seq<char>, i: int, j: int)
    requires
        0 <= i <= j <= s.len(),
    ensures
        colons(s.subrange(i, j)) <= colons(s),
        colons(s) == colons(s.subrange(0, i)) + colons(s.subrange(i, j)) + colons(
            s.subrange(j, s.len() as int),
        ),
{
    lemma_colons_split(s, i);
    let rest = s.subrange(i, s.len() as int);
    lemma_colons_split(rest, j - i);
    assert(rest.subrange(0, j - i) =~= s.subrange(i, j));
    assert(rest.subrange(j - i, rest.len() as int) =~= s.subrange(j, s.len() as int));
}

/// Two pieces that do not overlap hold no more colons than the whole.
pub proof fn lemma_colons_disjoint(s: Seq<char>, a: int, b: int, c: int, d: int)
    requires
        0 <= a <= b <= c <= d <= s.len(),
    ensures
        colons(s.subrange(a, b)) + colons(s.subrange(c, d)) <= colons(s),
{
    lemma_colons_split(s, b);
    let head = s.subrange(0, b);
    lemma_colons_sub(head, a, b);
    assert(head.subrange(a, b) =~= s.subrange(a, b));
    let tl = s.subrange(b, s.len() as int);
    lemma_colons_sub(tl, c - b, d - b);
    assert(tl.subrange(c - b, d - b) =~= s.subrange(c, d));
}

pub proof fn lemma_colons_trim(s: Seq<char>)
    ensures
        colons(spec_trim(s)) <= colons(s),
        spec_trim(s).len() <= s.len(),
{
    lemma_trim_len(s);
    lemma_skip_ws(s, 0);
    let t = spec_trim_start(s);
    lemma_colons_sub(s, skip_ws(s, 0), s.len() as int);
    lemma_skip_ws_back(t, t.len() as int);
    lemma_colons_sub(t, 0, skip_ws_back(t, t.len() as int));
}

/// The colons of all the parts.
pub open spec fn colons_sum(parts: Seq<Seq<char>>) -> nat
    decreases parts.len(),
{
    if parts.len() == 0 {
        0
    } else {
        colons(parts[0]) + colons_sum(parts.subrange(1, parts.len() as int))
    }
}

pub proof fn lemma_colons_sum_concat(a: Seq<Seq<char>>, b: Seq<Seq<char>>)
    ensures
        colons_sum(a + b) == colons_sum(a) + colons_sum(b),
    decreases a.len(),
{
    if a.len() > 0 {
        lemma_colons_sum_concat(a.subrange(1, a.len() as int), b);
        assert((a + b).subrange(1, (a + b).len() as int) =~= a.subrange(1, a.len() as int) + b);
    } else {
        assert(a + b =~= b);
    }
}

pub proof fn lemma_colons_sum_part(parts: Seq<Seq<char>>, k: int)
    requires
        0 <= k < parts.len(),
    ensures
        colons(parts[k]) <= colons_sum(parts),
    decreases parts.len(),
{
    if k > 0 {
        lemma_colons_sum_part(parts.subrange(1, parts.len() as int), k - 1);
    }
}

/// The pieces between top-level commas hold all the colons of the text.
pub proof fn lemma_colons_split_from(
    s: Seq<char>,
    i: int,
    start: int,
    depth: int,
    in_str: bool,
    esc: bool,
)
    requires
        0 <= start <= i <= s.len(),
    ensures
        colons_sum(split_from(s, i, start, depth, in_str, esc)) == colons(
            s.subrange(start, s.len() as int),
        ),
    decreases s.len() - i,
{
    if i >= s.len() {
        let r = split_from(s, i, start, depth, in_str, esc);
        assert(r.subrange(1, r.len() as int) =~= Seq::<Seq<char>>::empty());
        assert(colons_sum(Seq::<Seq<char>>::empty()) == 0);
        assert(colons_sum(r) == colons(r[0]) + colons_sum(r.subrange(1, r.len() as int)));
    } else {
        let c = s[i];
        if in_str {
            if esc {
                lemma_colons_split_from(s, i + 1, start, depth, true, false);
            } else if c == '\\' {
                lemma_colons_split_from(s, i + 1, start, depth, true, true);
            } else if c == '"' {
                lemma_colons_split_from(s, i + 1, start, depth, false, false);
            } else {
                lemma_colons_split_from(s, i + 1, start, depth, true, false);
            }
        } else if c == '"' {
            lemma_colons_split_from(s, i + 1, start, depth, true, esc);
        } else if crate::scan::is_opening(c) {
            lemma_colons_split_from(s, i + 1, start, depth + 1, false, esc);
        } else if crate::scan::is_closing(c) {
            lemma_colons_split_from(s, i + 1, start, depth - 1, false, esc);
        } else if c == ',' && depth == 0 {
            lemma_colons_split_from(s, i + 1, i + 1, depth, false, esc);
            let rest = split_from(s, i + 1, i + 1, depth, false, esc);
            let r = split_from(s, i, start, depth, in_str, esc);
            assert(r.subrange(1, r.len() as int) =~= rest);
            let whole = s.subrange(start, s.len() as int);
            lemma_colons_sub(whole, i - start, i + 1 - start);
            assert(whole.subrange(0, i - start) =~= s.subrange(start, i));
            assert(whole.subrange(i + 1 - start, whole.len() as int) =~= s.subrange(
                i + 1,
                s.len() as int,
            ));
            let comma = whole.subrange(i - start, i + 1 - start);
            assert(comma[0] == ',');
            assert(colons(comma.subrange(1, comma.len() as int)) == 0);
            assert(colons(comma) == 0);
            assert(r[0] == s.subrange(start, i));
            assert(colons_sum(r) == colons(r[0]) + colons_sum(r.subrange(1, r.len() as int)));
        } else {
            lemma_colons_split_from(s, i + 1, start, depth, false, esc);
        }
    }
}

pub proof fn lemma_colons_split_commas(s: Seq<char>)
    ensures
        colons_sum(spec_split_commas(s)) == colons(s),
        forall|k: int|
            0 <= k < spec_split_commas(s).len() ==> colons(#[trigger] spec_split_commas(s)[k])
                <= colons(s),
{
    lemma_colons_split_from(s, 0, 0, 0, false, false);
    assert(s.subrange(0, s.len() as int) =~= s);
    assert forall|k: int| 0 <= k < spec_split_commas(s).len() implies colons(
        #[trigger] spec_split_commas(s)[k],
    ) <= colons(s) by {
        lemma_colons_sum_part(spec_split_commas(s), k);
    }
}

// ---------------------------------------------------------------------------
// Operator tokens
// ---------------------------------------------------------------------------

/// The end of the run of letters that starts at `j`.
pub open spec fn alpha_end(s: Seq<char>, j: int) -> int
    decreases s.len() - j,
{
    if j < 0 || j >= s.len() || !is_alpha(s[j]) {
        j
    } else {
        alpha_end(s, j + 1)
    }
}

pub proof fn lemma_alpha_end(s: Seq<char>, j: int)
    requires
        0 <= j <= s.len(),
    ensures
        j <= alpha_end(s, j) <= s.len(),
        forall|k: int| j <= k < alpha_end(s, j) ==> is_alpha(s[k]),
    decreases s.len() - j,
{
    if j < s.len() && is_alpha(s[j]) {
        lemma_alpha_end(s, j + 1);
    }
}

/// A word of a math expression, as it is written in LaTeX.
pub open spec fn spec_word(w: Seq<char>) -> Seq<char> {
    if w == "pi"@ {
        "\\pi"@
    } else if w == "infinity"@ {
        "\\infty"@
    } else {
        w
    }
}

/// The character `c` is followed by `=` at position `i + 1`.
pub open spec fn before_eq(s: Seq<char>, i: int) -> bool {
    i + 1 < s.len() && s[i + 1] == '='
}

/// What separates a command from the text at `j`: a space when a letter
/// follows, which would otherwise run into the command's name.
pub open spec fn spacer(s: Seq<char>, j: int) -> Seq<char> {
    if 0 <= j < s.len() && is_alpha(s[j]) {
        seq![' ']
    } else {
        seq![]
    }
}

/// The tokens of `s` from position `i` on, rewritten: `==` is `=`, `>=`,
/// `<=` and `!=` are `\ge`, `\le` and `\ne`, `*` is `\cdot` (each command
/// followed by a space when a letter comes next), the words `pi` and
/// `infinity` are `\pi` and `\infty`; a command after `\` is kept.
pub open spec fn tokens_from(s: Seq<char>, i: int) -> Seq<char>
    decreases s.len() - i,
{
    if i < 0 || i >= s.len() {
        seq![]
    } else {
        let c = s[i];
        if c == '\\' {
            let j = alpha_end(s, i + 1);
            proof {
                lemma_alpha_end(s, i + 1);
            }
            s.subrange(i, j) + tokens_from(s, j)
        } else if c == '=' && before_eq(s, i) {
            seq!['='] + tokens_from(s, i + 2)
        } else if c == '>' && before_eq(s, i) {
            "\\ge"@ + spacer(s, i + 2) + tokens_from(s, i + 2)
        } else if c == '<' && before_eq(s, i) {
            "\\le"@ + spacer(s, i + 2) + tokens_from(s, i + 2)
        } else if c == '!' && before_eq(s, i) {
            "\\ne"@ + spacer(s, i + 2) + tokens_from(s, i + 2)
        } else if c == '*' {
            "\\cdot"@ + spacer(s, i + 1) + tokens_from(s, i + 1)
        } else if is_ident_start(c) {
            let j = ident_end_from(s, i + 1);
            proof {
                lemma_ident_end_from(s, i + 1);
            }
            spec_word(s.subrange(i, j)) + tokens_from(s, j)
        } else {
            seq![c] + tokens_from(s, i + 1)
        }
    }
}

pub open spec fn spec_rewrite_tokens(s: Seq<char>) -> Seq<char> {
    tokens_from(s, 0)
}

pub proof fn lemma_tokens_colons(s: Seq<char>, i: int)
    requires
        0 <= i <= s.len(),
    ensures
        colons(tokens_from(s, i)) <= colons(s.subrange(i, s.len() as int)),
    decreases s.len() - i,
{
    if i < s.len() {
        let c = s[i];
        let rest = s.subrange(i, s.len() as int);
        let next = if c == '\\' {
            lemma_alpha_end(s, i + 1);
            alpha_end(s, i + 1)
        } else if (c == '=' || c == '>' || c == '<' || c == '!') && before_eq(s, i) {
            i + 2
        } else if c == '*' {
            i + 1
        } else if is_ident_start(c) {
            lemma_ident_end_from(s, i + 1);
            ident_end_from(s, i + 1)
        } else {
            i + 1
        };
        lemma_tokens_colons(s, next);
        lemma_colons_sub(rest, 0, next - i);
        assert(rest.subrange(next - i, rest.len() as int) =~= s.subrange(next, s.len() as int));
        let consumed = rest.subrange(0, next - i);
        assert(consumed =~= s.subrange(i, next));
        reveal_strlit("\\ge");
        reveal_strlit("\\le");
        reveal_strlit("\\ne");
        reveal_strlit("\\cdot");
        reveal_strlit("\\pi");
        reveal_strlit("\\infty");
        if c == '\\' {
            lemma_colons_concat(s.subrange(i, next), tokens_from(s, next));
        } else if c == '=' && before_eq(s, i) {
            lemma_colons_concat(seq!['='], tokens_from(s, next));
            lemma_no_colon(seq!['=']);
        } else if c == '>' && before_eq(s, i) {
            lemma_colons_concat("\\ge"@ + spacer(s, next), tokens_from(s, next));
            lemma_no_colon("\\ge"@ + spacer(s, next));
        } else if c == '<' && before_eq(s, i) {
            lemma_colons_concat("\\le"@ + spacer(s, next), tokens_from(s, next));
            lemma_no_colon("\\le"@ + spacer(s, next));
        } else if c == '!' && before_eq(s, i) {
            lemma_colons_concat("\\ne"@ + spacer(s, next), tokens_from(s, next));
            lemma_no_colon("\\ne"@ + spacer(s, next));
        } else if c == '*' {
            lemma_colons_concat("\\cdot"@ + spacer(s, next), tokens_from(s, next));
            lemma_no_colon("\\cdot"@ + spacer(s, next));
        } else if is_ident_start(c) {
            let w = s.subrange(i, next);
            lemma_colons_concat(spec_word(w), tokens_from(s, next));
            lemma_no_colon("\\pi"@);
            lemma_no_colon("\\infty"@);
            assert(no_colon(w));
            lemma_no_colon(w);
        } else {
            lemma_colons_concat(seq![c], tokens_from(s, next));
            assert(seq![c] =~= consumed);
        }
    }
}

pub fn rewrite_math_tokens(s: &Vec<char>) -> (r: Vec<char>)
    ensures
        r@ == spec_rewrite_tokens(s@),
        colons(r@) <= colons(s@),
{
    proof {
        lemma_tokens_colons(s@, 0);
        assert(s@.subrange(0, s@.len() as int) =~= s@);
    }
    let mut out: Vec<char> = Vec::new();
    let mut i: usize = 0;
    while i < s.len()
        invariant
            i <= s.len(),
            out@ + tokens_from(s@, i as int) == spec_rewrite_tokens(s@),
        decreases s.len() - i,
    {
        let c = s[i];
        let ghost before = out@;
        let next_is_eq = i + 1 < s.len() && s[i + 1] == '=';
        if c == '\\' {
            proof {
                lemma_alpha_end(s@, i + 1);
            }
            let mut j = i + 1;
            while j < s.len() && alpha(s[j])
                invariant
                    i < j <= s.len(),
                    alpha_end(s@, j as int) == alpha_end(s@, i + 1),
                decreases s.len() - j,
            {
                j += 1;
            }
            let piece = slice(s, i, j);
            push_all(&mut out, &piece);
            assert(out@ + tokens_from(s@, j as int) =~= before + tokens_from(s@, i as int));
            i = j;
        } else if c == '=' && next_is_eq {
            out.push('=');
            assert(out@ + tokens_from(s@, i + 2) =~= before + tokens_from(s@, i as int));
            i += 2;
        } else if c == '>' && next_is_eq {
            push_str(&mut out, "\\ge");
            if i + 2 < s.len() && alpha(s[i + 2]) {
                out.push(' ');
            }
            assert(out@ + tokens_from(s@, i + 2) =~= before + tokens_from(s@, i as int));
            i += 2;
        } else if c == '<' && next_is_eq {
            push_str(&mut out, "\\le");
            if i + 2 < s.len() && alpha(s[i + 2]) {
                out.push(' ');
            }
            assert(out@ + tokens_from(s@, i + 2) =~= before + tokens_from(s@, i as int));
            i += 2;
        } else if c == '!' && next_is_eq {
            push_str(&mut out, "\\ne");
            if i + 2 < s.len() && alpha(s[i + 2]) {
                out.push(' ');
            }
            assert(out@ + tokens_from(s@, i + 2) =~= before + tokens_from(s@, i as int));
            i += 2;
        } else if c == '*' {
            push_str(&mut out, "\\cdot");
            if i + 1 < s.len() && alpha(s[i + 1]) {
                out.push(' ');
            }
            assert(out@ + tokens_from(s@, i + 1) =~= before + tokens_from(s@, i as int));
            i += 1;
        } else if ident_start(c) {
            proof {
                lemma_ident_end_from(s@, i + 1);
            }
            let mut j = i + 1;
            while j < s.len() && ident_char(s[j])
                invariant
                    i < j <= s.len(),
                    ident_end_from(s@, j as int) == ident_end_from(s@, i + 1),
                decreases s.len() - j,
            {
                j += 1;
            }
            let word = slice(s, i, j);
            if is(&word, "pi") {
                push_str(&mut out, "\\pi");
            } else if is(&word, "infinity") {
                push_str(&mut out, "\\infty");
            } else {
                push_all(&mut out, &word);
            }
            assert(out@ + tokens_from(s@, j as int) =~= before + tokens_from(s@, i as int));
            i = j;
        } else {
            out.push(c);
            assert(out@ + tokens_from(s@, i + 1) =~= before + tokens_from(s@, i as int));
            i += 1;
        }
    }
    assert(out@ + tokens_from(s@, i as int) =~= out@);
    out
}

// ---------------------------------------------------------------------------
// `integral` and `sum` blocks
// ---------------------------------------------------------------------------

/// A block operator of math: `integral VAR: LOWER..UPPER do BODY end` or
/// `sum VAR: LOWER..UPPER do BODY end`.
#[derive(Debug, Clone, Copy)]
pub enum BlockOperator {
    Integral,
    Sum,
}

impl BlockOperator {
    pub open spec fn keyword(self) -> Seq<char> {
        match self {
            BlockOperator::Integral => "integral"@,
            BlockOperator::Sum => "sum"@,
        }
    }
}

/// The first block operator in `s`, as a whole word: its position and kind.
pub open spec fn spec_find_block_operator(s: Seq<char>) -> Option<(int, BlockOperator)> {
    match (spec_find_word(s, "integral"@), spec_find_word(s, "sum"@)) {
        (Some(x), Some(y)) => if y < x {
            Some((y, BlockOperator::Sum))
        } else {
            Some((x, BlockOperator::Integral))
        },
        (Some(x), None) => Some((x, BlockOperator::Integral)),
        (None, Some(y)) => Some((y, BlockOperator::Sum)),
        (None, None) => None,
    }
}

/// The pieces of a block operator at the start of `t`: the bound variable,
/// the two bounds (untrimmed), the body, and the length of the whole.
pub struct OperatorParts {
    pub variable: Seq<char>,
    pub lower: Seq<char>,
    pub upper: Seq<char>,
    pub body: Seq<char>,
    pub consumed: int,
}

pub open spec fn operator_parts(t: Seq<char>, keyword: Seq<char>) -> Option<OperatorParts> {
    if !crate::text::has_prefix(t, keyword) {
        None
    } else {
        let c1 = skip_ws(t, keyword.len() as int);
        match spec_find_from(t, seq![':'], c1) {
            None => None,
            Some(colon) => {
                let variable = spec_trim(t.subrange(c1, colon));
                let c2 = skip_ws(t, colon + 1);
                match spec_find_from(t, " do "@, c2) {
                    None => None,
                    Some(d) => {
                        let bounds = spec_trim(t.subrange(c2, d));
                        match spec_find(bounds, ".."@) {
                            None => None,
                            Some(k) => {
                                let body_start = d + " do "@.len();
                                let after_do = t.subrange(body_start, t.len() as int);
                                match spec_find_word(after_do, "end"@) {
                                    None => None,
                                    Some(e) => Some(
                                        OperatorParts {
                                            variable,
                                            lower: bounds.subrange(0, k),
                                            upper: bounds.subrange(
                                                k + ".."@.len(),
                                                bounds.len() as int,
                                            ),
                                            body: spec_trim(after_do.subrange(0, e)),
                                            consumed: body_start + e + "end"@.len(),
                                        },
                                    ),
                                }
                            },
                        }
                    },
                }
            },
        }
    }
}

/// The pieces of a block operator lie after its colon, and the variable
/// holds no colon.
pub proof fn lemma_operator_parts(t: Seq<char>, keyword: Seq<char>)
    ensures
        operator_parts(t, keyword) matches Some(p) ==> {
            &&& 0 < p.consumed <= t.len()
            &&& colons(p.variable) == 0
            &&& colons(p.lower) + colons(p.upper) + colons(p.body) < colons(
                t.subrange(0, p.consumed),
            )
        },
{
    if let Some(p) = operator_parts(t, keyword) {
        reveal_strlit(" do ");
        reveal_strlit("..");
        reveal_strlit("end");
        let c1 = skip_ws(t, keyword.len() as int);
        lemma_skip_ws(t, keyword.len() as int);
        let colon = spec_find_from(t, seq![':'], c1).unwrap();
        lemma_find_from(t, seq![':'], c1);
        assert(t.subrange(colon, colon + 1)[0] == t[colon]);
        assert(t[colon] == ':');
        // the variable
        let v = t.subrange(c1, colon);
        assert forall|j: int| 0 <= j < v.len() implies v[j] != ':' by {
            if v[j] == ':' {
                assert(t.subrange(c1 + j, c1 + j + 1) =~= seq![':']);
                assert(occurs_at(t, seq![':'], c1 + j));
            }
        }
        lemma_no_colon(v);
        lemma_colons_trim(v);
        // the bounds
        let c2 = skip_ws(t, colon + 1);
        lemma_skip_ws(t, colon + 1);
        let d = spec_find_from(t, " do "@, c2).unwrap();
        lemma_find_from(t, " do "@, c2);
        let raw = t.subrange(c2, d);
        let bounds = spec_trim(raw);
        lemma_colons_trim(raw);
        let k = spec_find(bounds, ".."@).unwrap();
        lemma_find_from(bounds, ".."@, 0);
        lemma_colons_sub(bounds, 0, k);
        lemma_colons_sub(bounds, k, k + 2);
        lemma_colons_split(bounds.subrange(k, bounds.len() as int), 2);
        assert(bounds.subrange(k, bounds.len() as int).subrange(2, bounds.len() - k)
            =~= bounds.subrange(k + 2, bounds.len() as int));
        assert(colons(p.lower) + colons(p.upper) <= colons(bounds));
        // the body
        let after_do = t.subrange(d + 4, t.len() as int);
        let e = spec_find_word(after_do, "end"@).unwrap();
        lemma_word_from(after_do, "end"@, 0);
        let raw_body = after_do.subrange(0, e);
        lemma_colons_trim(raw_body);
        // the whole
        lemma_find_word_bound(after_do, "end"@);
        let whole = t.subrange(0, p.consumed);
        assert(p.consumed == d + 4 + e + 3);
        lemma_colons_disjoint(whole, colon, colon + 1, c2, p.consumed);
        let back = whole.subrange(c2, p.consumed);
        lemma_colons_disjoint(back, 0, d - c2, d + 4 - c2, d + 4 + e - c2);
        assert(back.subrange(0, d - c2) =~= raw);
        assert(back.subrange(d + 4 - c2, d + 4 + e - c2) =~= raw_body);
        let one = whole.subrange(colon, colon + 1);
        assert(one[0] == ':');
        assert(colons(one) >= 1);
    }
}

/// The LaTeX for a block operator, given its rendered pieces.
pub open spec fn spec_replacement(
    op: BlockOperator,
    variable: Seq<char>,
    lower: Seq<char>,
    upper: Seq<char>,
    body: Seq<char>,
) -> Seq<char> {
    match op {
        BlockOperator::Integral => "\\int_{"@ + lower + "}^{"@ + upper + "} "@ + body + " \\, d"@
            + variable,
        BlockOperator::Sum => "\\sum_{"@ + variable + "="@ + lower + "}^{"@ + upper + "} "@
            + body,
    }
}

// ---------------------------------------------------------------------------
// Calls
// ---------------------------------------------------------------------------

/// The first definition named `name` that takes `n` parameters.
pub open spec fn find_definition(defs: Seq<DefinitionModel>, name: Seq<char>, n: nat) -> Option<
    DefinitionModel,
>
    decreases defs.len(),
{
    if defs.len() == 0 {
        None
    } else if defs[0].name == name && defs[0].params.len() == n {
        Some(defs[0])
    } else {
        find_definition(defs.subrange(1, defs.len() as int), name, n)
    }
}

/// `\name{arg}{arg}...`.
pub open spec fn braced(args: Seq<Seq<char>>) -> Seq<char>
    decreases args.len(),
{
    if args.len() == 0 {
        seq![]
    } else {
        braced(args.drop_last()) + "{"@ + args.last() + "}"@
    }
}

/// The parts joined, with `sep` between each two.
pub open spec fn joined(parts: Seq<Seq<char>>, sep: Seq<char>) -> Seq<char>
    decreases parts.len(),
{
    if parts.len() == 0 {
        seq![]
    } else if parts.len() == 1 {
        parts[0]
    } else {
        joined(parts.drop_last(), sep) + sep + parts.last()
    }
}

/// A call of a built-in math function, given its rendered arguments.
pub open spec fn spec_builtin_call(name: Seq<char>, args: Seq<Seq<char>>) -> Seq<char> {
    if name == "frac"@ && args.len() == 2 {
        "\\frac{"@ + args[0] + "}{"@ + args[1] + "}"@
    } else if name == "sqrt"@ && args.len() == 1 {
        "\\sqrt{"@ + args[0] + "}"@
    } else if name == "exp"@ && args.len() == 1 {
        "\\exp\\left("@ + args[0] + "\\right)"@
    } else if name == "cos"@ && args.len() == 1 {
        "\\cos\\left("@ + args[0] + "\\right)"@
    } else if name == "sin"@ && args.len() == 1 {
        "\\sin\\left("@ + args[0] + "\\right)"@
    } else if name == "log"@ && args.len() == 1 {
        "\\log\\left("@ + args[0] + "\\right)"@
    } else if name == "mathbb"@ && args.len() == 1 {
        "\\mathbb{"@ + args[0] + "}"@
    } else if name == "norm"@ && args.len() == 1 {
        "\\lVert "@ + args[0] + " \\rVert"@
    } else if args.len() == 0 {
        name + "\\left(\\right)"@
    } else {
        name + "\\left("@ + joined(args, ", "@) + "\\right)"@
    }
}

// ---------------------------------------------------------------------------
// The renderer
// ---------------------------------------------------------------------------

/// A math expression rendered as LaTeX: block operators first, then calls,
/// then operator tokens.
pub open spec fn spec_render_expr(s: Seq<char>, defs: Seq<DefinitionModel>) -> Seq<char>
    decreases colons(s), s.len(), 4int, 0int,
{
    let w = blocks_loop(s, 0, defs);
    let u = if w == s || colons(w) < colons(s) {
        w
    } else {
        s
    };
    spec_rewrite_tokens(calls_from(u, 0, defs))
}

/// Rewriting the block operators of `out` from position `from` on, one after
/// the other: each search starts after the LaTeX that the previous rewrite
/// put in, and the rewriting stops at the first operator that does not parse.
pub open spec fn blocks_loop(out: Seq<char>, from: int, defs: Seq<DefinitionModel>) -> Seq<char>
    decreases colons(out), out.len(), 3int, 0int,
{
    if from < 0 || from > out.len() {
        out
    } else {
        match spec_find_block_operator(out.subrange(from, out.len() as int)) {
            None => out,
            Some((k, op)) => {
                let start = from + k;
                proof {
                    lemma_find_word_bound(out.subrange(from, out.len() as int), "integral"@);
                    lemma_find_word_bound(out.subrange(from, out.len() as int), "sum"@);
                    lemma_colons_sub(out, start, out.len() as int);
                }
                let t = out.subrange(start, out.len() as int);
                match spec_parse_block_operator(t, op, defs) {
                    None => out,
                    Some((rep, consumed)) => {
                        let next = out.subrange(0, start) + rep + out.subrange(
                            start + consumed,
                            out.len() as int,
                        );
                        if colons(next) < colons(out) {
                            blocks_loop(next, start + rep.len(), defs)
                        } else {
                            out
                        }
                    },
                }
            },
        }
    }
}

pub proof fn lemma_find_word_bound(s: Seq<char>, w: Seq<char>)
    ensures
        spec_find_word(s, w) matches Some(a) ==> 0 <= a && a + w.len() <= s.len(),
{
    lemma_word_from(s, w, 0);
}

/// The block operator at the start of `t`: its LaTeX and its length.
pub open spec fn spec_parse_block_operator(
    t: Seq<char>,
    op: BlockOperator,
    defs: Seq<DefinitionModel>,
) -> Option<(Seq<char>, int)>
    decreases colons(t), t.len(), 2int, 0int,
{
    match operator_parts(t, op.keyword()) {
        None => None,
        Some(p) => {
            proof {
                lemma_operator_parts(t, op.keyword());
                lemma_colons_sub(t, 0, p.consumed);
                lemma_colons_trim(p.lower);
                lemma_colons_trim(p.upper);
            }
            let lower = spec_render_expr(spec_trim(p.lower), defs);
            let upper = spec_render_expr(spec_trim(p.upper), defs);
            let body = spec_render_expr(p.body, defs);
            Some((spec_replacement(op, p.variable, lower, upper, body), p.consumed))
        },
    }
}

/// The text of `w` from position `idx` on, with every call `name(args)`
/// rendered (except after a backslash, where the name is a command).
pub open spec fn calls_from(w: Seq<char>, idx: int, defs: Seq<DefinitionModel>) -> Seq<char>
    decreases colons(w), w.len(), 3int, w.len() - idx,
{
    if idx < 0 || idx >= w.len() {
        seq![]
    } else {
        let rest = w.subrange(idx, w.len() as int);
        match spec_next_identifier(rest) {
            None => rest,
            Some((a, b)) => {
                proof {
                    lemma_next_identifier(rest);
                }
                let prefix = rest.subrange(0, a);
                let name = rest.subrange(a, b);
                if has_suffix(prefix, seq!['\\']) {
                    prefix + name + calls_from(w, idx + b, defs)
                } else {
                    let after = rest.subrange(b, rest.len() as int);
                    if after.len() > 0 && after[0] == '(' {
                        let inner = after.subrange(1, after.len() as int);
                        match spec_matching_close(inner, '(', ')') {
                            Some(c) => {
                                proof {
                                    crate::scan::lemma_close_from(
                                        inner,
                                        '(',
                                        ')',
                                        0,
                                        0,
                                        false,
                                        false,
                                    );
                                    lemma_colons_sub(w, idx + b + 1, idx + b + 1 + c);
                                    assert(inner.subrange(0, c) =~= w.subrange(
                                        idx + b + 1,
                                        idx + b + 1 + c,
                                    ));
                                }
                                prefix + spec_render_call(name, inner.subrange(0, c), defs)
                                    + calls_from(w, idx + b + 1 + c + 1, defs)
                            },
                            None => prefix + name + calls_from(w, idx + b, defs),
                        }
                    } else {
                        prefix + name + calls_from(w, idx + b, defs)
                    }
                }
            },
        }
    }
}

/// A call `name(body)`: a macro of the document when one with that name
/// and number of parameters is defined, else a built-in function.
pub open spec fn spec_render_call(
    name: Seq<char>,
    body: Seq<char>,
    defs: Seq<DefinitionModel>,
) -> Seq<char>
    decreases colons(body), body.len() + 1, 2int, 0int,
{
    let args = render_args(body, 0, defs);
    match find_definition(defs, name, args.len()) {
        Some(d) => "\\"@ + d.name + braced(args),
        None => spec_builtin_call(name, args),
    }
}

/// The arguments of a call from the `k`-th on, each rendered.
pub open spec fn render_args(body: Seq<char>, k: int, defs: Seq<DefinitionModel>) -> Seq<
    Seq<char>,
>
    decreases colons(body), body.len() + 1, 1int, spec_split_commas(body).len() - k,
{
    let pieces = spec_split_commas(body);
    if k < 0 || k >= pieces.len() {
        seq![]
    } else {
        proof {
            lemma_split_commas(body);
            lemma_colons_split_commas(body);
            lemma_colons_trim(pieces[k]);
        }
        seq![spec_render_expr(spec_trim(pieces[k]), defs)] + render_args(body, k + 1, defs)
    }
}

/// What `render_math` gives: the expression with its whitespace runs made
/// single spaces, rendered.
pub open spec fn spec_render_math(input: Seq<char>, defs: Seq<DefinitionModel>) -> Seq<char> {
    spec_render_expr(spec_squeeze(input), defs)
}

// ---------------------------------------------------------------------------
// The executable renderer
// ---------------------------------------------------------------------------

impl BlockOperator {
    pub fn keyword_text(self) -> (k: &'static str)
        ensures
            k@ == self.keyword(),
    {
        match self {
            BlockOperator::Integral => "integral",
            BlockOperator::Sum => "sum",
        }
    }
}

pub fn find_block_operator(s: &Vec<char>) -> (r: Option<(usize, BlockOperator)>)
    ensures
        match spec_find_block_operator(s@) {
            None => r is None,
            Some((start, op)) => r matches Some((x, o)) && x == start && o == op,
        },
{
    let integral = chars_of("integral");
    let sum = chars_of("sum");
    let a = find_word(s, &integral);
    let b = find_word(s, &sum);
    match (a, b) {
        (Some(x), Some(y)) => if y < x {
            Some((y, BlockOperator::Sum))
        } else {
            Some((x, BlockOperator::Integral))
        },
        (Some(x), None) => Some((x, BlockOperator::Integral)),
        (None, Some(y)) => Some((y, BlockOperator::Sum)),
        (None, None) => None,
    }
}

/// The pieces of the block operator `op` at the start of `t`: variable,
/// lower and upper bounds, body, and the length of the whole.
pub fn operator_pieces(t: &Vec<char>, op: BlockOperator) -> (r: Option<
    (Vec<char>, Vec<char>, Vec<char>, Vec<char>, usize),
>)
    ensures
        match operator_parts(t@, op.keyword()) {
            None => r is None,
            Some(p) => r matches Some((v, l, u, b, c)) && v@ == p.variable && l@ == p.lower
                && u@ == p.upper && b@ == p.body && c == p.consumed,
        },
{
    let keyword = op.keyword_text();
    let kw = chars_of(keyword);
    if !crate::text::starts_with(t, &kw) {
        return None;
    }
    let c1 = ws_end(t, kw.len());
    let colon_pattern = vec![':'];
    assert(colon_pattern@ =~= seq![':']);
    let colon = match find_from(t, &colon_pattern, c1) {
        Some(k) => k,
        None => {
            return None;
        },
    };
    proof {
        lemma_find_from(t@, seq![':'], c1 as int);
        assert(colon_pattern@ =~= seq![':']);
    }
    let variable = trim(&slice(t, c1, colon));
    let c2 = ws_end(t, colon + 1);
    let do_pattern = chars_of(" do ");
    let d = match find_from(t, &do_pattern, c2) {
        Some(k) => k,
        None => {
            return None;
        },
    };
    proof {
        lemma_find_from(t@, " do "@, c2 as int);
        reveal_strlit(" do ");
        reveal_strlit("..");
        reveal_strlit("end");
    }
    let bounds = trim(&slice(t, c2, d));
    let dots = chars_of("..");
    let k = match find(&bounds, &dots) {
        Some(k) => k,
        None => {
            return None;
        },
    };
    proof {
        lemma_find_from(bounds@, ".."@, 0);
    }
    let after_do = tail(t, d + 4);
    let end_word = chars_of("end");
    let e = match find_word(&after_do, &end_word) {
        Some(e) => e,
        None => {
            return None;
        },
    };
    let body = trim(&slice(&after_do, 0, e));
    Some((variable, slice(&bounds, 0, k), tail(&bounds, k + 2), body, d + 4 + e + 3))
}

pub fn parse_block_operator(t: &Vec<char>, op: BlockOperator, defs: &Vec<Definition>) -> (r:
    Option<(Vec<char>, usize)>)
    ensures
        match spec_parse_block_operator(t@, op, definitions_model(defs@)) {
            None => r is None,
            Some((rep, consumed)) => r matches Some((x, c)) && x@ == rep && c == consumed,
        },
        r matches Some((x, c)) ==> c <= t.len() && colons(x@) < colons(t@.subrange(0, c as int)),
    decreases colons(t@), t@.len(), 2int, 0int,
{
    let ghost dm = definitions_model(defs@);
    let (variable, lower, upper, body, consumed) = match operator_pieces(t, op) {
        Some(pieces) => pieces,
        None => {
            return None;
        },
    };
    proof {
        lemma_operator_parts(t@, op.keyword());
        lemma_colons_sub(t@, 0, consumed as int);
        lemma_colons_trim(lower@);
        lemma_colons_trim(upper@);
    }
    let lower = trim(&lower);
    let upper = trim(&upper);
    let rendered_lower = render_math_expr(&lower, defs);
    let rendered_upper = render_math_expr(&upper, defs);
    let rendered_body = render_math_expr(&body, defs);
    let mut out: Vec<char> = Vec::new();
    match op {
        BlockOperator::Integral => {
            push_str(&mut out, "\\int_{");
            push_all(&mut out, &rendered_lower);
            push_str(&mut out, "}^{");
            push_all(&mut out, &rendered_upper);
            push_str(&mut out, "} ");
            push_all(&mut out, &rendered_body);
            push_str(&mut out, " \\, d");
            push_all(&mut out, &variable);
        },
        BlockOperator::Sum => {
            push_str(&mut out, "\\sum_{");
            push_all(&mut out, &variable);
            push_str(&mut out, "=");
            push_all(&mut out, &rendered_lower);
            push_str(&mut out, "}^{");
            push_all(&mut out, &rendered_upper);
            push_str(&mut out, "} ");
            push_all(&mut out, &rendered_body);
        },
    }
    proof {
        assert(out@ =~= spec_replacement(
            op,
            variable@,
            rendered_lower@,
            rendered_upper@,
            rendered_body@,
        ));
        lemma_replacement_colons(op, variable@, rendered_lower@, rendered_upper@, rendered_body@);
    }
    Some((out, consumed))
}

/// A replacement holds the colons of its pieces and no others.
pub proof fn lemma_replacement_colons(
    op: BlockOperator,
    variable: Seq<char>,
    lower: Seq<char>,
    upper: Seq<char>,
    body: Seq<char>,
)
    ensures
        colons(spec_replacement(op, variable, lower, upper, body)) == colons(variable) + colons(
            lower,
        ) + colons(upper) + colons(body),
{
    reveal_strlit("\\int_{");
    reveal_strlit("}^{");
    reveal_strlit("} ");
    reveal_strlit(" \\, d");
    reveal_strlit("\\sum_{");
    reveal_strlit("=");
    lemma_no_colon("\\int_{"@);
    lemma_no_colon("}^{"@);
    lemma_no_colon("} "@);
    lemma_no_colon(" \\, d"@);
    lemma_no_colon("\\sum_{"@);
    lemma_no_colon("="@);
    match op {
        BlockOperator::Integral => {
            lemma_colons_concat("\\int_{"@, lower);
            lemma_colons_concat("\\int_{"@ + lower, "}^{"@);
            lemma_colons_concat("\\int_{"@ + lower + "}^{"@, upper);
            lemma_colons_concat("\\int_{"@ + lower + "}^{"@ + upper, "} "@);
            lemma_colons_concat("\\int_{"@ + lower + "}^{"@ + upper + "} "@, body);
            lemma_colons_concat("\\int_{"@ + lower + "}^{"@ + upper + "} "@ + body, " \\, d"@);
            lemma_colons_concat(
                "\\int_{"@ + lower + "}^{"@ + upper + "} "@ + body + " \\, d"@,
                variable,
            );
        },
        BlockOperator::Sum => {
            lemma_colons_concat("\\sum_{"@, variable);
            lemma_colons_concat("\\sum_{"@ + variable, "="@);
            lemma_colons_concat("\\sum_{"@ + variable + "="@, lower);
            lemma_colons_concat("\\sum_{"@ + variable + "="@ + lower, "}^{"@);
            lemma_colons_concat("\\sum_{"@ + variable + "="@ + lower + "}^{"@, upper);
            lemma_colons_concat("\\sum_{"@ + variable + "="@ + lower + "}^{"@ + upper, "} "@);
            lemma_colons_concat(
                "\\sum_{"@ + variable + "="@ + lower + "}^{"@ + upper + "} "@,
                body,
            );
        },
    }
}

/// One rewrite of the loop: the rest of the loop goes on from after the
/// replacement.
proof fn lemma_blocks_step(
    out: Seq<char>,
    from: int,
    k: int,
    op: BlockOperator,
    defs: Seq<DefinitionModel>,
    rep: Seq<char>,
    consumed: int,
)
    requires
        0 <= from <= out.len(),
        spec_find_block_operator(out.subrange(from, out.len() as int)) == Some((k, op)),
        spec_parse_block_operator(out.subrange(from + k, out.len() as int), op, defs) == Some(
            (rep, consumed),
        ),
        colons(
            out.subrange(0, from + k) + rep + out.subrange(from + k + consumed, out.len() as int),
        ) < colons(out),
    ensures
        blocks_loop(out, from, defs) == blocks_loop(
            out.subrange(0, from + k) + rep + out.subrange(from + k + consumed, out.len() as int),
            from + k + rep.len(),
            defs,
        ),
{
}

pub fn rewrite_block_operators(s: &Vec<char>, defs: &Vec<Definition>) -> (r: Vec<char>)
    ensures
        r@ == blocks_loop(s@, 0, definitions_model(defs@)),
        colons(r@) <= colons(s@),
        r@ == s@ || colons(r@) < colons(s@),
    decreases colons(s@), s@.len(), 3int, 0int,
{
    let ghost dm = definitions_model(defs@);
    let mut out = s.clone();
    let mut from: usize = 0;
    loop
        invariant
            dm == definitions_model(defs@),
            from <= out.len(),
            blocks_loop(out@, from as int, dm) == blocks_loop(s@, 0, dm),
            colons(out@) <= colons(s@),
            out@ == s@ || colons(out@) < colons(s@),
        decreases colons(out@),
    {
        let rest = tail(&out, from);
        let (k, op) = match find_block_operator(&rest) {
            Some(found) => found,
            None => {
                return out;
            },
        };
        proof {
            lemma_find_word_bound(rest@, "integral"@);
            lemma_find_word_bound(rest@, "sum"@);
        }
        let start = from + k;
        proof {
            lemma_colons_sub(out@, start as int, out@.len() as int);
        }
        let t = tail(&out, start);
        let (replacement, consumed) = match parse_block_operator(&t, op, defs) {
            Some(found) => found,
            None => {
                return out;
            },
        };
        let mut next = slice(&out, 0, start);
        push_all(&mut next, &replacement);
        let after = tail(&out, start + consumed);
        push_all(&mut next, &after);
        proof {
            lemma_colons_concat(out@.subrange(0, start as int), replacement@);
            lemma_colons_concat(out@.subrange(0, start as int) + replacement@, after@);
            lemma_colons_sub(out@, start as int, start + consumed);
            assert(t@.subrange(0, consumed as int) =~= out@.subrange(
                start as int,
                start + consumed,
            ));
        }
        assert(next@ =~= out@.subrange(0, start as int) + replacement@ + out@.subrange(
            start + consumed,
            out@.len() as int,
        ));
        assert(next@.len() == start + replacement@.len() + after@.len());
        assert(colons(next@) < colons(out@));
        assert(rest@ == out@.subrange(from as int, out@.len() as int));
        proof {
            lemma_blocks_step(out@, from as int, k as int, op, dm, replacement@, consumed as int);
        }
        let total = next.len();
        let reached = start + replacement.len();
        out = next;
        from = reached;
    }
}

pub fn render_math_expr(s: &Vec<char>, defs: &Vec<Definition>) -> (r: Vec<char>)
    ensures
        r@ == spec_render_expr(s@, definitions_model(defs@)),
        colons(r@) <= colons(s@),
    decreases colons(s@), s@.len(), 4int, 0int,
{
    let with_blocks = rewrite_block_operators(s, defs);
    let with_calls = rewrite_math_calls(&with_blocks, defs);
    rewrite_math_tokens(&with_calls)
}

pub fn render_math(input: &Vec<char>, defs: &Vec<Definition>) -> (r: Vec<char>)
    ensures
        r@ == spec_render_math(input@, definitions_model(defs@)),
{
    let normalized = squeeze(input);
    render_math_expr(&normalized, defs)
}

/// Adjacent pieces hold the colons of their union.
pub proof fn lemma_colons_adjacent(s: Seq<char>, x: int, y: int, z: int)
    requires
        0 <= x <= y <= z <= s.len(),
    ensures
        colons(s.subrange(x, y)) + colons(s.subrange(y, z)) == colons(s.subrange(x, z)),
{
    lemma_colons_split(s.subrange(x, z), y - x);
    assert(s.subrange(x, z).subrange(0, y - x) =~= s.subrange(x, y));
    assert(s.subrange(x, z).subrange(y - x, z - x) =~= s.subrange(y, z));
}

/// One identifier step of the call rewriting keeps the colon count.
proof fn lemma_ident_step(w: Seq<char>, index: int, a: int, b: int, out: Seq<char>)
    requires
        0 <= index,
        0 <= a <= b,
        index + b <= w.len(),
        colons(out) <= colons(w.subrange(0, index)),
    ensures
        colons(out + w.subrange(index, index + a) + w.subrange(index + a, index + b)) <= colons(
            w.subrange(0, index + b),
        ),
{
    lemma_colons_concat(out, w.subrange(index, index + a));
    lemma_colons_concat(out + w.subrange(index, index + a), w.subrange(index + a, index + b));
    lemma_colons_adjacent(w, index, index + a, index + b);
    lemma_colons_adjacent(w, 0, index, index + b);
}

/// One call step of the call rewriting does not add colons.
proof fn lemma_call_step(
    w: Seq<char>,
    index: int,
    a: int,
    b: int,
    c: int,
    out: Seq<char>,
    rendered: Seq<char>,
)
    requires
        0 <= index,
        0 <= a <= b,
        0 <= c,
        index + b + 1 + c + 1 <= w.len(),
        colons(out) <= colons(w.subrange(0, index)),
        colons(rendered) <= colons(w.subrange(index + b + 1, index + b + 1 + c)),
    ensures
        colons(out + w.subrange(index, index + a) + rendered) <= colons(
            w.subrange(0, index + b + 1 + c + 1),
        ),
{
    let e = index + b + 1 + c + 1;
    lemma_colons_concat(out, w.subrange(index, index + a));
    lemma_colons_concat(out + w.subrange(index, index + a), rendered);
    lemma_colons_adjacent(w, 0, index, e);
    lemma_colons_adjacent(w, index, index + a, e);
    lemma_colons_adjacent(w, index + a, index + b + 1, e);
    lemma_colons_adjacent(w, index + b + 1, index + b + 1 + c, e);
}

pub fn rewrite_math_calls(w: &Vec<char>, defs: &Vec<Definition>) -> (r: Vec<char>)
    ensures
        r@ == calls_from(w@, 0, definitions_model(defs@)),
        colons(r@) <= colons(w@),
    decreases colons(w@), w@.len(), 3int, 0int,
{
    let ghost dm = definitions_model(defs@);
    let mut out: Vec<char> = Vec::new();
    let mut index: usize = 0;
    assert(w@.subrange(0, 0) =~= Seq::<char>::empty());
    while index < w.len()
        invariant
            index <= w.len(),
            dm == definitions_model(defs@),
            out@ + calls_from(w@, index as int, dm) == calls_from(w@, 0, dm),
            colons(out@) <= colons(w@.subrange(0, index as int)),
        decreases w.len() - index,
    {
        let rest = tail(w, index);
        let ghost before = out@;
        proof {
            lemma_next_identifier(rest@);
        }
        let (a, b) = match next_identifier(&rest) {
            Some(bounds) => bounds,
            None => {
                push_all(&mut out, &rest);
                proof {
                    lemma_colons_concat(before, rest@);
                    lemma_colons_adjacent(w@, 0, index as int, w@.len() as int);
                    assert(w@.subrange(0, w@.len() as int) =~= w@);
                }
                return out;
            },
        };
        let prefix = slice(&rest, 0, a);
        let name = slice(&rest, a, b);
        assert(prefix@ =~= w@.subrange(index as int, index + a));
        assert(name@ =~= w@.subrange(index + a, index + b));
        proof {
            crate::scan::lemma_ident_start_from(rest@, 0);
            lemma_ident_end_from(rest@, a + 1);
            assert(no_colon(name@));
            lemma_no_colon(name@);
        }
        let backslash = vec!['\\'];
        assert(backslash@ =~= seq!['\\']);
        if crate::text::ends_with(&prefix, &backslash) {
            push_all(&mut out, &prefix);
            push_all(&mut out, &name);
            proof {
                lemma_ident_step(w@, index as int, a as int, b as int, before);
                assert(out@ + calls_from(w@, index + b, dm) =~= before + calls_from(
                    w@,
                    index as int,
                    dm,
                ));
            }
            index = index + b;
            continue;
        }
        let after = tail(&rest, b);
        if after.len() > 0 && after[0] == '(' {
            let inner = tail(&after, 1);
            if let Some(c) = matching_close(&inner, '(', ')') {
                let body = slice(&inner, 0, c);
                assert(body@ =~= w@.subrange(index + b + 1, index + b + 1 + c));
                proof {
                    lemma_colons_sub(w@, index + b + 1, index + b + 1 + c);
                }
                let rendered = render_math_call(&name, &body, defs);
                push_all(&mut out, &prefix);
                push_all(&mut out, &rendered);
                proof {
                    lemma_call_step(w@, index as int, a as int, b as int, c as int, before, rendered@);
                    assert(out@ + calls_from(w@, index + b + 1 + c + 1, dm) =~= before
                        + calls_from(w@, index as int, dm));
                }
                index = index + b + 1 + c + 1;
                continue;
            }
        }
        push_all(&mut out, &prefix);
        push_all(&mut out, &name);
        proof {
            lemma_ident_step(w@, index as int, a as int, b as int, before);
            assert(out@ + calls_from(w@, index + b, dm) =~= before + calls_from(
                w@,
                index as int,
                dm,
            ));
        }
        index = index + b;
    }
    assert(out@ + calls_from(w@, index as int, dm) =~= out@);
    assert(w@.subrange(0, index as int) =~= w@);
    out
}

pub proof fn lemma_colons_sum_push(a: Seq<Seq<char>>, x: Seq<char>)
    ensures
        colons_sum(a.push(x)) == colons_sum(a) + colons(x),
{
    lemma_colons_sum_concat(a, seq![x]);
    assert(a + seq![x] =~= a.push(x));
    let one = seq![x];
    assert(one.subrange(1, 1) =~= Seq::<Seq<char>>::empty());
    assert(colons_sum(one) == colons(x) + colons_sum(one.subrange(1, 1)));
}

pub proof fn lemma_braced_colons(args: Seq<Seq<char>>)
    ensures
        colons(braced(args)) == colons_sum(args),
    decreases args.len(),
{
    if args.len() > 0 {
        lemma_braced_colons(args.drop_last());
        reveal_strlit("{");
        reveal_strlit("}");
        lemma_no_colon("{"@);
        lemma_no_colon("}"@);
        lemma_colons_concat(braced(args.drop_last()), "{"@);
        lemma_colons_concat(braced(args.drop_last()) + "{"@, args.last());
        lemma_colons_concat(braced(args.drop_last()) + "{"@ + args.last(), "}"@);
        lemma_colons_sum_push(args.drop_last(), args.last());
        assert(args.drop_last().push(args.last()) =~= args);
    }
}

pub proof fn lemma_joined_colons(args: Seq<Seq<char>>, sep: Seq<char>)
    requires
        colons(sep) == 0,
    ensures
        colons(joined(args, sep)) == colons_sum(args),
    decreases args.len(),
{
    if args.len() == 1 {
        lemma_colons_sum_push(Seq::<Seq<char>>::empty(), args[0]);
        assert(Seq::<Seq<char>>::empty().push(args[0]) =~= args);
    } else if args.len() > 1 {
        lemma_joined_colons(args.drop_last(), sep);
        lemma_colons_concat(joined(args.drop_last(), sep), sep);
        lemma_colons_concat(joined(args.drop_last(), sep) + sep, args.last());
        lemma_colons_sum_push(args.drop_last(), args.last());
        assert(args.drop_last().push(args.last()) =~= args);
    }
}

pub proof fn lemma_find_definition(defs: Seq<DefinitionModel>, name: Seq<char>, n: nat)
    ensures
        find_definition(defs, name, n) matches Some(d) ==> d.name == name,
    decreases defs.len(),
{
    if defs.len() > 0 {
        lemma_find_definition(defs.subrange(1, defs.len() as int), name, n);
    }
}

/// The index of the first definition named `name` with `n` parameters.
pub fn find_macro(defs: &Vec<Definition>, name: &Vec<char>, n: usize) -> (r: Option<usize>)
    ensures
        match find_definition(definitions_model(defs@), name@, n as nat) {
            None => r is None,
            Some(d) => r matches Some(i) && i < defs.len() && d == defs@[i as int].model(),
        },
{
    let ghost dm = definitions_model(defs@);
    let mut i: usize = 0;
    assert(dm.subrange(0, dm.len() as int) =~= dm);
    while i < defs.len()
        invariant
            i <= defs.len(),
            dm == definitions_model(defs@),
            find_definition(dm, name@, n as nat) == find_definition(
                dm.subrange(i as int, dm.len() as int),
                name@,
                n as nat,
            ),
        decreases defs.len() - i,
    {
        let ghost rest = dm.subrange(i as int, dm.len() as int);
        assert(rest[0] == defs@[i as int].model());
        assert(defs@[i as int].model().params.len() == defs@[i as int].params.len());
        if same(&defs[i].name, name) && defs[i].params.len() == n {
            return Some(i);
        }
        assert(rest.subrange(1, rest.len() as int) =~= dm.subrange(i + 1, dm.len() as int));
        i += 1;
    }
    None
}

/// `\name{arg}{arg}...`.
pub fn render_macro_call(definition: &Definition, args: &Vec<Vec<char>>) -> (r: Vec<char>)
    ensures
        r@ == "\\"@ + definition.name@ + braced(views(args@)),
{
    let mut out = chars_of("\\");
    push_all(&mut out, &definition.name);
    let ghost head = out@;
    let mut i: usize = 0;
    while i < args.len()
        invariant
            i <= args.len(),
            out@ == head + braced(views(args@).subrange(0, i as int)),
        decreases args.len() - i,
    {
        push_str(&mut out, "{");
        push_all(&mut out, &args[i]);
        push_str(&mut out, "}");
        proof {
            let v = views(args@);
            assert(v.subrange(0, i + 1).drop_last() =~= v.subrange(0, i as int));
            assert(v.subrange(0, i + 1).last() == args@[i as int]@);
        }
        i += 1;
    }
    assert(views(args@).subrange(0, args.len() as int) =~= views(args@));
    out
}

/// The rendered arguments joined by `", "`.
pub fn join_args(args: &Vec<Vec<char>>) -> (r: Vec<char>)
    ensures
        r@ == joined(views(args@), ", "@),
{
    let mut out: Vec<char> = Vec::new();
    let mut i: usize = 0;
    while i < args.len()
        invariant
            i <= args.len(),
            out@ == joined(views(args@).subrange(0, i as int), ", "@),
        decreases args.len() - i,
    {
        let ghost v = views(args@);
        if i > 0 {
            push_str(&mut out, ", ");
        }
        push_all(&mut out, &args[i]);
        proof {
            assert(v.subrange(0, i + 1).drop_last() =~= v.subrange(0, i as int));
            assert(v.subrange(0, i + 1).last() == args@[i as int]@);
            if i == 0 {
                assert(out@ =~= v.subrange(0, 1)[0]);
            }
        }
        i += 1;
    }
    assert(views(args@).subrange(0, args.len() as int) =~= views(args@));
    out
}

/// Appends `open`, `arg` and `close` to an empty `out`.
fn wrap_arg(out: &mut Vec<char>, open: &str, arg: &Vec<char>, close: &str)
    requires
        old(out)@.len() == 0,
        colons(open@) == 0,
        colons(close@) == 0,
    ensures
        final(out)@ == open@ + arg@ + close@,
        colons(final(out)@) == colons(arg@),
{
    push_str(out, open);
    push_all(out, arg);
    push_str(out, close);
    proof {
        assert(old(out)@ + open@ =~= open@);
        lemma_colons_concat(open@, arg@);
        lemma_colons_concat(open@ + arg@, close@);
    }
}

/// A built-in math function applied to rendered arguments.
pub fn builtin_call(name: &Vec<char>, args: &Vec<Vec<char>>) -> (r: Vec<char>)
    ensures
        r@ == spec_builtin_call(name@, views(args@)),
        colons(name@) == 0 ==> colons(r@) == colons_sum(views(args@)),
{
    let ghost v = views(args@);
    let mut out: Vec<char> = Vec::new();
    proof {
        reveal_strlit("\\frac{");
        reveal_strlit("}{");
        reveal_strlit("}");
        reveal_strlit("\\sqrt{");
        reveal_strlit("\\exp\\left(");
        reveal_strlit("\\cos\\left(");
        reveal_strlit("\\sin\\left(");
        reveal_strlit("\\log\\left(");
        reveal_strlit("\\right)");
        reveal_strlit("\\mathbb{");
        reveal_strlit("\\lVert ");
        reveal_strlit(" \\rVert");
        reveal_strlit("\\left(\\right)");
        reveal_strlit("\\left(");
        reveal_strlit(", ");
        lemma_no_colon("\\frac{"@);
        lemma_no_colon("}{"@);
        lemma_no_colon("}"@);
        lemma_no_colon("\\sqrt{"@);
        lemma_no_colon("\\exp\\left("@);
        lemma_no_colon("\\cos\\left("@);
        lemma_no_colon("\\sin\\left("@);
        lemma_no_colon("\\log\\left("@);
        lemma_no_colon("\\right)"@);
        lemma_no_colon("\\mathbb{"@);
        lemma_no_colon("\\lVert "@);
        lemma_no_colon(" \\rVert"@);
        lemma_no_colon("\\left(\\right)"@);
        lemma_no_colon("\\left("@);
        lemma_no_colon(", "@);
        if v.len() >= 1 {
            lemma_colons_sum_push(Seq::<Seq<char>>::empty(), v[0]);
        }
        if v.len() == 1 {
            assert(Seq::<Seq<char>>::empty().push(v[0]) =~= v);
        }
        if v.len() == 2 {
            lemma_colons_sum_push(seq![v[0]], v[1]);
            assert(Seq::<Seq<char>>::empty().push(v[0]) =~= seq![v[0]]);
            assert(seq![v[0]].push(v[1]) =~= v);
        }
    }
    if is(name, "frac") && args.len() == 2 {
        push_str(&mut out, "\\frac{");
        push_all(&mut out, &args[0]);
        push_str(&mut out, "}{");
        push_all(&mut out, &args[1]);
        push_str(&mut out, "}");
        proof {
            lemma_colons_concat("\\frac{"@, v[0]);
            lemma_colons_concat("\\frac{"@ + v[0], "}{"@);
            lemma_colons_concat("\\frac{"@ + v[0] + "}{"@, v[1]);
            lemma_colons_concat("\\frac{"@ + v[0] + "}{"@ + v[1], "}"@);
        }
    } else if is(name, "sqrt") && args.len() == 1 {
        wrap_arg(&mut out, "\\sqrt{", &args[0], "}");
    } else if is(name, "exp") && args.len() == 1 {
        wrap_arg(&mut out, "\\exp\\left(", &args[0], "\\right)");
    } else if is(name, "cos") && args.len() == 1 {
        wrap_arg(&mut out, "\\cos\\left(", &args[0], "\\right)");
    } else if is(name, "sin") && args.len() == 1 {
        wrap_arg(&mut out, "\\sin\\left(", &args[0], "\\right)");
    } else if is(name, "log") && args.len() == 1 {
        wrap_arg(&mut out, "\\log\\left(", &args[0], "\\right)");
    } else if is(name, "mathbb") && args.len() == 1 {
        wrap_arg(&mut out, "\\mathbb{", &args[0], "}");
    } else if is(name, "norm") && args.len() == 1 {
        wrap_arg(&mut out, "\\lVert ", &args[0], " \\rVert");
    } else if args.len() == 0 {
        push_all(&mut out, name);
        push_str(&mut out, "\\left(\\right)");
        proof {
            lemma_colons_concat(name@, "\\left(\\right)"@);
        }
    } else {
        push_all(&mut out, name);
        push_str(&mut out, "\\left(");
        let list = join_args(args);
        push_all(&mut out, &list);
        push_str(&mut out, "\\right)");
        proof {
            lemma_joined_colons(v, ", "@);
            lemma_colons_concat(name@, "\\left("@);
            lemma_colons_concat(name@ + "\\left("@, list@);
            lemma_colons_concat(name@ + "\\left("@ + list@, "\\right)"@);
        }
    }
    out
}

pub fn render_math_call(name: &Vec<char>, body: &Vec<char>, defs: &Vec<Definition>) -> (r: Vec<
    char,
>)
    ensures
        r@ == spec_render_call(name@, body@, definitions_model(defs@)),
        colons(name@) == 0 ==> colons(r@) <= colons(body@),
    decreases colons(body@), body@.len() + 1, 2int, 0int,
{
    let ghost dm = definitions_model(defs@);
    let pieces = split_top_level_commas(body);
    let ghost ps = views(pieces@);
    proof {
        lemma_split_commas(body@);
        lemma_colons_split_commas(body@);
    }
    let mut args: Vec<Vec<char>> = Vec::new();
    let mut k: usize = 0;
    assert(views(args@) =~= Seq::<Seq<char>>::empty());
    assert(ps.subrange(0, 0) =~= Seq::<Seq<char>>::empty());
    while k < pieces.len()
        invariant
            k <= pieces.len(),
            dm == definitions_model(defs@),
            ps == views(pieces@),
            ps == spec_split_commas(body@),
            forall|j: int| 0 <= j < ps.len() ==> colons(#[trigger] ps[j]) <= colons(body@),
            forall|j: int| 0 <= j < ps.len() ==> (#[trigger] ps[j]).len() <= body@.len(),
            render_args(body@, 0, dm) == views(args@) + render_args(body@, k as int, dm),
            colons_sum(views(args@)) <= colons_sum(ps.subrange(0, k as int)),
        decreases pieces.len() - k,
    {
        let arg = trim(&pieces[k]);
        proof {
            lemma_colons_trim(ps[k as int]);
        }
        let rendered = render_math_expr(&arg, defs);
        let ghost before = views(args@);
        args.push(rendered);
        proof {
            assert(views(args@) =~= before.push(rendered@));
            assert(views(args@) + render_args(body@, k + 1, dm) =~= before + render_args(
                body@,
                k as int,
                dm,
            ));
            lemma_colons_sum_push(before, rendered@);
            lemma_colons_sum_push(ps.subrange(0, k as int), ps[k as int]);
            assert(ps.subrange(0, k as int).push(ps[k as int]) =~= ps.subrange(0, k + 1));
        }
        k += 1;
    }
    proof {
        assert(views(args@) + render_args(body@, k as int, dm) =~= views(args@));
        assert(ps.subrange(0, k as int) =~= ps);
    }
    match find_macro(defs, name, args.len()) {
        Some(i) => {
            let out = render_macro_call(&defs[i], &args);
            proof {
                lemma_find_definition(dm, name@, args.len() as nat);
                lemma_braced_colons(views(args@));
                reveal_strlit("\\");
                lemma_no_colon("\\"@);
                lemma_colons_concat("\\"@, name@);
                lemma_colons_concat("\\"@ + name@, braced(views(args@)));
            }
            out
        },
        None => builtin_call(name, &args),
    }
}

} // verus!
