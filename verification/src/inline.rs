//! Inline content: `p "text", bold("x"), math { ... }, ...`.
use vstd::prelude::*;

use crate::diagnostic::{fault, outcome, Diagnostic, DiagnosticModel};
use crate::lex::{
    parse_required_string, parse_string_literal, parse_symbol,
    spec_parse_required_string, spec_parse_string_literal, spec_parse_symbol,
};
use crate::scan::{
    is_plain_number, lemma_close_from, lemma_split_commas, matching_close, spec_is_plain_number,
    spec_matching_close, spec_split_commas, split_top_level_commas,
};
use crate::syntax::{Inline, InlineModel, inlines_model};
use crate::text::{
    is_blank, lemma_trim_len, spec_strip_prefix, spec_trim, spec_trim_start, strip_prefix, slice,
    tail, trim, trim_start, views,
};

verus! {

/// `NAME(BODY)` with nothing after the closing parenthesis: the body.
pub open spec fn spec_call_body(s: Seq<char>, name: Seq<char>) -> Option<Seq<char>> {
    match spec_strip_prefix(s, name) {
        None => None,
        Some(r) => if r.len() > 0 && r[0] == '(' {
            let inner = r.subrange(1, r.len() as int);
            match spec_matching_close(inner, '(', ')') {
                None => None,
                Some(c) => if spec_trim(inner.subrange(c + 1, inner.len() as int)).len() == 0 {
                    Some(inner.subrange(0, c))
                } else {
                    None
                },
            }
        } else {
            None
        },
    }
}

/// `NAME { BODY }` with nothing after the closing brace: the body.
pub open spec fn spec_brace_body(s: Seq<char>, name: Seq<char>) -> Option<Seq<char>> {
    match spec_strip_prefix(s, name) {
        None => None,
        Some(r0) => {
            let r = spec_trim_start(r0);
            if r.len() > 0 && r[0] == '{' {
                let inner = r.subrange(1, r.len() as int);
                match spec_matching_close(inner, '{', '}') {
                    None => None,
                    Some(c) => if spec_trim(inner.subrange(c + 1, inner.len() as int)).len()
                        == 0 {
                        Some(inner.subrange(0, c))
                    } else {
                        None
                    },
                }
            } else {
                None
            }
        },
    }
}

pub proof fn lemma_call_body(s: Seq<char>, name: Seq<char>)
    ensures
        spec_call_body(s, name) matches Some(b) ==> b.len() < s.len(),
{
    if let Some(r) = spec_strip_prefix(s, name) {
        if r.len() > 0 && r[0] == '(' {
            lemma_close_from(r.subrange(1, r.len() as int), '(', ')', 0, 0, false, false);
        }
    }
}

pub fn parse_call_body(s: &Vec<char>, name: &str) -> (r: Option<Vec<char>>)
    ensures
        r matches Some(b) ==> spec_call_body(s@, name@) == Some(b@),
        r is None ==> spec_call_body(s@, name@) is None,
{
    let r = strip_prefix(s, name)?;
    if !(r.len() > 0 && r[0] == '(') {
        return None;
    }
    let inner = tail(&r, 1);
    let c = matching_close(&inner, '(', ')')?;
    let after = tail(&inner, c + 1);
    if is_blank(&after) {
        Some(slice(&inner, 0, c))
    } else {
        None
    }
}

pub fn parse_brace_body(s: &Vec<char>, name: &str) -> (r: Option<Vec<char>>)
    ensures
        r matches Some(b) ==> spec_brace_body(s@, name@) == Some(b@),
        r is None ==> spec_brace_body(s@, name@) is None,
{
    let r0 = strip_prefix(s, name)?;
    let r = trim_start(&r0);
    if !(r.len() > 0 && r[0] == '{') {
        return None;
    }
    let inner = tail(&r, 1);
    let c = matching_close(&inner, '{', '}')?;
    let after = tail(&inner, c + 1);
    if is_blank(&after) {
        Some(slice(&inner, 0, c))
    } else {
        None
    }
}

/// One of the three inline styles that wrap other inline content.
#[derive(Debug, Clone, Copy)]
pub enum InlineConstructor {
    Bold,
    Italic,
    SmallCaps,
}

impl InlineConstructor {
    pub open spec fn apply(self, children: Seq<InlineModel>) -> InlineModel {
        match self {
            InlineConstructor::Bold => InlineModel::Bold(children),
            InlineConstructor::Italic => InlineModel::Italic(children),
            InlineConstructor::SmallCaps => InlineModel::SmallCaps(children),
        }
    }

    pub fn wrap(self, children: Vec<Inline>) -> (r: Inline)
        ensures
            r.model() == self.apply(inlines_model(children@)),
    {
        match self {
            InlineConstructor::Bold => Inline::Bold(children),
            InlineConstructor::Italic => Inline::Italic(children),
            InlineConstructor::SmallCaps => Inline::SmallCaps(children),
        }
    }
}

/// The formatting chain after a string: `.bold`, `.italic`, `.small_caps`,
/// each wrapping what came before.
pub open spec fn spec_string_chain(inline: InlineModel, rest: Seq<char>, line: usize) -> Result<
    InlineModel,
    DiagnosticModel,
>
    decreases rest.len(),
{
    if rest.len() > 0 && rest[0] == '.' {
        let chain = rest.subrange(1, rest.len() as int);
        proof {
            lemma_trim_len(chain);
        }
        if let Some(next) = spec_strip_prefix(chain, "bold"@) {
            proof {
                lemma_trim_len(next);
            }
            spec_string_chain(InlineModel::Bold(seq![inline]), spec_trim(next), line)
        } else if let Some(next) = spec_strip_prefix(chain, "italic"@) {
            proof {
                lemma_trim_len(next);
            }
            spec_string_chain(InlineModel::Italic(seq![inline]), spec_trim(next), line)
        } else if let Some(next) = spec_strip_prefix(chain, "small_caps"@) {
            proof {
                lemma_trim_len(next);
            }
            spec_string_chain(InlineModel::SmallCaps(seq![inline]), spec_trim(next), line)
        } else {
            Err(fault(line, "unknown string formatting chain"@))
        }
    } else if rest.len() == 0 {
        Ok(inline)
    } else {
        Err(fault(line, "unexpected text after inline string"@))
    }
}

/// An inline item. A string literal may carry a formatting chain; the
/// styles take a call `bold(...)` or a prefix `bold ...`; `cite(:key)`,
/// `ref(:key)`, `latex("...")` and `math { ... }` are what they say; a plain
/// number is text, and anything else is a math expression.
pub open spec fn spec_inline_atom(s: Seq<char>, line: usize) -> Result<
    InlineModel,
    DiagnosticModel,
>
    decreases s.len(), 0int, 0int,
{
    if s.len() > 0 && s[0] == '"' {
        match spec_parse_string_literal(s, line) {
            Err(e) => Err(e),
            Ok((text, t)) => spec_string_chain(InlineModel::Text(text), spec_trim(t), line),
        }
    } else {
        proof {
            lemma_call_body(s, "bold"@);
            lemma_call_body(s, "italic"@);
            lemma_call_body(s, "small_caps"@);
            reveal_strlit("bold ");
            reveal_strlit("italic ");
            reveal_strlit("small_caps ");
        }
        if let Some(body) = spec_call_body(s, "bold"@) {
            wrapped(InlineConstructor::Bold, spec_inline_list(body, line))
        } else if let Some(rest) = spec_strip_prefix(s, "bold "@) {
            proof {
                lemma_trim_len(rest);
            }
            wrapped(InlineConstructor::Bold, spec_inline_list(spec_trim(rest), line))
        } else if let Some(body) = spec_call_body(s, "italic"@) {
            wrapped(InlineConstructor::Italic, spec_inline_list(body, line))
        } else if let Some(rest) = spec_strip_prefix(s, "italic "@) {
            proof {
                lemma_trim_len(rest);
            }
            wrapped(InlineConstructor::Italic, spec_inline_list(spec_trim(rest), line))
        } else if let Some(body) = spec_call_body(s, "small_caps"@) {
            wrapped(InlineConstructor::SmallCaps, spec_inline_list(body, line))
        } else if let Some(rest) = spec_strip_prefix(s, "small_caps "@) {
            proof {
                lemma_trim_len(rest);
            }
            wrapped(InlineConstructor::SmallCaps, spec_inline_list(spec_trim(rest), line))
        } else {
            spec_inline_leaf(s, line)
        }
    }
}

/// The inline items that wrap nothing.
pub open spec fn spec_inline_leaf(s: Seq<char>, line: usize) -> Result<
    InlineModel,
    DiagnosticModel,
> {
    if let Some(body) = spec_call_body(s, "cite"@) {
        match spec_parse_symbol(spec_trim(body), line) {
            Ok(k) => Ok(InlineModel::Cite(k)),
            Err(e) => Err(e),
        }
    } else if let Some(body) = spec_call_body(s, "ref"@) {
        match spec_parse_symbol(spec_trim(body), line) {
            Ok(k) => Ok(InlineModel::Ref(k)),
            Err(e) => Err(e),
        }
    } else if let Some(body) = spec_call_body(s, "latex"@) {
        match spec_parse_required_string(spec_trim(body), line) {
            Ok(v) => Ok(InlineModel::Latex(v)),
            Err(e) => Err(e),
        }
    } else if let Some(rest) = spec_strip_prefix(s, "latex "@) {
        match spec_parse_required_string(spec_trim(rest), line) {
            Ok(v) => Ok(InlineModel::Latex(v)),
            Err(e) => Err(e),
        }
    } else if let Some(body) = spec_brace_body(s, "math"@) {
        Ok(InlineModel::Math(spec_trim(body)))
    } else if spec_is_plain_number(s) {
        Ok(InlineModel::Text(s))
    } else {
        Ok(InlineModel::Math(s))
    }
}

pub open spec fn wrapped(
    k: InlineConstructor,
    children: Result<Seq<InlineModel>, DiagnosticModel>,
) -> Result<InlineModel, DiagnosticModel> {
    match children {
        Ok(c) => Ok(k.apply(c)),
        Err(e) => Err(e),
    }
}

/// A comma-separated list of inline items; blank pieces are skipped.
pub open spec fn spec_inline_list(s: Seq<char>, line: usize) -> Result<
    Seq<InlineModel>,
    DiagnosticModel,
>
    decreases s.len(), 2int, 0int,
{
    inline_items_from(s, 0, line)
}

/// The items of the pieces of `s` from the `k`-th on.
pub open spec fn inline_items_from(s: Seq<char>, k: int, line: usize) -> Result<
    Seq<InlineModel>,
    DiagnosticModel,
>
    decreases s.len(), 1int, spec_split_commas(s).len() - k,
{
    let pieces = spec_split_commas(s);
    if k < 0 || k >= pieces.len() {
        Ok(seq![])
    } else {
        let piece = spec_trim(pieces[k]);
        proof {
            lemma_split_commas(s);
            lemma_trim_len(pieces[k]);
        }
        if piece.len() == 0 {
            inline_items_from(s, k + 1, line)
        } else {
            match spec_inline_atom(piece, line) {
                Err(e) => Err(e),
                Ok(item) => match inline_items_from(s, k + 1, line) {
                    Err(e) => Err(e),
                    Ok(rest) => Ok(seq![item] + rest),
                },
            }
        }
    }
}

pub fn parse_string_chain(first: Inline, rest: Vec<char>, line: usize) -> (r: Result<
    Inline,
    Diagnostic,
>)
    ensures
        outcome(r, |i: Inline| i.model()) == spec_string_chain(first.model(), rest@, line),
{
    let ghost goal = spec_string_chain(first.model(), rest@, line);
    let mut inline = first;
    let mut cur = rest;
    while cur.len() > 0 && cur[0] == '.'
        invariant
            spec_string_chain(inline.model(), cur@, line) == goal,
            goal == spec_string_chain(first.model(), rest@, line),
        decreases cur.len(),
    {
        let chain = tail(&cur, 1);
        let ghost m = inline.model();
        if let Some(next) = strip_prefix(&chain, "bold") {
            let v = vec![inline];
            assert(inlines_model(v@) =~= seq![m]);
            inline = Inline::Bold(v);
            proof {
                lemma_trim_len(next@);
            }
            cur = trim(&next);
        } else if let Some(next) = strip_prefix(&chain, "italic") {
            let v = vec![inline];
            assert(inlines_model(v@) =~= seq![m]);
            inline = Inline::Italic(v);
            proof {
                lemma_trim_len(next@);
            }
            cur = trim(&next);
        } else if let Some(next) = strip_prefix(&chain, "small_caps") {
            let v = vec![inline];
            assert(inlines_model(v@) =~= seq![m]);
            inline = Inline::SmallCaps(v);
            proof {
                lemma_trim_len(next@);
            }
            cur = trim(&next);
        } else {
            return Err(Diagnostic::at(line, "unknown string formatting chain"));
        }
    }
    if cur.len() == 0 {
        Ok(inline)
    } else {
        Err(Diagnostic::at(line, "unexpected text after inline string"))
    }
}

pub fn parse_inline_leaf(s: &Vec<char>, line: usize) -> (r: Result<Inline, Diagnostic>)
    ensures
        outcome(r, |i: Inline| i.model()) == spec_inline_leaf(s@, line),
{
    if let Some(body) = parse_call_body(s, "cite") {
        let body = trim(&body);
        let key = parse_symbol(&body, line)?;
        return Ok(Inline::Cite(key));
    }
    if let Some(body) = parse_call_body(s, "ref") {
        let body = trim(&body);
        let key = parse_symbol(&body, line)?;
        return Ok(Inline::Ref(key));
    }
    if let Some(body) = parse_call_body(s, "latex") {
        let body = trim(&body);
        let value = parse_required_string(&body, line)?;
        return Ok(Inline::Latex(value));
    }
    if let Some(rest) = strip_prefix(s, "latex ") {
        let rest = trim(&rest);
        let value = parse_required_string(&rest, line)?;
        return Ok(Inline::Latex(value));
    }
    if let Some(body) = parse_brace_body(s, "math") {
        return Ok(Inline::Math(trim(&body)));
    }
    if is_plain_number(s) {
        return Ok(Inline::Text(s.clone()));
    }
    Ok(Inline::Math(s.clone()))
}

pub fn parse_inline_atom(s: &Vec<char>, line: usize) -> (r: Result<Inline, Diagnostic>)
    ensures
        outcome(r, |i: Inline| i.model()) == spec_inline_atom(s@, line),
    decreases s.len(), 0int,
{
    if s.len() > 0 && s[0] == '"' {
        let (text, t) = parse_string_literal(s, line)?;
        let t = trim(&t);
        return parse_string_chain(Inline::Text(text), t, line);
    }
    proof {
        lemma_call_body(s@, "bold"@);
        lemma_call_body(s@, "italic"@);
        lemma_call_body(s@, "small_caps"@);
        reveal_strlit("bold ");
        reveal_strlit("italic ");
        reveal_strlit("small_caps ");
    }
    if let Some(body) = parse_call_body(s, "bold") {
        let children = parse_inline_list(&body, line)?;
        return Ok(InlineConstructor::Bold.wrap(children));
    }
    if let Some(rest) = strip_prefix(s, "bold ") {
        proof {
            lemma_trim_len(rest@);
        }
        let rest = trim(&rest);
        let children = parse_inline_list(&rest, line)?;
        return Ok(InlineConstructor::Bold.wrap(children));
    }
    if let Some(body) = parse_call_body(s, "italic") {
        let children = parse_inline_list(&body, line)?;
        return Ok(InlineConstructor::Italic.wrap(children));
    }
    if let Some(rest) = strip_prefix(s, "italic ") {
        proof {
            lemma_trim_len(rest@);
        }
        let rest = trim(&rest);
        let children = parse_inline_list(&rest, line)?;
        return Ok(InlineConstructor::Italic.wrap(children));
    }
    if let Some(body) = parse_call_body(s, "small_caps") {
        let children = parse_inline_list(&body, line)?;
        return Ok(InlineConstructor::SmallCaps.wrap(children));
    }
    if let Some(rest) = strip_prefix(s, "small_caps ") {
        proof {
            lemma_trim_len(rest@);
        }
        let rest = trim(&rest);
        let children = parse_inline_list(&rest, line)?;
        return Ok(InlineConstructor::SmallCaps.wrap(children));
    }
    parse_inline_leaf(s, line)
}

pub fn parse_inline_list(s: &Vec<char>, line: usize) -> (r: Result<Vec<Inline>, Diagnostic>)
    ensures
        outcome(r, |v: Vec<Inline>| inlines_model(v@)) == spec_inline_list(s@, line),
    decreases s.len(), 1int,
{
    let pieces = split_top_level_commas(s);
    let ghost ps = views(pieces@);
    proof {
        lemma_split_commas(s@);
    }
    let mut out: Vec<Inline> = Vec::new();
    assert(inlines_model(out@) =~= Seq::<InlineModel>::empty());
    let mut k: usize = 0;
    while k < pieces.len()
        invariant
            k <= pieces.len(),
            ps == views(pieces@),
            ps == spec_split_commas(s@),
            forall|j: int| 0 <= j < ps.len() ==> (#[trigger] ps[j]).len() <= s@.len(),
            spec_inline_list(s@, line) == match inline_items_from(s@, k as int, line) {
                Err(e) => Err(e),
                Ok(rest) => Ok(inlines_model(out@) + rest),
            },
        decreases pieces.len() - k,
    {
        let piece = trim(&pieces[k]);
        assert(piece@ == spec_trim(ps[k as int]));
        proof {
            lemma_trim_len(ps[k as int]);
        }
        if piece.len() != 0 {
            let item = parse_inline_atom(&piece, line)?;
            let ghost before = inlines_model(out@);
            out.push(item);
            proof {
                assert(inlines_model(out@) =~= before.push(item.model()));
                match inline_items_from(s@, k + 1, line) {
                    Err(e) => {},
                    Ok(rest) => {
                        assert(inlines_model(out@) + rest =~= before + (seq![item.model()]
                            + rest));
                    },
                }
            }
        }
        k += 1;
    }
    assert(inlines_model(out@) + Seq::<InlineModel>::empty() =~= inlines_model(out@));
    Ok(out)
}

/// The `vitamins` half of a comparison: a style prefix applies to the
/// whole rest of the line.
pub open spec fn spec_parse_vitamins_snippet(s: Seq<char>, line: usize) -> Result<
    Seq<InlineModel>,
    DiagnosticModel,
> {
    if let Some(rest) = spec_strip_prefix(s, "bold "@) {
        snippet(InlineConstructor::Bold, spec_inline_list(spec_trim(rest), line))
    } else if let Some(rest) = spec_strip_prefix(s, "italic "@) {
        snippet(InlineConstructor::Italic, spec_inline_list(spec_trim(rest), line))
    } else if let Some(rest) = spec_strip_prefix(s, "small_caps "@) {
        snippet(InlineConstructor::SmallCaps, spec_inline_list(spec_trim(rest), line))
    } else {
        spec_inline_list(s, line)
    }
}

pub open spec fn snippet(
    k: InlineConstructor,
    children: Result<Seq<InlineModel>, DiagnosticModel>,
) -> Result<Seq<InlineModel>, DiagnosticModel> {
    match children {
        Ok(c) => Ok(seq![k.apply(c)]),
        Err(e) => Err(e),
    }
}

pub fn parse_vitamins_snippet(s: &Vec<char>, line: usize) -> (r: Result<
    Vec<Inline>,
    Diagnostic,
>)
    ensures
        outcome(r, |v: Vec<Inline>| inlines_model(v@)) == spec_parse_vitamins_snippet(s@, line),
{
    if let Some(rest) = strip_prefix(s, "bold ") {
        return snippet_of(InlineConstructor::Bold, &rest, line);
    }
    if let Some(rest) = strip_prefix(s, "italic ") {
        return snippet_of(InlineConstructor::Italic, &rest, line);
    }
    if let Some(rest) = strip_prefix(s, "small_caps ") {
        return snippet_of(InlineConstructor::SmallCaps, &rest, line);
    }
    parse_inline_list(s, line)
}

fn snippet_of(k: InlineConstructor, rest: &Vec<char>, line: usize) -> (r: Result<
    Vec<Inline>,
    Diagnostic,
>)
    ensures
        outcome(r, |v: Vec<Inline>| inlines_model(v@)) == snippet(
            k,
            spec_inline_list(spec_trim(rest@), line),
        ),
{
    let rest = trim(rest);
    let children = parse_inline_list(&rest, line)?;
    let item = k.wrap(children);
    let ghost m = item.model();
    let v = vec![item];
    assert(inlines_model(v@) =~= seq![m]);
    Ok(v)
}

} // verus!
