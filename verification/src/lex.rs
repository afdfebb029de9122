//! String literals, symbols, options and the other small pieces of syntax
//! that statements are made of.
use vstd::prelude::*;

use crate::diagnostic::{fault, outcome, Diagnostic, DiagnosticModel};
use crate::scan::{
    find_top_level_comma, matching_close, next_identifier, spec_is_command_name, spec_is_identifier,
    spec_matching_close, spec_next_identifier, spec_split_commas, spec_split_index,
    split_top_level_commas, is_identifier, is_latex_command_name,
};
use crate::syntax::{Align, Definition, DefinitionModel, Feature};
use crate::text::{
    chars_of, find, is, spec_find_from, lemma_find_from, push_all, push_str, same, slice, spec_find, spec_strip_prefix,
    spec_strip_suffix, spec_trim, spec_trim_start, strip_prefix, strip_suffix, tail, trim,
    trim_start, views, occurs_at,
};

verus! {

// ---------------------------------------------------------------------------
// String literals
// ---------------------------------------------------------------------------

/// What the escape `\c` stands for; an unknown escape stands for itself.
pub open spec fn unescape(c: char) -> Seq<char> {
    if c == 'n' {
        seq!['\n']
    } else if c == 't' {
        seq!['\t']
    } else if c == '"' {
        seq!['"']
    } else if c == '\\' {
        seq!['\\']
    } else {
        seq!['\\', c]
    }
}

/// Reading a string literal's body from position `i` of `s`, with `out` read
/// so far: the value and the text after the closing quote.
pub open spec fn literal_from(s: Seq<char>, i: int, out: Seq<char>, line: usize) -> Result<
    (Seq<char>, Seq<char>),
    DiagnosticModel,
>
    decreases s.len() - i,
{
    if i < 0 || i >= s.len() {
        Err(fault(line, "unterminated string literal"@))
    } else if s[i] == '"' {
        Ok((out, s.subrange(i + 1, s.len() as int)))
    } else if s[i] == '\\' {
        if i + 1 >= s.len() {
            Err(fault(line, "unterminated escape sequence"@))
        } else {
            literal_from(s, i + 2, out + unescape(s[i + 1]), line)
        }
    } else {
        literal_from(s, i + 1, out.push(s[i]), line)
    }
}

/// A double-quoted string literal at the start of `input` (after blanks):
/// its value and the rest of the text.
pub open spec fn spec_parse_string_literal(input: Seq<char>, line: usize) -> Result<
    (Seq<char>, Seq<char>),
    DiagnosticModel,
> {
    let t = spec_trim_start(input);
    if t.len() > 0 && t[0] == '"' {
        literal_from(t, 1, seq![], line)
    } else {
        Err(fault(line, "expected string literal"@))
    }
}

pub proof fn lemma_literal_from(s: Seq<char>, i: int, out: Seq<char>, line: usize)
    requires
        0 <= i,
    ensures
        literal_from(s, i, out, line) matches Ok((v, t)) ==> t.len() < s.len() - i,
    decreases s.len() - i,
{
    if i < s.len() && s[i] != '"' {
        if s[i] == '\\' {
            if i + 1 < s.len() {
                lemma_literal_from(s, i + 2, out + unescape(s[i + 1]), line);
            }
        } else {
            lemma_literal_from(s, i + 1, out.push(s[i]), line);
        }
    }
}

pub fn parse_string_literal(input: &Vec<char>, line: usize) -> (r: Result<
    (Vec<char>, Vec<char>),
    Diagnostic,
>)
    ensures
        outcome(r, |p: (Vec<char>, Vec<char>)| (p.0@, p.1@)) == spec_parse_string_literal(
            input@,
            line,
        ),
{
    let t = trim_start(input);
    if t.len() == 0 || t[0] != '"' {
        return Err(Diagnostic::at(line, "expected string literal"));
    }
    let mut out: Vec<char> = Vec::new();
    let mut i: usize = 1;
    while i < t.len()
        invariant
            1 <= i <= t.len(),
            literal_from(t@, i as int, out@, line) == spec_parse_string_literal(input@, line),
        decreases t.len() - i,
    {
        let c = t[i];
        if c == '"' {
            return Ok((out, tail(&t, i + 1)));
        }
        if c == '\\' {
            if i + 1 >= t.len() {
                return Err(Diagnostic::at(line, "unterminated escape sequence"));
            }
            let e = t[i + 1];
            let ghost before = out@;
            if e == 'n' {
                out.push('\n');
            } else if e == 't' {
                out.push('\t');
            } else if e == '"' {
                out.push('"');
            } else if e == '\\' {
                out.push('\\');
            } else {
                out.push('\\');
                out.push(e);
            }
            assert(out@ =~= before + unescape(e));
            i += 2;
        } else {
            out.push(c);
            i += 1;
        }
    }
    Err(Diagnostic::at(line, "unterminated string literal"))
}

/// A string literal with nothing but blanks after it.
pub open spec fn spec_parse_required_string(input: Seq<char>, line: usize) -> Result<
    Seq<char>,
    DiagnosticModel,
> {
    match spec_parse_string_literal(input, line) {
        Err(e) => Err(e),
        Ok((v, t)) => if spec_trim(t).len() == 0 {
            Ok(v)
        } else {
            Err(fault(line, "unexpected text after string literal"@))
        },
    }
}

pub fn parse_required_string(input: &Vec<char>, line: usize) -> (r: Result<Vec<char>, Diagnostic>)
    ensures
        outcome(r, |v: Vec<char>| v@) == spec_parse_required_string(input@, line),
{
    let (value, rest) = parse_string_literal(input, line)?;
    let t = trim(&rest);
    if t.len() == 0 {
        Ok(value)
    } else {
        Err(Diagnostic::at(line, "unexpected text after string literal"))
    }
}

// ---------------------------------------------------------------------------
// Statement headers
// ---------------------------------------------------------------------------

/// The message "expected `KEYWORD`".
pub open spec fn expected_keyword(keyword: Seq<char>) -> Seq<char> {
    "expected `"@ + keyword + "`"@
}

/// The message "expected `KEYWORD "..." do`".
pub open spec fn expected_titled(keyword: Seq<char>) -> Seq<char> {
    "expected `"@ + keyword + " \"...\" do`"@
}

/// The message "expected `KEYWORD ... do`".
pub open spec fn expected_header(keyword: Seq<char>) -> Seq<char> {
    "expected `"@ + keyword + " ... do`"@
}

/// A message made of `before`, the text `middle` and `after`.
pub fn message(before: &str, middle: &Vec<char>, after: &str) -> (m: Vec<char>)
    ensures
        m@ == before@ + middle@ + after@,
{
    let mut m = chars_of(before);
    push_all(&mut m, middle);
    push_str(&mut m, after);
    m
}

/// `KEYWORD "Title" do`: the title.
pub open spec fn spec_parse_titled_do(s: Seq<char>, keyword: Seq<char>, number: usize) -> Result<
    Seq<char>,
    DiagnosticModel,
> {
    match spec_strip_prefix(s, keyword) {
        None => Err(fault(number, expected_keyword(keyword))),
        Some(rest) => match spec_parse_string_literal(spec_trim(rest), number) {
            Err(e) => Err(e),
            Ok((title, t)) => if spec_trim(t) == "do"@ {
                Ok(title)
            } else {
                Err(fault(number, expected_titled(keyword)))
            },
        },
    }
}

pub fn parse_titled_do(s: &Vec<char>, keyword: &str, number: usize) -> (r: Result<
    Vec<char>,
    Diagnostic,
>)
    ensures
        outcome(r, |v: Vec<char>| v@) == spec_parse_titled_do(s@, keyword@, number),
{
    let rest = match strip_prefix(s, keyword) {
        Some(rest) => rest,
        None => {
            let k = chars_of(keyword);
            let m = message("expected `", &k, "`");
            return Err(Diagnostic::new(number, &m));
        },
    };
    let rest = trim(&rest);
    let (title, t) = parse_string_literal(&rest, number)?;
    let t = trim(&t);
    if is(&t, "do") {
        Ok(title)
    } else {
        let k = chars_of(keyword);
        let m = message("expected `", &k, " \"...\" do`");
        Err(Diagnostic::new(number, &m))
    }
}

/// `KEYWORD HEADER do`: the header, trimmed (empty when there is none).
pub open spec fn spec_strip_keyword_do(s: Seq<char>, keyword: Seq<char>, number: usize) -> Result<
    Seq<char>,
    DiagnosticModel,
> {
    match spec_strip_prefix(s, keyword) {
        None => Err(fault(number, expected_keyword(keyword))),
        Some(r) => {
            let rest = spec_trim(r);
            if rest == "do"@ {
                Ok(seq![])
            } else {
                match spec_strip_suffix(rest, " do"@) {
                    Some(header) => Ok(spec_trim(header)),
                    None => Err(fault(number, expected_header(keyword))),
                }
            }
        },
    }
}

pub fn strip_keyword_do(s: &Vec<char>, keyword: &str, number: usize) -> (r: Result<
    Vec<char>,
    Diagnostic,
>)
    ensures
        outcome(r, |v: Vec<char>| v@) == spec_strip_keyword_do(s@, keyword@, number),
{
    let rest = match strip_prefix(s, keyword) {
        Some(rest) => rest,
        None => {
            let k = chars_of(keyword);
            let m = message("expected `", &k, "`");
            return Err(Diagnostic::new(number, &m));
        },
    };
    let rest = trim(&rest);
    if is(&rest, "do") {
        Ok(Vec::new())
    } else {
        match strip_suffix(&rest, " do") {
            Some(header) => Ok(trim(&header)),
            None => {
                let k = chars_of(keyword);
                let m = message("expected `", &k, " ... do`");
                Err(Diagnostic::new(number, &m))
            },
        }
    }
}

// ---------------------------------------------------------------------------
// Features, symbols and options
// ---------------------------------------------------------------------------

pub open spec fn spec_parse_feature(s: Seq<char>, line: usize) -> Result<
    Feature,
    DiagnosticModel,
> {
    if s == "bibliography"@ {
        Ok(Feature::Bibliography)
    } else if s == "graphics"@ {
        Ok(Feature::Graphics)
    } else if s == "math"@ {
        Ok(Feature::Math)
    } else if s == "theorem"@ {
        Ok(Feature::Theorem)
    } else {
        Err(
            fault(
                line,
                "unknown feature `"@ + s
                    + "`; expected math, theorem, graphics, or bibliography"@,
            ),
        )
    }
}

pub fn parse_feature(s: &Vec<char>, line: usize) -> (r: Result<Feature, Diagnostic>)
    ensures
        outcome(r, |f: Feature| f) == spec_parse_feature(s@, line),
{
    if is(s, "bibliography") {
        Ok(Feature::Bibliography)
    } else if is(s, "graphics") {
        Ok(Feature::Graphics)
    } else if is(s, "math") {
        Ok(Feature::Math)
    } else if is(s, "theorem") {
        Ok(Feature::Theorem)
    } else {
        let m = message(
            "unknown feature `",
            s,
            "`; expected math, theorem, graphics, or bibliography",
        );
        Err(Diagnostic::new(line, &m))
    }
}

/// A symbol `:name`, or a string literal.
pub open spec fn spec_parse_symbol(input: Seq<char>, line: usize) -> Result<
    Seq<char>,
    DiagnosticModel,
> {
    let s = spec_trim(input);
    if s.len() > 0 && s[0] == ':' && spec_is_identifier(s.subrange(1, s.len() as int)) {
        Ok(s.subrange(1, s.len() as int))
    } else if s.len() > 0 && s[0] == '"' {
        spec_parse_required_string(s, line)
    } else {
        Err(fault(line, "expected symbol like `:name`"@))
    }
}

pub fn parse_symbol(input: &Vec<char>, line: usize) -> (r: Result<Vec<char>, Diagnostic>)
    ensures
        outcome(r, |v: Vec<char>| v@) == spec_parse_symbol(input@, line),
{
    let s = trim(input);
    if s.len() > 0 && s[0] == ':' {
        let rest = tail(&s, 1);
        if is_identifier(&rest) {
            return Ok(rest);
        }
    }
    if s.len() > 0 && s[0] == '"' {
        return parse_required_string(&s, line);
    }
    Err(Diagnostic::at(line, "expected symbol like `:name`"))
}

/// The value of the option `key: value` in a header: the text after the
/// first `key:` up to the next top-level comma, trimmed.
pub open spec fn spec_option_value(input: Seq<char>, key: Seq<char>) -> Option<Seq<char>> {
    let needle = key + ":"@;
    match spec_find(input, needle) {
        None => None,
        Some(k) => {
            let rest = input.subrange(k + needle.len(), input.len() as int);
            let end = match spec_split_index(rest, ',') {
                Some(e) => e,
                None => rest.len() as int,
            };
            Some(spec_trim(rest.subrange(0, end)))
        },
    }
}

pub fn option_value(input: &Vec<char>, key: &str) -> (r: Option<Vec<char>>)
    ensures
        r matches Some(v) ==> spec_option_value(input@, key@) == Some(v@),
        r is None ==> spec_option_value(input@, key@) is None,
{
    let mut needle = chars_of(key);
    push_str(&mut needle, ":");
    let k = match find(input, &needle) {
        Some(k) => k,
        None => {
            return None;
        },
    };
    proof {
        lemma_find_from(input@, needle@, 0);
        assert(spec_find_from(input@, needle@, 0) == Some(k as int));
        assert(occurs_at(input@, needle@, k as int));
    }
    let n = needle.len();
    assert(k + n <= input.len());
    let rest = tail(input, k + n);
    let end = match find_top_level_comma(&rest) {
        Some(e) => e,
        None => rest.len(),
    };
    let value = slice(&rest, 0, end);
    Some(trim(&value))
}

pub open spec fn spec_parse_symbol_option(input: Seq<char>, key: Seq<char>, line: usize) -> Result<
    Option<Seq<char>>,
    DiagnosticModel,
> {
    match spec_option_value(input, key) {
        None => Ok(None),
        Some(v) => match spec_parse_symbol(spec_trim(v), line) {
            Ok(s) => Ok(Some(s)),
            Err(e) => Err(e),
        },
    }
}

pub open spec fn opt_view(o: Option<Vec<char>>) -> Option<Seq<char>> {
    match o {
        Some(v) => Some(v@),
        None => None,
    }
}

pub fn parse_symbol_option(input: &Vec<char>, key: &str, line: usize) -> (r: Result<
    Option<Vec<char>>,
    Diagnostic,
>)
    ensures
        outcome(r, |o: Option<Vec<char>>| opt_view(o)) == spec_parse_symbol_option(
            input@,
            key@,
            line,
        ),
{
    let value = match option_value(input, key) {
        Some(v) => v,
        None => {
            return Ok(None);
        },
    };
    let value = trim(&value);
    let s = parse_symbol(&value, line)?;
    Ok(Some(s))
}

pub open spec fn spec_parse_string_option(input: Seq<char>, key: Seq<char>, line: usize) -> Result<
    Option<Seq<char>>,
    DiagnosticModel,
> {
    match spec_option_value(input, key) {
        None => Ok(None),
        Some(v) => match spec_parse_string_literal(spec_trim(v), line) {
            Ok((s, _)) => Ok(Some(s)),
            Err(e) => Err(e),
        },
    }
}

pub fn parse_string_option(input: &Vec<char>, key: &str, line: usize) -> (r: Result<
    Option<Vec<char>>,
    Diagnostic,
>)
    ensures
        outcome(r, |o: Option<Vec<char>>| opt_view(o)) == spec_parse_string_option(
            input@,
            key@,
            line,
        ),
{
    let value = match option_value(input, key) {
        Some(v) => v,
        None => {
            return Ok(None);
        },
    };
    let value = trim(&value);
    let (parsed, _) = parse_string_literal(&value, line)?;
    Ok(Some(parsed))
}

/// A figure width: `N.page` is that fraction of the text width.
pub open spec fn spec_parse_width_option(input: Seq<char>, key: Seq<char>) -> Option<Seq<char>> {
    match spec_option_value(input, key) {
        None => None,
        Some(v) => {
            let value = spec_trim(v);
            match spec_strip_suffix(value, ".page"@) {
                Some(number) => Some(spec_trim(number) + "\\textwidth"@),
                None => Some(value),
            }
        },
    }
}

pub fn parse_width_option(input: &Vec<char>, key: &str) -> (r: Option<Vec<char>>)
    ensures
        opt_view(r) == spec_parse_width_option(input@, key@),
{
    let value = match option_value(input, key) {
        Some(v) => v,
        None => {
            return None;
        },
    };
    let value = trim(&value);
    match strip_suffix(&value, ".page") {
        Some(number) => {
            let mut w = trim(&number);
            push_str(&mut w, "\\textwidth");
            Some(w)
        },
        None => Some(value),
    }
}

// ---------------------------------------------------------------------------
// Table columns
// ---------------------------------------------------------------------------

pub open spec fn spec_parse_column(s: Seq<char>, line: usize) -> Result<Align, DiagnosticModel> {
    if s == ":left"@ || s == "left"@ {
        Ok(Align::Left)
    } else if s == ":center"@ || s == "center"@ {
        Ok(Align::Center)
    } else if s == ":right"@ || s == "right"@ {
        Ok(Align::Right)
    } else {
        Err(fault(line, "unknown column alignment `"@ + s + "`"@))
    }
}

/// The alignments of the pieces from `k` on, or the first error among them.
pub open spec fn columns_from(pieces: Seq<Seq<char>>, k: int, line: usize) -> Result<
    Seq<Align>,
    DiagnosticModel,
>
    decreases pieces.len() - k,
{
    if k < 0 || k >= pieces.len() {
        Ok(seq![])
    } else {
        match spec_parse_column(spec_trim(pieces[k]), line) {
            Err(e) => Err(e),
            Ok(a) => match columns_from(pieces, k + 1, line) {
                Err(e) => Err(e),
                Ok(rest) => Ok(seq![a] + rest),
            },
        }
    }
}

pub open spec fn spec_parse_columns(input: Seq<char>, line: usize) -> Result<
    Seq<Align>,
    DiagnosticModel,
> {
    columns_from(spec_split_commas(input), 0, line)
}

pub fn parse_column(s: &Vec<char>, line: usize) -> (r: Result<Align, Diagnostic>)
    ensures
        outcome(r, |a: Align| a) == spec_parse_column(s@, line),
{
    if is(s, ":left") || is(s, "left") {
        Ok(Align::Left)
    } else if is(s, ":center") || is(s, "center") {
        Ok(Align::Center)
    } else if is(s, ":right") || is(s, "right") {
        Ok(Align::Right)
    } else {
        let m = message("unknown column alignment `", s, "`");
        Err(Diagnostic::new(line, &m))
    }
}

pub fn parse_columns(input: &Vec<char>, line: usize) -> (r: Result<Vec<Align>, Diagnostic>)
    ensures
        outcome(r, |v: Vec<Align>| v@) == spec_parse_columns(input@, line),
{
    let pieces = split_top_level_commas(input);
    let ghost ps = views(pieces@);
    let mut out: Vec<Align> = Vec::new();
    let mut k: usize = 0;
    while k < pieces.len()
        invariant
            k <= pieces.len(),
            ps == views(pieces@),
            ps == spec_split_commas(input@),
            columns_from(ps, 0, line) == match columns_from(ps, k as int, line) {
                Err(e) => Err(e),
                Ok(rest) => Ok(out@ + rest),
            },
        decreases pieces.len() - k,
    {
        let piece = trim(&pieces[k]);
        assert(piece@ == spec_trim(ps[k as int]));
        let a = parse_column(&piece, line)?;
        let ghost before = out@;
        out.push(a);
        proof {
            match columns_from(ps, k + 1, line) {
                Err(e) => {},
                Ok(rest) => {
                    assert(out@ + rest =~= before + (seq![a] + rest));
                },
            }
        }
        k += 1;
    }
    assert(out@ + Seq::<Align>::empty() =~= out@);
    Ok(out)
}

// ---------------------------------------------------------------------------
// Macro definitions
// ---------------------------------------------------------------------------

/// Checking the parameters from `k` on, given those accepted so far.
pub open spec fn params_from(
    pieces: Seq<Seq<char>>,
    k: int,
    acc: Seq<Seq<char>>,
    line: usize,
) -> Result<Seq<Seq<char>>, DiagnosticModel>
    decreases pieces.len() - k,
{
    if k < 0 || k >= pieces.len() {
        Ok(acc)
    } else {
        let p = spec_trim(pieces[k]);
        if p.len() == 0 {
            params_from(pieces, k + 1, acc, line)
        } else if !spec_is_identifier(p) {
            Err(fault(line, "invalid macro parameter `"@ + p + "`"@))
        } else if acc.contains(p) {
            Err(fault(line, "duplicate macro parameter `"@ + p + "`"@))
        } else {
            params_from(pieces, k + 1, acc.push(p), line)
        }
    }
}

/// The parameter list of a definition: identifiers, each at most once.
pub open spec fn spec_parse_definition_params(input: Seq<char>, line: usize) -> Result<
    Seq<Seq<char>>,
    DiagnosticModel,
> {
    params_from(spec_split_commas(input), 0, seq![], line)
}

pub fn contains_text(v: &Vec<Vec<char>>, s: &Vec<char>) -> (b: bool)
    ensures
        b == views(v@).contains(s@),
{
    let mut i: usize = 0;
    while i < v.len()
        invariant
            i <= v.len(),
            forall|j: int| 0 <= j < i ==> v@[j]@ != s@,
        decreases v.len() - i,
    {
        if same(&v[i], s) {
            assert(views(v@)[i as int] == s@);
            return true;
        }
        i += 1;
    }
    proof {
        if views(v@).contains(s@) {
            let j = choose|j: int| 0 <= j < views(v@).len() && views(v@)[j] == s@;
            assert(v@[j]@ == s@);
        }
    }
    false
}

pub fn parse_definition_params(input: &Vec<char>, line: usize) -> (r: Result<
    Vec<Vec<char>>,
    Diagnostic,
>)
    ensures
        outcome(r, |v: Vec<Vec<char>>| views(v@)) == spec_parse_definition_params(input@, line),
{
    let pieces = split_top_level_commas(input);
    let ghost ps = views(pieces@);
    let mut params: Vec<Vec<char>> = Vec::new();
    assert(views(params@) =~= Seq::<Seq<char>>::empty());
    let mut k: usize = 0;
    while k < pieces.len()
        invariant
            k <= pieces.len(),
            ps == views(pieces@),
            ps == spec_split_commas(input@),
            params_from(ps, k as int, views(params@), line) == spec_parse_definition_params(
                input@,
                line,
            ),
        decreases pieces.len() - k,
    {
        let p = trim(&pieces[k]);
        assert(p@ == spec_trim(ps[k as int]));
        if p.len() != 0 {
            if !is_identifier(&p) {
                let m = message("invalid macro parameter `", &p, "`");
                return Err(Diagnostic::new(line, &m));
            }
            if contains_text(&params, &p) {
                let m = message("duplicate macro parameter `", &p, "`");
                return Err(Diagnostic::new(line, &m));
            }
            let ghost before = views(params@);
            params.push(p);
            assert(views(params@) =~= before.push(p@));
        }
        k += 1;
    }
    Ok(params)
}

/// `NAME(PARAMS) "LATEX"`, the text after `define`.
pub open spec fn spec_parse_definition(input: Seq<char>, line: usize) -> Result<
    DefinitionModel,
    DiagnosticModel,
> {
    match spec_next_identifier(input) {
        None => Err(fault(line, "expected macro name after `define`"@)),
        Some((a, b)) => if a != 0 {
            Err(fault(line, "expected macro name after `define`"@))
        } else if !spec_is_command_name(input.subrange(a, b)) {
            Err(fault(line, "macro names must contain only ASCII letters"@))
        } else {
            let rest = spec_trim_start(input.subrange(b, input.len() as int));
            if !(rest.len() > 0 && rest[0] == '(') {
                Err(fault(line, "expected macro parameters in `(...)`"@))
            } else {
                let after = rest.subrange(1, rest.len() as int);
                match spec_matching_close(after, '(', ')') {
                    None => Err(fault(line, "unclosed macro parameter list"@)),
                    Some(c) => match spec_parse_definition_params(after.subrange(0, c), line) {
                        Err(e) => Err(e),
                        Ok(params) => match spec_parse_required_string(
                            spec_trim(after.subrange(c + 1, after.len() as int)),
                            line,
                        ) {
                            Err(e) => Err(e),
                            Ok(latex) => Ok(
                                DefinitionModel { name: input.subrange(a, b), params, latex },
                            ),
                        },
                    },
                }
            }
        },
    }
}

pub fn parse_definition(input: &Vec<char>, line: usize) -> (r: Result<Definition, Diagnostic>)
    ensures
        outcome(r, |d: Definition| d.model()) == spec_parse_definition(input@, line),
{
    let (a, b) = match next_identifier(input) {
        Some(bounds) => bounds,
        None => {
            return Err(Diagnostic::at(line, "expected macro name after `define`"));
        },
    };
    if a != 0 {
        return Err(Diagnostic::at(line, "expected macro name after `define`"));
    }
    let name = slice(input, a, b);
    if !is_latex_command_name(&name) {
        return Err(Diagnostic::at(line, "macro names must contain only ASCII letters"));
    }
    let after_name = tail(input, b);
    let rest = trim_start(&after_name);
    if !(rest.len() > 0 && rest[0] == '(') {
        return Err(Diagnostic::at(line, "expected macro parameters in `(...)`"));
    }
    let after = tail(&rest, 1);
    let close = match matching_close(&after, '(', ')') {
        Some(c) => c,
        None => {
            return Err(Diagnostic::at(line, "unclosed macro parameter list"));
        },
    };
    let inside = slice(&after, 0, close);
    let params = parse_definition_params(&inside, line)?;
    let latex_text = tail(&after, close + 1);
    let latex_text = trim(&latex_text);
    let latex = parse_required_string(&latex_text, line)?;
    let d = Definition { name, params, latex };
    assert(d.model().params =~= views(d.params@));
    Ok(d)
}

} // verus!
