//! Where diagnostics point: every error names a line of the source.
//!
//! The readers of a single line report their errors on the line they were
//! given; the readers of blocks report them on a line that they read or on
//! the line that opened the block.
use vstd::prelude::*;

use crate::diagnostic::DiagnosticModel;
use crate::inline::{
    inline_items_from, lemma_call_body, spec_call_body, spec_inline_atom, spec_inline_leaf,
    spec_inline_list, spec_parse_vitamins_snippet, spec_string_chain,
};
use crate::lex::{
    columns_from, literal_from, params_from, spec_parse_columns,
    spec_parse_definition, spec_parse_required_string,
    spec_parse_string_literal, spec_parse_string_option, spec_parse_symbol,
    spec_parse_symbol_option, spec_parse_titled_do, unescape,
};
use crate::parser::{
    cells_from, compare_from, document_from, document_step, figure_from, lemma_next_significant,
    list_from, next_significant, number, raw_from, spec_block, spec_blocks, spec_equation,
    spec_figure, spec_metadata, spec_parse, spec_row, table_from, titled,
};
use crate::scan::{lemma_split_commas, spec_split_commas};
use crate::syntax::{BlockModel, DocumentModel, InlineModel};
use crate::text::{lemma_lines_from_len, lemma_trim_len, spec_lines, spec_strip_prefix, spec_trim};

verus! {

/// An error of `r`, if it is one, is reported on `line`.
pub open spec fn reported_at<T>(r: Result<T, DiagnosticModel>, line: usize) -> bool {
    r matches Err(e) ==> e.line == line
}

/// An error of `r`, if it is one, is reported on one of the lines `1..=n`.
pub open spec fn reported_within<T>(r: Result<T, DiagnosticModel>, n: int) -> bool {
    r matches Err(e) ==> 1 <= e.line <= n
}

/// An error of the reader of lines `r`, if it is one, is reported on `line`.
pub open spec fn stopped_at<T>(r: Result<T, (DiagnosticModel, int)>, line: usize) -> bool {
    r matches Err((e, _)) ==> e.line == line
}

/// An error of the reader of lines `r`, if it is one, is reported on one of
/// the lines `1..=n`.
pub open spec fn stopped_within<T>(r: Result<T, (DiagnosticModel, int)>, n: int) -> bool {
    r matches Err((e, _)) ==> 1 <= e.line <= n
}

// ---------------------------------------------------------------------------
// Readers of one line
// ---------------------------------------------------------------------------

pub proof fn lemma_literal_at(s: Seq<char>, i: int, out: Seq<char>, line: usize)
    ensures
        reported_at(literal_from(s, i, out, line), line),
    decreases s.len() - i,
{
    if 0 <= i < s.len() && s[i] != '"' {
        if s[i] == '\\' {
            if i + 1 < s.len() {
                lemma_literal_at(s, i + 2, out + unescape(s[i + 1]), line);
            }
        } else {
            lemma_literal_at(s, i + 1, out.push(s[i]), line);
        }
    }
}

pub proof fn lemma_string_literal_at(input: Seq<char>, line: usize)
    ensures
        reported_at(spec_parse_string_literal(input, line), line),
        reported_at(spec_parse_required_string(input, line), line),
{
    lemma_literal_at(crate::text::spec_trim_start(input), 1, seq![], line);
}

pub proof fn lemma_titled_do_at(s: Seq<char>, keyword: Seq<char>, line: usize)
    ensures
        reported_at(spec_parse_titled_do(s, keyword, line), line),
{
    if let Some(rest) = spec_strip_prefix(s, keyword) {
        lemma_string_literal_at(spec_trim(rest), line);
    }
}

pub proof fn lemma_symbol_at(input: Seq<char>, key: Seq<char>, line: usize)
    ensures
        reported_at(spec_parse_symbol(input, line), line),
        reported_at(spec_parse_symbol_option(input, key, line), line),
        reported_at(spec_parse_string_option(input, key, line), line),
{
    lemma_string_literal_at(spec_trim(input), line);
    if let Some(v) = crate::lex::spec_option_value(input, key) {
        lemma_string_literal_at(spec_trim(spec_trim(v)), line);
        lemma_string_literal_at(spec_trim(v), line);
    }
}

pub proof fn lemma_columns_at(pieces: Seq<Seq<char>>, k: int, line: usize)
    ensures
        reported_at(columns_from(pieces, k, line), line),
    decreases pieces.len() - k,
{
    if 0 <= k < pieces.len() {
        lemma_columns_at(pieces, k + 1, line);
    }
}

pub proof fn lemma_params_at(pieces: Seq<Seq<char>>, k: int, acc: Seq<Seq<char>>, line: usize)
    ensures
        reported_at(params_from(pieces, k, acc, line), line),
    decreases pieces.len() - k,
{
    if 0 <= k < pieces.len() {
        let p = spec_trim(pieces[k]);
        lemma_params_at(pieces, k + 1, acc, line);
        lemma_params_at(pieces, k + 1, acc.push(p), line);
    }
}

pub proof fn lemma_definition_at(input: Seq<char>, line: usize)
    ensures
        reported_at(spec_parse_definition(input, line), line),
        reported_at(spec_parse_columns(input, line), line),
{
    lemma_columns_at(spec_split_commas(input), 0, line);
    if let Some((a, b)) = crate::scan::spec_next_identifier(input) {
        let rest = crate::text::spec_trim_start(input.subrange(b, input.len() as int));
        if rest.len() > 0 && rest[0] == '(' {
            let after = rest.subrange(1, rest.len() as int);
            if let Some(c) = crate::scan::spec_matching_close(after, '(', ')') {
                lemma_params_at(spec_split_commas(after.subrange(0, c)), 0, seq![], line);
                lemma_string_literal_at(spec_trim(after.subrange(c + 1, after.len() as int)), line);
            }
        }
    }
}

// ---------------------------------------------------------------------------
// Inline content
// ---------------------------------------------------------------------------

pub proof fn lemma_chain_at(inline: InlineModel, rest: Seq<char>, line: usize)
    ensures
        reported_at(spec_string_chain(inline, rest, line), line),
    decreases rest.len(),
{
    if rest.len() > 0 && rest[0] == '.' {
        let chain = rest.subrange(1, rest.len() as int);
        if let Some(next) = spec_strip_prefix(chain, "bold"@) {
            lemma_trim_len(next);
            lemma_chain_at(InlineModel::Bold(seq![inline]), spec_trim(next), line);
        } else if let Some(next) = spec_strip_prefix(chain, "italic"@) {
            lemma_trim_len(next);
            lemma_chain_at(InlineModel::Italic(seq![inline]), spec_trim(next), line);
        } else if let Some(next) = spec_strip_prefix(chain, "small_caps"@) {
            lemma_trim_len(next);
            lemma_chain_at(InlineModel::SmallCaps(seq![inline]), spec_trim(next), line);
        }
    }
}

pub proof fn lemma_leaf_at(s: Seq<char>, line: usize)
    ensures
        reported_at(spec_inline_leaf(s, line), line),
{
    if let Some(body) = spec_call_body(s, "cite"@) {
        lemma_symbol_at(spec_trim(body), seq![], line);
    } else if let Some(body) = spec_call_body(s, "ref"@) {
        lemma_symbol_at(spec_trim(body), seq![], line);
    } else if let Some(body) = spec_call_body(s, "latex"@) {
        lemma_string_literal_at(spec_trim(body), line);
    } else if let Some(rest) = spec_strip_prefix(s, "latex "@) {
        lemma_string_literal_at(spec_trim(rest), line);
    }
}

pub proof fn lemma_atom_at(s: Seq<char>, line: usize)
    ensures
        reported_at(spec_inline_atom(s, line), line),
    decreases s.len(), 0int, 0int,
{
    if s.len() > 0 && s[0] == '"' {
        lemma_string_literal_at(s, line);
        if let Ok((text, t)) = spec_parse_string_literal(s, line) {
            lemma_chain_at(InlineModel::Text(text), spec_trim(t), line);
        }
    } else {
        lemma_call_body(s, "bold"@);
        lemma_call_body(s, "italic"@);
        lemma_call_body(s, "small_caps"@);
        reveal_strlit("bold ");
        reveal_strlit("italic ");
        reveal_strlit("small_caps ");
        if let Some(body) = spec_call_body(s, "bold"@) {
            lemma_list_at(body, line);
        } else if let Some(rest) = spec_strip_prefix(s, "bold "@) {
            lemma_trim_len(rest);
            lemma_list_at(spec_trim(rest), line);
        } else if let Some(body) = spec_call_body(s, "italic"@) {
            lemma_list_at(body, line);
        } else if let Some(rest) = spec_strip_prefix(s, "italic "@) {
            lemma_trim_len(rest);
            lemma_list_at(spec_trim(rest), line);
        } else if let Some(body) = spec_call_body(s, "small_caps"@) {
            lemma_list_at(body, line);
        } else if let Some(rest) = spec_strip_prefix(s, "small_caps "@) {
            lemma_trim_len(rest);
            lemma_list_at(spec_trim(rest), line);
        } else {
            lemma_leaf_at(s, line);
        }
    }
}

pub proof fn lemma_list_at(s: Seq<char>, line: usize)
    ensures
        reported_at(spec_inline_list(s, line), line),
    decreases s.len(), 2int, 0int,
{
    lemma_items_at(s, 0, line);
}

pub proof fn lemma_items_at(s: Seq<char>, k: int, line: usize)
    ensures
        reported_at(inline_items_from(s, k, line), line),
    decreases s.len(), 1int, spec_split_commas(s).len() - k,
{
    let pieces = spec_split_commas(s);
    if 0 <= k < pieces.len() {
        lemma_split_commas(s);
        lemma_trim_len(pieces[k]);
        let piece = spec_trim(pieces[k]);
        lemma_items_at(s, k + 1, line);
        if piece.len() > 0 {
            lemma_atom_at(piece, line);
        }
    }
}

pub proof fn lemma_snippet_at(s: Seq<char>, line: usize)
    ensures
        reported_at(spec_parse_vitamins_snippet(s, line), line),
{
    lemma_list_at(s, line);
    if let Some(rest) = spec_strip_prefix(s, "bold "@) {
        lemma_list_at(spec_trim(rest), line);
    }
    if let Some(rest) = spec_strip_prefix(s, "italic "@) {
        lemma_list_at(spec_trim(rest), line);
    }
    if let Some(rest) = spec_strip_prefix(s, "small_caps "@) {
        lemma_list_at(spec_trim(rest), line);
    }
}

pub proof fn lemma_cells_at(pieces: Seq<Seq<char>>, k: int, line: usize)
    ensures
        reported_at(cells_from(pieces, k, line), line),
    decreases pieces.len() - k,
{
    if 0 <= k < pieces.len() {
        lemma_list_at(spec_trim(pieces[k]), line);
        lemma_cells_at(pieces, k + 1, line);
    }
}

pub proof fn lemma_row_at(s: Seq<char>, line: usize)
    ensures
        reported_at(spec_row(s, line), line),
{
    lemma_cells_at(spec_split_commas(s), 0, line);
}

// ---------------------------------------------------------------------------
// Readers of blocks
// ---------------------------------------------------------------------------

/// The lines can all be numbered.
pub open spec fn numbered(ls: Seq<Seq<char>>) -> bool {
    ls.len() <= usize::MAX
}

pub proof fn lemma_raw_at(
    ls: Seq<Seq<char>>,
    p: int,
    opener: usize,
    depth: nat,
    acc: Seq<Seq<char>>,
)
    ensures
        stopped_at(raw_from(ls, p, opener, depth, acc), opener),
    decreases ls.len() - p,
{
    if 0 <= p < ls.len() {
        let t = spec_trim(ls[p]);
        if !(t == "end"@ && depth == 0) {
            if crate::text::has_prefix(t, "end"@) && depth > 0 {
                lemma_raw_at(ls, p + 1, opener, (depth - 1) as nat, acc.push(t));
            } else {
                let d = if crate::scan::spec_has_do_word(t) {
                    depth + 1
                } else {
                    depth
                };
                let kept = if t.len() == 0 {
                    acc
                } else {
                    acc.push(t)
                };
                lemma_raw_at(ls, p + 1, opener, d, kept);
            }
        }
    }
}

pub proof fn lemma_list_within(
    ls: Seq<Seq<char>>,
    p: int,
    numbered_list: bool,
    opener: usize,
    acc: Seq<Seq<InlineModel>>,
)
    requires
        0 <= p,
        1 <= opener <= ls.len(),
        numbered(ls),
    ensures
        stopped_within(list_from(ls, p, numbered_list, opener, acc), ls.len() as int),
    decreases ls.len() - p,
{
    lemma_next_significant(ls, p);
    if let Some(i) = next_significant(ls, p) {
        let t = spec_trim(ls[i]);
        if let Some(rest) = spec_strip_prefix(t, "item "@) {
            lemma_list_at(rest, number(i));
            if let Ok(item) = spec_inline_list(rest, number(i)) {
                lemma_list_within(ls, i + 1, numbered_list, opener, acc.push(item));
            }
        }
    }
}

pub proof fn lemma_equation_within(t: Seq<char>, ls: Seq<Seq<char>>, p: int, n: usize)
    requires
        1 <= n <= ls.len(),
    ensures
        stopped_within(spec_equation(t, ls, p, n), ls.len() as int),
{
    if let Ok(header) = crate::lex::spec_strip_keyword_do(t, "equation"@, n) {
        lemma_symbol_at(header, "label"@, n);
    }
    lemma_raw_at(ls, p, n, 0, seq![]);
}

pub proof fn lemma_figure_within(
    ls: Seq<Seq<char>>,
    p: int,
    n: usize,
    path: Seq<char>,
    width: Option<Seq<char>>,
    caption: Option<Seq<char>>,
    label: Option<Seq<char>>,
)
    requires
        0 <= p,
        1 <= n <= ls.len(),
        numbered(ls),
    ensures
        stopped_within(figure_from(ls, p, n, path, width, caption, label), ls.len() as int),
    decreases ls.len() - p,
{
    lemma_next_significant(ls, p);
    if let Some(i) = next_significant(ls, p) {
        let body = spec_trim(ls[i]);
        if let Some(rest) = spec_strip_prefix(body, "caption "@) {
            lemma_string_literal_at(spec_trim(rest), number(i));
            if let Ok(c) = spec_parse_required_string(spec_trim(rest), number(i)) {
                lemma_figure_within(ls, i + 1, n, path, width, Some(c), label);
            }
        } else if let Some(rest) = spec_strip_prefix(body, "label "@) {
            lemma_symbol_at(spec_trim(rest), seq![], number(i));
            if let Ok(l) = spec_parse_symbol(spec_trim(rest), number(i)) {
                lemma_figure_within(ls, i + 1, n, path, width, caption, Some(l));
            }
        }
    }
}

pub proof fn lemma_spec_figure_within(t: Seq<char>, ls: Seq<Seq<char>>, p: int, n: usize)
    requires
        0 <= p,
        1 <= n <= ls.len(),
        numbered(ls),
    ensures
        stopped_within(spec_figure(t, ls, p, n), ls.len() as int),
{
    if let Ok(header) = crate::lex::spec_strip_keyword_do(t, "figure"@, n) {
        lemma_symbol_at(header, "path"@, n);
        if let Ok(Some(path)) = spec_parse_string_option(header, "path"@, n) {
            lemma_figure_within(
                ls,
                p,
                n,
                path,
                crate::lex::spec_parse_width_option(header, "width"@),
                None,
                None,
            );
        }
    }
}

pub proof fn lemma_table_within(
    ls: Seq<Seq<char>>,
    p: int,
    opener: usize,
    columns: Seq<crate::syntax::Align>,
    rows: Seq<Seq<Seq<InlineModel>>>,
    rules: Seq<usize>,
    caption: Option<Seq<char>>,
)
    requires
        0 <= p,
        1 <= opener <= ls.len(),
        numbered(ls),
    ensures
        stopped_within(
            table_from(ls, p, opener, columns, rows, rules, caption),
            ls.len() as int,
        ),
    decreases ls.len() - p,
{
    lemma_next_significant(ls, p);
    if let Some(i) = next_significant(ls, p) {
        let t = spec_trim(ls[i]);
        if let Some(rest) = spec_strip_prefix(t, "columns "@) {
            lemma_definition_at(rest, number(i));
            if let Ok(c) = spec_parse_columns(rest, number(i)) {
                lemma_table_within(ls, i + 1, opener, c, rows, rules, caption);
            }
        } else if let Some(rest) = spec_strip_prefix(t, "row "@) {
            lemma_row_at(rest, number(i));
            if let Ok(cells) = spec_row(rest, number(i)) {
                lemma_table_within(ls, i + 1, opener, columns, rows.push(cells), rules, caption);
            }
        } else if t == "rule"@ {
            lemma_table_within(
                ls,
                i + 1,
                opener,
                columns,
                rows,
                rules.push(rows.len() as usize),
                caption,
            );
        } else if let Some(rest) = spec_strip_prefix(t, "caption "@) {
            lemma_string_literal_at(spec_trim(rest), number(i));
            if let Ok(c) = spec_parse_required_string(spec_trim(rest), number(i)) {
                lemma_table_within(ls, i + 1, opener, columns, rows, rules, Some(c));
            }
        }
    }
}

pub proof fn lemma_compare_within(
    ls: Seq<Seq<char>>,
    p: int,
    opener: usize,
    latex: Option<Seq<char>>,
    vitamins: Option<Seq<InlineModel>>,
)
    requires
        0 <= p,
        1 <= opener <= ls.len(),
        numbered(ls),
    ensures
        stopped_within(compare_from(ls, p, opener, latex, vitamins), ls.len() as int),
    decreases ls.len() - p,
{
    lemma_next_significant(ls, p);
    if let Some(i) = next_significant(ls, p) {
        let t = spec_trim(ls[i]);
        if let Some(rest) = spec_strip_prefix(t, "latex "@) {
            lemma_string_literal_at(spec_trim(rest), number(i));
            if let Ok(l) = spec_parse_required_string(spec_trim(rest), number(i)) {
                lemma_compare_within(ls, i + 1, opener, Some(l), vitamins);
            }
        } else if let Some(rest) = spec_strip_prefix(t, "vitamins "@) {
            lemma_snippet_at(spec_trim(rest), number(i));
            if let Ok(v) = spec_parse_vitamins_snippet(spec_trim(rest), number(i)) {
                lemma_compare_within(ls, i + 1, opener, latex, Some(v));
            }
        }
    }
}

pub proof fn lemma_blocks_within(
    ls: Seq<Seq<char>>,
    p: int,
    opener: usize,
    acc: Seq<BlockModel>,
)
    requires
        0 <= p,
        1 <= opener <= ls.len(),
        numbered(ls),
    ensures
        stopped_within(spec_blocks(ls, p, opener, acc), ls.len() as int),
    decreases ls.len() - p, 1int,
{
    lemma_next_significant(ls, p);
    if let Some(i) = next_significant(ls, p) {
        if spec_trim(ls[i]) != "end"@ {
            lemma_block_within(ls[i], number(i), ls, i + 1);
            if let Ok((b, q)) = spec_block(ls[i], number(i), ls, i + 1) {
                if i < q <= ls.len() {
                    lemma_blocks_within(ls, q, opener, acc.push(b));
                }
            }
        }
    }
}

pub proof fn lemma_titled_within(
    line: Seq<char>,
    n: usize,
    ls: Seq<Seq<char>>,
    p: int,
    keyword: Seq<char>,
    f: spec_fn(Seq<char>, Seq<BlockModel>) -> BlockModel,
)
    requires
        0 <= p,
        1 <= n <= ls.len(),
        numbered(ls),
    ensures
        stopped_within(titled(line, n, ls, p, keyword, f), ls.len() as int),
    decreases ls.len() - p, 2int,
{
    lemma_titled_do_at(spec_trim(line), keyword, n);
    lemma_blocks_within(ls, p, n, seq![]);
}

/// A statement on one of the lines, whose block goes on from index `p`.
pub proof fn lemma_block_within(line: Seq<char>, n: usize, ls: Seq<Seq<char>>, p: int)
    requires
        0 <= p,
        1 <= n <= ls.len(),
        numbered(ls),
    ensures
        stopped_within(spec_block(line, n, ls, p), ls.len() as int),
    decreases ls.len() - p, 3int,
{
    let t = spec_trim(line);
    if let Some(rest) = spec_strip_prefix(t, "p "@) {
        lemma_list_at(rest, n);
    } else if let Some(rest) = spec_strip_prefix(t, "raw_latex "@) {
        lemma_string_literal_at(spec_trim(rest), n);
    } else if let Some(rest) = spec_strip_prefix(t, "latex "@) {
        lemma_string_literal_at(spec_trim(rest), n);
    } else if let Some(rest) = spec_strip_prefix(t, "bibliography "@) {
        lemma_string_literal_at(spec_trim(rest), n);
    } else if t == "abstract do"@ || t == "quote do"@ || t == "proof do"@ {
        lemma_blocks_within(ls, p, n, seq![]);
    } else if t == "items do"@ || t == "steps do"@ {
        lemma_list_within(ls, p, false, n, seq![]);
        lemma_list_within(ls, p, true, n, seq![]);
    } else if t == "table do"@ {
        lemma_table_within(ls, p, n, seq![], seq![], seq![], None);
    } else if t == "compare do"@ {
        lemma_compare_within(ls, p, n, None, None);
    } else if crate::text::has_prefix(t, "equation"@) {
        lemma_equation_within(t, ls, p, n);
    } else if crate::text::has_prefix(t, "figure "@) {
        lemma_spec_figure_within(t, ls, p, n);
    } else if crate::text::has_prefix(t, "theorem "@) {
        lemma_titled_within(
            line,
            n,
            ls,
            p,
            "theorem"@,
            |title: Seq<char>, c: Seq<BlockModel>|
                BlockModel::Theorem { title: Some(title), children: c },
        );
    } else if crate::text::has_prefix(t, "section"@) {
        lemma_titled_within(
            line,
            n,
            ls,
            p,
            "section"@,
            |title: Seq<char>, c: Seq<BlockModel>|
                BlockModel::Section { level: 1, title, children: c },
        );
    } else if crate::text::has_prefix(t, "subsection"@) {
        lemma_titled_within(
            line,
            n,
            ls,
            p,
            "subsection"@,
            |title: Seq<char>, c: Seq<BlockModel>|
                BlockModel::Section { level: 2, title, children: c },
        );
    } else if crate::text::has_prefix(t, "subsubsection"@) {
        lemma_titled_within(
            line,
            n,
            ls,
            p,
            "subsubsection"@,
            |title: Seq<char>, c: Seq<BlockModel>|
                BlockModel::Section { level: 3, title, children: c },
        );
    }
}

// ---------------------------------------------------------------------------
// The document
// ---------------------------------------------------------------------------

pub proof fn lemma_metadata_at(t: Seq<char>, n: usize, doc: DocumentModel)
    ensures
        reported_at(spec_metadata(t, n, doc), n),
{
    if let Some(rest) = spec_strip_prefix(t, "author "@) {
        lemma_string_literal_at(spec_trim(rest), n);
    } else if let Some(rest) = spec_strip_prefix(t, "date "@) {
        lemma_string_literal_at(spec_trim(rest), n);
    } else if let Some(rest) = spec_strip_prefix(t, "define "@) {
        lemma_definition_at(spec_trim(rest), n);
    }
}

pub proof fn lemma_step_within(
    line: Seq<char>,
    n: usize,
    ls: Seq<Seq<char>>,
    p: int,
    doc: DocumentModel,
)
    requires
        0 <= p,
        1 <= n <= ls.len(),
        numbered(ls),
    ensures
        stopped_within(document_step(line, n, ls, p, doc), ls.len() as int),
{
    reveal(document_step);
    lemma_metadata_at(spec_trim(line), n, doc);
    lemma_block_within(line, n, ls, p);
}

pub proof fn lemma_document_within(
    ls: Seq<Seq<char>>,
    p: int,
    opening: usize,
    doc: DocumentModel,
)
    requires
        0 <= p,
        1 <= opening <= ls.len(),
        numbered(ls),
    ensures
        reported_within(document_from(ls, p, opening, doc), ls.len() as int),
    decreases ls.len() - p,
{
    lemma_next_significant(ls, p);
    if let Some(i) = next_significant(ls, p) {
        if spec_trim(ls[i]) != "end"@ {
            lemma_step_within(ls[i], number(i), ls, i + 1, doc);
            if let Ok((d, q)) = document_step(ls[i], number(i), ls, i + 1, doc) {
                if i < q <= ls.len() {
                    lemma_document_within(ls, q, opening, d);
                }
            }
        }
    }
}

/// Every diagnostic names a line of the source: a line from the first to the
/// last, or the first line of an empty source.
pub proof fn law_diagnostic_lines(source: Seq<char>)
    requires
        source.len() <= usize::MAX,
    ensures
        reported_within(
            spec_parse(source),
            if spec_lines(source).len() == 0 {
                1
            } else {
                spec_lines(source).len() as int
            },
        ),
{
    let ls = spec_lines(source);
    lemma_lines_from_len(source, 0);
    lemma_next_significant(ls, 0);
    if let Some(i) = next_significant(ls, 0) {
        lemma_titled_do_at(spec_trim(ls[i]), "paper"@, number(i));
        if let Ok(title) = spec_parse_titled_do(spec_trim(ls[i]), "paper"@, number(i)) {
            let start = DocumentModel {
                title,
                author: None,
                date: None,
                definitions: seq![],
                uses: crate::syntax::FeatureSet::none(),
                body: seq![],
            };
            lemma_document_within(ls, i + 1, number(i), start);
        }
    }
}

} // verus!
