//! The line-oriented parser: statements, blocks and the document.
use vstd::prelude::*;

use crate::diagnostic::{fault, outcome, outcome_at, Diagnostic, DiagnosticModel};
use crate::inline::{
    parse_inline_list, parse_vitamins_snippet, spec_inline_list, spec_parse_vitamins_snippet,
};
use crate::lex::{
    message, opt_view, parse_columns, parse_definition, parse_feature, parse_required_string,
    parse_string_option, parse_symbol, parse_symbol_option, parse_titled_do, parse_width_option,
    spec_parse_columns, spec_parse_definition, spec_parse_feature, spec_parse_required_string,
    spec_parse_string_option, spec_parse_symbol, spec_parse_symbol_option, spec_parse_titled_do,
    spec_parse_width_option, spec_strip_keyword_do, strip_keyword_do,
};
use crate::scan::{
    has_do_word, spec_has_do_word, spec_split_commas, split_top_level_commas,
};
use crate::syntax::{
    blocks_model, definitions_model, inline_lists_model, inlines_model, rows_model, Align, Block,
    BlockModel, DateModel, DateValue, Definition, DefinitionModel, Document, DocumentModel,
    FeatureSet, Inline, InlineModel,
};
use crate::text::{
    chars_of, has_prefix, has_prefix_str, is, push_all, same, spec_lines, spec_strip_prefix, spec_trim,
    split_lines, strip_prefix, trim, views,
};

verus! {

// ---------------------------------------------------------------------------
// The model of the parser
// ---------------------------------------------------------------------------

/// A line that holds a statement: neither blank nor a `#` comment.
pub open spec fn significant(t: Seq<char>) -> bool {
    let s = spec_trim(t);
    s.len() > 0 && s[0] != '#'
}

/// The index of the first significant line at or after `p`.
pub open spec fn next_significant(ls: Seq<Seq<char>>, p: int) -> Option<int>
    decreases ls.len() - p,
{
    if p < 0 || p >= ls.len() {
        None
    } else if significant(ls[p]) {
        Some(p)
    } else {
        next_significant(ls, p + 1)
    }
}

pub proof fn lemma_next_significant(ls: Seq<Seq<char>>, p: int)
    requires
        0 <= p,
    ensures
        next_significant(ls, p) matches Some(i) ==> p <= i < ls.len() && significant(ls[i]),
    decreases ls.len() - p,
{
    if p < ls.len() && !significant(ls[p]) {
        lemma_next_significant(ls, p + 1);
    }
}

/// The number of the line at index `i`.
pub open spec fn number(i: int) -> usize {
    (i + 1) as usize
}

/// The parts joined, with `sep` between each two.
pub open spec fn join(parts: Seq<Seq<char>>, sep: Seq<char>) -> Seq<char>
    decreases parts.len(),
{
    if parts.len() == 0 {
        seq![]
    } else if parts.len() == 1 {
        parts[0]
    } else {
        join(parts.drop_last(), sep) + sep + parts.last()
    }
}

/// The lines of a raw block from index `p`, with `depth` nested `do`
/// blocks open and the kept lines `acc`: the text and the position after
/// the closing `end`.
pub open spec fn raw_from(
    ls: Seq<Seq<char>>,
    p: int,
    opener: usize,
    depth: nat,
    acc: Seq<Seq<char>>,
) -> Result<(Seq<char>, int), (DiagnosticModel, int)>
    decreases ls.len() - p,
{
    if p < 0 || p >= ls.len() {
        Err((fault(opener, "unclosed raw block"@), p))
    } else {
        let t = spec_trim(ls[p]);
        if t == "end"@ && depth == 0 {
            Ok((join(acc, "\n"@), p + 1))
        } else if has_prefix(t, "end"@) && depth > 0 {
            raw_from(ls, p + 1, opener, (depth - 1) as nat, acc.push(t))
        } else {
            let d = if spec_has_do_word(t) {
                depth + 1
            } else {
                depth
            };
            let kept = if t.len() == 0 {
                acc
            } else {
                acc.push(t)
            };
            raw_from(ls, p + 1, opener, d, kept)
        }
    }
}

/// The items of a list block from index `p` on.
pub open spec fn list_from(
    ls: Seq<Seq<char>>,
    p: int,
    numbered: bool,
    opener: usize,
    acc: Seq<Seq<InlineModel>>,
) -> Result<(BlockModel, int), (DiagnosticModel, int)>
    decreases ls.len() - p,
{
    match next_significant(ls, p) {
        None => Err((fault(opener, "unclosed list block"@), ls.len() as int)),
        Some(i) => {
            proof {
                lemma_next_significant(ls, p);
            }
            let t = spec_trim(ls[i]);
            if t == "end"@ {
                Ok(
                    (
                        if numbered {
                            BlockModel::Steps(acc)
                        } else {
                            BlockModel::Items(acc)
                        },
                        i + 1,
                    ),
                )
            } else {
                match spec_strip_prefix(t, "item "@) {
                    None => Err((fault(number(i), "expected `item ...`"@), i + 1)),
                    Some(rest) => match spec_inline_list(rest, number(i)) {
                        Err(e) => Err((e, i + 1)),
                        Ok(item) => list_from(ls, i + 1, numbered, opener, acc.push(item)),
                    },
                }
            }
        },
    }
}

/// `equation [label: :name] do ... end`.
pub open spec fn spec_equation(t: Seq<char>, ls: Seq<Seq<char>>, p: int, n: usize) -> Result<
    (BlockModel, int),
    (DiagnosticModel, int),
> {
    match spec_strip_keyword_do(t, "equation"@, n) {
        Err(e) => Err((e, p)),
        Ok(header) => match spec_parse_symbol_option(header, "label"@, n) {
            Err(e) => Err((e, p)),
            Ok(label) => match raw_from(ls, p, n, 0, seq![]) {
                Err(e) => Err(e),
                Ok((expr, q)) => Ok((BlockModel::Equation { label, expr }, q)),
            },
        },
    }
}

/// The body of a figure block from index `p` on.
pub open spec fn figure_from(
    ls: Seq<Seq<char>>,
    p: int,
    n: usize,
    path: Seq<char>,
    width: Option<Seq<char>>,
    caption: Option<Seq<char>>,
    label: Option<Seq<char>>,
) -> Result<(BlockModel, int), (DiagnosticModel, int)>
    decreases ls.len() - p,
{
    match next_significant(ls, p) {
        None => Err((fault(n, "unclosed figure block"@), ls.len() as int)),
        Some(i) => {
            proof {
                lemma_next_significant(ls, p);
            }
            let body = spec_trim(ls[i]);
            if body == "end"@ {
                Ok((BlockModel::Figure { path, width, caption, label }, i + 1))
            } else if let Some(rest) = spec_strip_prefix(body, "caption "@) {
                match spec_parse_required_string(spec_trim(rest), number(i)) {
                    Err(e) => Err((e, i + 1)),
                    Ok(c) => figure_from(ls, i + 1, n, path, width, Some(c), label),
                }
            } else if let Some(rest) = spec_strip_prefix(body, "label "@) {
                match spec_parse_symbol(spec_trim(rest), number(i)) {
                    Err(e) => Err((e, i + 1)),
                    Ok(l) => figure_from(ls, i + 1, n, path, width, caption, Some(l)),
                }
            } else {
                Err((fault(number(i), "expected `caption ...` or `label ...` in figure"@), i + 1))
            }
        },
    }
}

/// `figure path: "...", width: ... do ... end`.
pub open spec fn spec_figure(t: Seq<char>, ls: Seq<Seq<char>>, p: int, n: usize) -> Result<
    (BlockModel, int),
    (DiagnosticModel, int),
> {
    match spec_strip_keyword_do(t, "figure"@, n) {
        Err(e) => Err((e, p)),
        Ok(header) => match spec_parse_string_option(header, "path"@, n) {
            Err(e) => Err((e, p)),
            Ok(None) => Err((fault(n, "figure requires `path: \"...\"`"@), p)),
            Ok(Some(path)) => figure_from(
                ls,
                p,
                n,
                path,
                spec_parse_width_option(header, "width"@),
                None,
                None,
            ),
        },
    }
}

/// The cells of a table row, from the `k`-th piece on.
pub open spec fn cells_from(pieces: Seq<Seq<char>>, k: int, line: usize) -> Result<
    Seq<Seq<InlineModel>>,
    DiagnosticModel,
>
    decreases pieces.len() - k,
{
    if k < 0 || k >= pieces.len() {
        Ok(seq![])
    } else {
        match spec_inline_list(spec_trim(pieces[k]), line) {
            Err(e) => Err(e),
            Ok(cell) => match cells_from(pieces, k + 1, line) {
                Err(e) => Err(e),
                Ok(rest) => Ok(seq![cell] + rest),
            },
        }
    }
}

pub open spec fn spec_row(s: Seq<char>, line: usize) -> Result<
    Seq<Seq<InlineModel>>,
    DiagnosticModel,
> {
    cells_from(spec_split_commas(s), 0, line)
}

/// The body of a table block from index `p` on.
pub open spec fn table_from(
    ls: Seq<Seq<char>>,
    p: int,
    opener: usize,
    columns: Seq<Align>,
    rows: Seq<Seq<Seq<InlineModel>>>,
    rules: Seq<usize>,
    caption: Option<Seq<char>>,
) -> Result<(BlockModel, int), (DiagnosticModel, int)>
    decreases ls.len() - p,
{
    match next_significant(ls, p) {
        None => Err((fault(opener, "unclosed table block"@), ls.len() as int)),
        Some(i) => {
            proof {
                lemma_next_significant(ls, p);
            }
            let t = spec_trim(ls[i]);
            if t == "end"@ {
                Ok((BlockModel::Table { columns, rows, rules, caption }, i + 1))
            } else if let Some(rest) = spec_strip_prefix(t, "columns "@) {
                match spec_parse_columns(rest, number(i)) {
                    Err(e) => Err((e, i + 1)),
                    Ok(c) => table_from(ls, i + 1, opener, c, rows, rules, caption),
                }
            } else if let Some(rest) = spec_strip_prefix(t, "row "@) {
                match spec_row(rest, number(i)) {
                    Err(e) => Err((e, i + 1)),
                    Ok(cells) => table_from(ls, i + 1, opener, columns, rows.push(cells), rules, caption),
                }
            } else if t == "rule"@ {
                table_from(ls, i + 1, opener, columns, rows, rules.push(rows.len() as usize), caption)
            } else if let Some(rest) = spec_strip_prefix(t, "caption "@) {
                match spec_parse_required_string(spec_trim(rest), number(i)) {
                    Err(e) => Err((e, i + 1)),
                    Ok(c) => table_from(ls, i + 1, opener, columns, rows, rules, Some(c)),
                }
            } else {
                Err((fault(number(i), "expected `columns`, `row`, `rule`, or `caption` in table"@), i + 1))
            }
        },
    }
}

/// The body of a comparison block from index `p` on.
pub open spec fn compare_from(
    ls: Seq<Seq<char>>,
    p: int,
    opener: usize,
    latex: Option<Seq<char>>,
    vitamins: Option<Seq<InlineModel>>,
) -> Result<(BlockModel, int), (DiagnosticModel, int)>
    decreases ls.len() - p,
{
    match next_significant(ls, p) {
        None => Err((fault(opener, "unclosed compare block"@), ls.len() as int)),
        Some(i) => {
            proof {
                lemma_next_significant(ls, p);
            }
            let t = spec_trim(ls[i]);
            if t == "end"@ {
                Ok(
                    (
                        BlockModel::Compare {
                            latex: match latex {
                                Some(l) => l,
                                None => seq![],
                            },
                            vitamins: match vitamins {
                                Some(v) => v,
                                None => seq![],
                            },
                        },
                        i + 1,
                    ),
                )
            } else if let Some(rest) = spec_strip_prefix(t, "latex "@) {
                match spec_parse_required_string(spec_trim(rest), number(i)) {
                    Err(e) => Err((e, i + 1)),
                    Ok(l) => compare_from(ls, i + 1, opener, Some(l), vitamins),
                }
            } else if let Some(rest) = spec_strip_prefix(t, "vitamins "@) {
                match spec_parse_vitamins_snippet(spec_trim(rest), number(i)) {
                    Err(e) => Err((e, i + 1)),
                    Ok(v) => compare_from(ls, i + 1, opener, latex, Some(v)),
                }
            } else {
                Err(
                    (
                        fault(number(i), "expected `latex ...` or `vitamins ...` in compare block"@),
                        i + 1,
                    ),
                )
            }
        },
    }
}

/// The blocks from index `p` up to the `end` that closes them, after `acc`;
/// `opener` is the number of the line that opened them.
pub open spec fn spec_blocks(
    ls: Seq<Seq<char>>,
    p: int,
    opener: usize,
    acc: Seq<BlockModel>,
) -> Result<(Seq<BlockModel>, int), (DiagnosticModel, int)>
    decreases ls.len() - p, 1int,
{
    match next_significant(ls, p) {
        None => Err((fault(opener, "unclosed block"@), ls.len() as int)),
        Some(i) => {
            proof {
                lemma_next_significant(ls, p);
            }
            if spec_trim(ls[i]) == "end"@ {
                Ok((acc, i + 1))
            } else {
                match spec_block(ls[i], number(i), ls, i + 1) {
                    Err(e) => Err(e),
                    Ok((b, q)) => if i < q <= ls.len() {
                        spec_blocks(ls, q, opener, acc.push(b))
                    } else {
                        Err((fault(opener, "unclosed block"@), q))
                    },
                }
            }
        },
    }
}

pub open spec fn nested(
    r: Result<(Seq<BlockModel>, int), (DiagnosticModel, int)>,
    f: spec_fn(Seq<BlockModel>) -> BlockModel,
) -> Result<(BlockModel, int), (DiagnosticModel, int)> {
    match r {
        Err(e) => Err(e),
        Ok((children, q)) => Ok((f(children), q)),
    }
}

/// A titled block: `KEYWORD "Title" do ... end`, whose first line `t` has
/// number `n` and whose body starts at index `p`.
pub open spec fn titled(
    t: Seq<char>,
    n: usize,
    ls: Seq<Seq<char>>,
    p: int,
    keyword: Seq<char>,
    f: spec_fn(Seq<char>, Seq<BlockModel>) -> BlockModel,
) -> Result<(BlockModel, int), (DiagnosticModel, int)>
    decreases ls.len() - p, 2int,
{
    match spec_parse_titled_do(spec_trim(t), keyword, n) {
        Err(e) => Err((e, p)),
        Ok(title) => match spec_blocks(ls, p, n, seq![]) {
            Err(e) => Err(e),
            Ok((children, q)) => Ok((f(title, children), q)),
        },
    }
}

/// The statement `line`, numbered `n`, whose block (if it opens one) goes on
/// with the lines from index `p`: the block and the index of the first line
/// after it.
pub open spec fn spec_block(line: Seq<char>, n: usize, ls: Seq<Seq<char>>, p: int) -> Result<
    (BlockModel, int),
    (DiagnosticModel, int),
>
    decreases ls.len() - p, 3int,
{
    let t = spec_trim(line);
    if let Some(rest) = spec_strip_prefix(t, "p "@) {
        match spec_inline_list(rest, n) {
            Err(e) => Err((e, p)),
            Ok(c) => Ok((BlockModel::Paragraph(c), p)),
        }
    } else if let Some(rest) = spec_strip_prefix(t, "raw_latex "@) {
        match spec_parse_required_string(spec_trim(rest), n) {
            Err(e) => Err((e, p)),
            Ok(v) => Ok((BlockModel::RawLatex(v), p)),
        }
    } else if let Some(rest) = spec_strip_prefix(t, "latex "@) {
        match spec_parse_required_string(spec_trim(rest), n) {
            Err(e) => Err((e, p)),
            Ok(v) => Ok((BlockModel::RawLatex(v), p)),
        }
    } else if let Some(rest) = spec_strip_prefix(t, "bibliography "@) {
        match spec_parse_required_string(spec_trim(rest), n) {
            Err(e) => Err((e, p)),
            Ok(v) => Ok((BlockModel::Bibliography(v), p)),
        }
    } else if t == "abstract do"@ {
        nested(spec_blocks(ls, p, n, seq![]), |c: Seq<BlockModel>| BlockModel::Abstract(c))
    } else if t == "quote do"@ {
        nested(spec_blocks(ls, p, n, seq![]), |c: Seq<BlockModel>| BlockModel::Quote(c))
    } else if t == "proof do"@ {
        nested(spec_blocks(ls, p, n, seq![]), |c: Seq<BlockModel>| BlockModel::Proof(c))
    } else if t == "items do"@ {
        list_from(ls, p, false, n, seq![])
    } else if t == "steps do"@ {
        list_from(ls, p, true, n, seq![])
    } else if t == "table do"@ {
        table_from(ls, p, n, seq![], seq![], seq![], None)
    } else if t == "compare do"@ {
        compare_from(ls, p, n, None, None)
    } else if has_prefix(t, "equation"@) {
        spec_equation(t, ls, p, n)
    } else if has_prefix(t, "figure "@) {
        spec_figure(t, ls, p, n)
    } else if has_prefix(t, "theorem "@) {
        titled(
            line,
            n,
            ls,
            p,
            "theorem"@,
            |title: Seq<char>, c: Seq<BlockModel>|
                BlockModel::Theorem { title: Some(title), children: c },
        )
    } else if has_prefix(t, "section"@) {
        titled(
            line,
            n,
            ls,
            p,
            "section"@,
            |title: Seq<char>, c: Seq<BlockModel>|
                BlockModel::Section { level: 1, title, children: c },
        )
    } else if has_prefix(t, "subsection"@) {
        titled(
            line,
            n,
            ls,
            p,
            "subsection"@,
            |title: Seq<char>, c: Seq<BlockModel>|
                BlockModel::Section { level: 2, title, children: c },
        )
    } else if has_prefix(t, "subsubsection"@) {
        titled(
            line,
            n,
            ls,
            p,
            "subsubsection"@,
            |title: Seq<char>, c: Seq<BlockModel>|
                BlockModel::Section { level: 3, title, children: c },
        )
    } else {
        Err((fault(n, "unknown Vitamins statement: `"@ + t + "`"@), p))
    }
}

/// The document-level statements `author`, `date`, `use` and `define`:
/// `None` when the line is none of them.
pub open spec fn spec_metadata(t: Seq<char>, n: usize, doc: DocumentModel) -> Result<
    Option<DocumentModel>,
    DiagnosticModel,
> {
    if let Some(rest) = spec_strip_prefix(t, "author "@) {
        match spec_parse_required_string(spec_trim(rest), n) {
            Err(e) => Err(e),
            Ok(a) => Ok(Some(DocumentModel { author: Some(a), ..doc })),
        }
    } else if let Some(rest) = spec_strip_prefix(t, "date "@) {
        if spec_trim(rest) == "today"@ {
            Ok(Some(DocumentModel { date: Some(DateModel::Today), ..doc }))
        } else {
            match spec_parse_required_string(spec_trim(rest), n) {
                Err(e) => Err(e),
                Ok(d) => Ok(Some(DocumentModel { date: Some(DateModel::Literal(d)), ..doc })),
            }
        }
    } else if let Some(rest) = spec_strip_prefix(t, "use "@) {
        match spec_parse_feature(spec_trim(rest), n) {
            Err(e) => Err(e),
            Ok(f) => Ok(Some(DocumentModel { uses: doc.uses.with(f), ..doc })),
        }
    } else if let Some(rest) = spec_strip_prefix(t, "define "@) {
        match spec_parse_definition(spec_trim(rest), n) {
            Err(e) => Err(e),
            Ok(d) => if defines(doc.definitions, d.name) {
                Err(fault(n, "macro `"@ + d.name + "` is already defined"@))
            } else {
                Ok(Some(DocumentModel { definitions: doc.definitions.push(d), ..doc }))
            },
        }
    } else {
        Ok(None)
    }
}

/// Some definition in `defs` has the name `name`.
pub open spec fn defines(defs: Seq<DefinitionModel>, name: Seq<char>) -> bool {
    exists|k: int| 0 <= k < defs.len() && defs[k].name == name
}

/// What the statement `line` numbered `n` (neither blank nor `end`) does to
/// the document, its block going on with the lines from index `p`: a
/// metadata statement updates the document, any other adds a block. Also
/// the index of the first line after the statement.
#[verifier::opaque]
pub open spec fn document_step(
    line: Seq<char>,
    n: usize,
    ls: Seq<Seq<char>>,
    p: int,
    doc: DocumentModel,
) -> Result<(DocumentModel, int), (DiagnosticModel, int)> {
    match spec_metadata(spec_trim(line), n, doc) {
        Err(e) => Err((e, p)),
        Ok(Some(d)) => Ok((d, p)),
        Ok(None) => match spec_block(line, n, ls, p) {
            Err(e) => Err(e),
            Ok((b, q)) => Ok((DocumentModel { body: doc.body.push(b), ..doc }, q)),
        },
    }
}

/// The statements of the paper from index `p` on, up to its `end`.
pub open spec fn document_from(
    ls: Seq<Seq<char>>,
    p: int,
    opening: usize,
    doc: DocumentModel,
) -> Result<DocumentModel, DiagnosticModel>
    decreases ls.len() - p,
{
    match next_significant(ls, p) {
        None => Err(fault(opening, "unclosed paper block"@)),
        Some(i) => {
            proof {
                lemma_next_significant(ls, p);
            }
            if spec_trim(ls[i]) == "end"@ {
                Ok(doc)
            } else {
                match document_step(ls[i], number(i), ls, i + 1, doc) {
                    Err((e, _)) => Err(e),
                    Ok((d, q)) => if i < q <= ls.len() {
                        document_from(ls, q, opening, d)
                    } else {
                        Err(fault(opening, "unclosed paper block"@))
                    },
                }
            }
        },
    }
}

/// A document given as its lines: `paper "Title" do`, the statements, `end`.
pub open spec fn spec_parse_lines(ls: Seq<Seq<char>>) -> Result<DocumentModel, DiagnosticModel> {
    match next_significant(ls, 0) {
        None => Err(fault(1, "expected `paper \"Title\" do`"@)),
        Some(i) => match spec_parse_titled_do(spec_trim(ls[i]), "paper"@, number(i)) {
            Err(e) => Err(e),
            Ok(title) => document_from(
                ls,
                i + 1,
                number(i),
                DocumentModel {
                    title,
                    author: None,
                    date: None,
                    definitions: seq![],
                    uses: FeatureSet::none(),
                    body: seq![],
                },
            ),
        },
    }
}

/// What a source text parses to.
pub open spec fn spec_parse(source: Seq<char>) -> Result<DocumentModel, DiagnosticModel> {
    spec_parse_lines(spec_lines(source))
}

// ---------------------------------------------------------------------------
// The parser
// ---------------------------------------------------------------------------

/// A line of the source and its number, counting from 1.
pub struct SourceLine {
    pub number: usize,
    pub text: Vec<char>,
}

/// The lines of a source and how many of them have been taken.
pub struct Parser {
    pub lines: Vec<SourceLine>,
    pub position: usize,
}

/// `join(parts + [x])` in terms of `join(parts)`.
pub proof fn lemma_join_push(parts: Seq<Seq<char>>, sep: Seq<char>, x: Seq<char>)
    ensures
        join(parts.push(x), sep) == if parts.len() == 0 {
            x
        } else {
            join(parts, sep) + sep + x
        },
{
    assert(parts.push(x).drop_last() =~= parts);
}

impl Parser {
    /// The text of each line.
    pub open spec fn texts(&self) -> Seq<Seq<char>> {
        self.lines@.map_values(|l: SourceLine| l.text@)
    }

    /// Line `i` has number `i + 1`, and the position is within the lines.
    pub open spec fn wf(&self) -> bool {
        &&& self.position <= self.lines.len()
        &&& forall|i: int| 0 <= i < self.lines.len() ==> #[trigger] self.lines@[i].number == i + 1
    }

    /// The lines are the same as those of `other`.
    pub open spec fn same_lines(&self, other: Parser) -> bool {
        self.lines@ == other.lines@
    }

    pub fn new(source: &str) -> (p: Parser)
        ensures
            p.wf(),
            p.position == 0,
            p.texts() == spec_lines(source@),
    {
        let chars = chars_of(source);
        let texts = split_lines(&chars);
        let mut lines: Vec<SourceLine> = Vec::new();
        let mut i: usize = 0;
        while i < texts.len()
            invariant
                i <= texts.len() <= chars.len(),
                lines.len() == i,
                forall|k: int| 0 <= k < i ==> #[trigger] lines@[k].number == k + 1,
                forall|k: int| 0 <= k < i ==> #[trigger] lines@[k].text@ == texts@[k]@,
            decreases texts.len() - i,
        {
            lines.push(SourceLine { number: i + 1, text: texts[i].clone() });
            i += 1;
        }
        let p = Parser { lines, position: 0 };
        assert(p.texts() =~= views(texts@));
        p
    }

    pub fn take_raw_line(&mut self) -> (r: Option<SourceLine>)
        requires
            old(self).wf(),
        ensures
            final(self).wf(),
            final(self).same_lines(*old(self)),
            old(self).position < old(self).lines.len() ==> (r matches Some(l) && l.number
                == number(old(self).position as int) && l.text@ == old(self).texts()[old(
                self,
            ).position as int] && final(self).position == old(self).position + 1),
            old(self).position >= old(self).lines.len() ==> r is None && final(self).position
                == old(self).position,
    {
        if self.position >= self.lines.len() {
            return None;
        }
        let line = SourceLine {
            number: self.lines[self.position].number,
            text: self.lines[self.position].text.clone(),
        };
        self.position += 1;
        Some(line)
    }

    pub fn take_significant(&mut self) -> (r: Option<SourceLine>)
        requires
            old(self).wf(),
        ensures
            final(self).wf(),
            final(self).same_lines(*old(self)),
            final(self).position >= old(self).position,
            r is Some ==> final(self).position > old(self).position,
            match next_significant(old(self).texts(), old(self).position as int) {
                Some(i) => r matches Some(l) && l.number == number(i) && l.text@ == old(
                    self,
                ).texts()[i] && final(self).position == i + 1,
                None => r is None && final(self).position == final(self).lines.len(),
            },
    {
        let ghost ls = self.texts();
        let ghost lines0 = self.lines@;
        let ghost p0 = self.position as int;
        proof {
            lemma_next_significant(ls, p0);
        }
        while self.position < self.lines.len()
            invariant
                self.wf(),
                self.lines@ == lines0,
                self.texts() == ls,
                p0 <= self.position,
                lines0 == old(self).lines@,
                ls == old(self).texts(),
                p0 == old(self).position,
                next_significant(ls, self.position as int) == next_significant(ls, p0),
            ensures
                self.wf(),
                self.lines@ == lines0,
                self.texts() == ls,
                p0 <= self.position,
                lines0 == old(self).lines@,
                ls == old(self).texts(),
                p0 == old(self).position,
                next_significant(ls, self.position as int) == next_significant(ls, p0),
                self.position < self.lines.len() ==> significant(ls[self.position as int]),
            decreases self.lines.len() - self.position,
        {
            let t = trim(&self.lines[self.position].text);
            if t.len() != 0 && t[0] != '#' {
                break;
            }
            self.position += 1;
        }
        self.take_raw_line()
    }

    pub fn collect_raw_block(&mut self, opener: usize) -> (r: Result<Vec<char>, Diagnostic>)
        requires
            old(self).wf(),
        ensures
            final(self).wf(),
            final(self).same_lines(*old(self)),
            final(self).position >= old(self).position,
            outcome_at(r, |v: Vec<char>| v@, final(self).position as int) == raw_from(
                old(self).texts(),
                old(self).position as int,
                opener,
                0,
                seq![],
            ),
    {
        let ghost ls = self.texts();
        let ghost lines0 = self.lines@;
        let ghost p0 = self.position as int;
        let ghost mut acc: Seq<Seq<char>> = seq![];
        let mut out: Vec<char> = Vec::new();
        let mut any = false;
        let mut depth: usize = 0;
        proof {
            reveal_strlit("\n");
        }
        loop
            invariant
                self.wf(),
                self.lines@ == lines0,
                self.texts() == ls,
                p0 <= self.position,
                lines0 == old(self).lines@,
                ls == old(self).texts(),
                p0 == old(self).position,
                depth <= self.position,
                out@ == join(acc, "\n"@),
                any == (acc.len() > 0),
                raw_from(ls, p0, opener, 0, seq![]) == raw_from(
                    ls,
                    self.position as int,
                    opener,
                    depth as nat,
                    acc,
                ),
            decreases self.lines.len() - self.position,
        {
            let line = match self.take_raw_line() {
                Some(l) => l,
                None => {
                    return Err(Diagnostic::at(opener, "unclosed raw block"));
                },
            };
            let t = trim(&line.text);
            if is(&t, "end") && depth == 0 {
                return Ok(out);
            }
            if has_prefix_str(&t, "end") && depth > 0 {
                depth -= 1;
            } else {
                if has_do_word(&t) {
                    depth += 1;
                }
                if t.len() == 0 {
                    continue;
                }
            }
            proof {
                lemma_join_push(acc, "\n"@, t@);
                reveal_strlit("\n");
            }
            let ghost before = out@;
            if any {
                out.push('\n');
            }
            push_all(&mut out, &t);
            assert(out@ =~= if acc.len() == 0 {
                t@
            } else {
                before + "\n"@ + t@
            });
            proof {
                acc = acc.push(t@);
            }
            any = true;
        }
    }

    pub fn parse_list(&mut self, numbered: bool, opener: usize) -> (r: Result<Block, Diagnostic>)
        requires
            old(self).wf(),
        ensures
            final(self).wf(),
            final(self).same_lines(*old(self)),
            final(self).position >= old(self).position,
            outcome_at(r, |b: Block| b.model(), final(self).position as int) == list_from(
                old(self).texts(),
                old(self).position as int,
                numbered,
                opener,
                seq![],
            ),
    {
        let ghost ls = self.texts();
        let ghost lines0 = self.lines@;
        let ghost p0 = self.position as int;
        let mut items: Vec<Vec<Inline>> = Vec::new();
        assert(inline_lists_model(items@) =~= Seq::<Seq<InlineModel>>::empty());
        loop
            invariant
                self.wf(),
                self.lines@ == lines0,
                self.texts() == ls,
                p0 <= self.position,
                lines0 == old(self).lines@,
                ls == old(self).texts(),
                p0 == old(self).position,
                list_from(ls, p0, numbered, opener, seq![]) == list_from(
                    ls,
                    self.position as int,
                    numbered,
                    opener,
                    inline_lists_model(items@),
                ),
            decreases self.lines.len() - self.position,
        {
            let line = match self.take_significant() {
                Some(l) => l,
                None => {
                    return Err(Diagnostic::at(opener, "unclosed list block"));
                },
            };
            let t = trim(&line.text);
            if is(&t, "end") {
                return Ok(
                    if numbered {
                        Block::Steps(items)
                    } else {
                        Block::Items(items)
                    },
                );
            }
            let rest = match strip_prefix(&t, "item ") {
                Some(r) => r,
                None => {
                    return Err(Diagnostic::at(line.number, "expected `item ...`"));
                },
            };
            let item = parse_inline_list(&rest, line.number)?;
            let ghost before = inline_lists_model(items@);
            items.push(item);
            assert(inline_lists_model(items@) =~= before.push(inlines_model(item@)));
        }
    }

    pub fn parse_equation(&mut self, t: &Vec<char>, line: usize) -> (r: Result<
        Block,
        Diagnostic,
    >)
        requires
            old(self).wf(),
        ensures
            final(self).wf(),
            final(self).same_lines(*old(self)),
            final(self).position >= old(self).position,
            outcome_at(r, |b: Block| b.model(), final(self).position as int) == spec_equation(
                t@,
                old(self).texts(),
                old(self).position as int,
                line,
            ),
    {
        let header = strip_keyword_do(t, "equation", line)?;
        let label = parse_symbol_option(&header, "label", line)?;
        let expr = self.collect_raw_block(line)?;
        Ok(Block::Equation { label, expr })
    }

    pub fn parse_figure(&mut self, t: &Vec<char>, line: usize) -> (r: Result<Block, Diagnostic>)
        requires
            old(self).wf(),
        ensures
            final(self).wf(),
            final(self).same_lines(*old(self)),
            final(self).position >= old(self).position,
            outcome_at(r, |b: Block| b.model(), final(self).position as int) == spec_figure(
                t@,
                old(self).texts(),
                old(self).position as int,
                line,
            ),
    {
        let ghost ls = self.texts();
        let ghost lines0 = self.lines@;
        let ghost p0 = self.position as int;
        let header = strip_keyword_do(t, "figure", line)?;
        let path = match parse_string_option(&header, "path", line)? {
            Some(p) => p,
            None => {
                return Err(Diagnostic::at(line, "figure requires `path: \"...\"`"));
            },
        };
        let width = parse_width_option(&header, "width");
        let mut caption: Option<Vec<char>> = None;
        let mut label: Option<Vec<char>> = None;
        loop
            invariant
                self.wf(),
                self.lines@ == lines0,
                self.texts() == ls,
                p0 <= self.position,
                lines0 == old(self).lines@,
                ls == old(self).texts(),
                p0 == old(self).position,
                spec_figure(t@, ls, p0, line) == figure_from(
                    ls,
                    self.position as int,
                    line,
                    path@,
                    opt_view(width),
                    opt_view(caption),
                    opt_view(label),
                ),
            decreases self.lines.len() - self.position,
        {
            let body_line = match self.take_significant() {
                Some(l) => l,
                None => {
                    return Err(Diagnostic::at(line, "unclosed figure block"));
                },
            };
            let body = trim(&body_line.text);
            if is(&body, "end") {
                return Ok(Block::Figure { path, width, caption, label });
            }
            if let Some(rest) = strip_prefix(&body, "caption ") {
                let rest = trim(&rest);
                caption = Some(parse_required_string(&rest, body_line.number)?);
            } else if let Some(rest) = strip_prefix(&body, "label ") {
                let rest = trim(&rest);
                label = Some(parse_symbol(&rest, body_line.number)?);
            } else {
                return Err(
                    Diagnostic::at(
                        body_line.number,
                        "expected `caption ...` or `label ...` in figure",
                    ),
                );
            }
        }
    }

    pub fn parse_row(rest: &Vec<char>, line: usize) -> (r: Result<Vec<Vec<Inline>>, Diagnostic>)
        ensures
            outcome(r, |v: Vec<Vec<Inline>>| inline_lists_model(v@)) == spec_row(rest@, line),
    {
        let pieces = split_top_level_commas(rest);
        let ghost ps = views(pieces@);
        let mut cells: Vec<Vec<Inline>> = Vec::new();
        assert(inline_lists_model(cells@) =~= Seq::<Seq<InlineModel>>::empty());
        let mut k: usize = 0;
        while k < pieces.len()
            invariant
                k <= pieces.len(),
                ps == views(pieces@),
                ps == spec_split_commas(rest@),
                spec_row(rest@, line) == match cells_from(ps, k as int, line) {
                    Err(e) => Err(e),
                    Ok(more) => Ok(inline_lists_model(cells@) + more),
                },
            decreases pieces.len() - k,
        {
            let cell = trim(&pieces[k]);
            assert(cell@ == spec_trim(ps[k as int]));
            let item = parse_inline_list(&cell, line)?;
            let ghost before = inline_lists_model(cells@);
            cells.push(item);
            proof {
                assert(inline_lists_model(cells@) =~= before.push(inlines_model(item@)));
                match cells_from(ps, k + 1, line) {
                    Err(e) => {},
                    Ok(more) => {
                        assert(inline_lists_model(cells@) + more =~= before + (seq![
                            inlines_model(item@),
                        ] + more));
                    },
                }
            }
            k += 1;
        }
        assert(inline_lists_model(cells@) + Seq::<Seq<InlineModel>>::empty() =~= inline_lists_model(
            cells@,
        ));
        Ok(cells)
    }

    pub fn parse_table(&mut self, opener: usize) -> (r: Result<Block, Diagnostic>)
        requires
            old(self).wf(),
        ensures
            final(self).wf(),
            final(self).same_lines(*old(self)),
            final(self).position >= old(self).position,
            outcome_at(r, |b: Block| b.model(), final(self).position as int) == table_from(
                old(self).texts(),
                old(self).position as int,
                opener,
                seq![],
                seq![],
                seq![],
                None,
            ),
    {
        let ghost ls = self.texts();
        let ghost lines0 = self.lines@;
        let ghost p0 = self.position as int;
        let mut columns: Vec<Align> = Vec::new();
        let mut rows: Vec<Vec<Vec<Inline>>> = Vec::new();
        let mut rules: Vec<usize> = Vec::new();
        let mut caption: Option<Vec<char>> = None;
        assert(rows_model(rows@) =~= Seq::<Seq<Seq<InlineModel>>>::empty());
        loop
            invariant
                self.wf(),
                self.lines@ == lines0,
                self.texts() == ls,
                p0 <= self.position,
                lines0 == old(self).lines@,
                ls == old(self).texts(),
                p0 == old(self).position,
                table_from(ls, p0, opener, seq![], seq![], seq![], None) == table_from(
                    ls,
                    self.position as int,
                    opener,
                    columns@,
                    rows_model(rows@),
                    rules@,
                    opt_view(caption),
                ),
            decreases self.lines.len() - self.position,
        {
            let line = match self.take_significant() {
                Some(l) => l,
                None => {
                    return Err(Diagnostic::at(opener, "unclosed table block"));
                },
            };
            let t = trim(&line.text);
            if is(&t, "end") {
                return Ok(Block::Table { columns, rows, rules, caption });
            }
            if let Some(rest) = strip_prefix(&t, "columns ") {
                columns = parse_columns(&rest, line.number)?;
            } else if let Some(rest) = strip_prefix(&t, "row ") {
                let cells = Parser::parse_row(&rest, line.number)?;
                let ghost before = rows_model(rows@);
                rows.push(cells);
                assert(rows_model(rows@) =~= before.push(inline_lists_model(cells@)));
            } else if is(&t, "rule") {
                rules.push(rows.len());
            } else if let Some(rest) = strip_prefix(&t, "caption ") {
                let rest = trim(&rest);
                caption = Some(parse_required_string(&rest, line.number)?);
            } else {
                return Err(
                    Diagnostic::at(
                        line.number,
                        "expected `columns`, `row`, `rule`, or `caption` in table",
                    ),
                );
            }
        }
    }

    pub fn parse_compare(&mut self, opener: usize) -> (r: Result<Block, Diagnostic>)
        requires
            old(self).wf(),
        ensures
            final(self).wf(),
            final(self).same_lines(*old(self)),
            final(self).position >= old(self).position,
            outcome_at(r, |b: Block| b.model(), final(self).position as int) == compare_from(
                old(self).texts(),
                old(self).position as int,
                opener,
                None,
                None,
            ),
    {
        let ghost ls = self.texts();
        let ghost lines0 = self.lines@;
        let ghost p0 = self.position as int;
        let mut latex: Option<Vec<char>> = None;
        let mut vitamins: Option<Vec<Inline>> = None;
        loop
            invariant
                self.wf(),
                self.lines@ == lines0,
                self.texts() == ls,
                p0 <= self.position,
                lines0 == old(self).lines@,
                ls == old(self).texts(),
                p0 == old(self).position,
                compare_from(ls, p0, opener, None, None) == compare_from(
                    ls,
                    self.position as int,
                    opener,
                    opt_view(latex),
                    match vitamins {
                        Some(v) => Some(inlines_model(v@)),
                        None => None,
                    },
                ),
            decreases self.lines.len() - self.position,
        {
            let line = match self.take_significant() {
                Some(l) => l,
                None => {
                    return Err(Diagnostic::at(opener, "unclosed compare block"));
                },
            };
            let t = trim(&line.text);
            if is(&t, "end") {
                let latex = match latex {
                    Some(l) => l,
                    None => Vec::new(),
                };
                let vitamins = match vitamins {
                    Some(v) => v,
                    None => {
                        let v: Vec<Inline> = Vec::new();
                        assert(inlines_model(v@) =~= Seq::<InlineModel>::empty());
                        v
                    },
                };
                return Ok(Block::Compare { latex, vitamins });
            }
            if let Some(rest) = strip_prefix(&t, "latex ") {
                let rest = trim(&rest);
                latex = Some(parse_required_string(&rest, line.number)?);
            } else if let Some(rest) = strip_prefix(&t, "vitamins ") {
                let rest = trim(&rest);
                vitamins = Some(parse_vitamins_snippet(&rest, line.number)?);
            } else {
                return Err(
                    Diagnostic::at(
                        line.number,
                        "expected `latex ...` or `vitamins ...` in compare block",
                    ),
                );
            }
        }
    }

    pub fn parse_blocks(&mut self, opener: usize) -> (r: Result<Vec<Block>, Diagnostic>)
        requires
            old(self).wf(),
        ensures
            final(self).wf(),
            final(self).same_lines(*old(self)),
            final(self).position >= old(self).position,
            outcome_at(r, |v: Vec<Block>| blocks_model(v@), final(self).position as int) == spec_blocks(old(self).texts(), old(self).position as int, opener, seq![]),
        decreases old(self).lines.len() - old(self).position, 1int,
    {
        let ghost ls = self.texts();
        let ghost lines0 = self.lines@;
        let ghost p0 = self.position as int;
        let mut blocks: Vec<Block> = Vec::new();
        assert(blocks_model(blocks@) =~= Seq::<BlockModel>::empty());
        loop
            invariant
                self.wf(),
                self.lines@ == lines0,
                self.texts() == ls,
                p0 <= self.position,
                lines0 == old(self).lines@,
                ls == old(self).texts(),
                p0 == old(self).position,
                spec_blocks(ls, p0, opener, seq![]) == spec_blocks(
                    ls,
                    self.position as int,
                    opener,
                    blocks_model(blocks@),
                ),
            decreases self.lines.len() - self.position,
        {
            let line = match self.take_significant() {
                Some(l) => l,
                None => {
                    return Err(Diagnostic::at(opener, "unclosed block"));
                },
            };
            let t = trim(&line.text);
            if is(&t, "end") {
                return Ok(blocks);
            }
            let block = self.parse_block_from_line(line)?;
            let ghost before = blocks_model(blocks@);
            blocks.push(block);
            assert(blocks_model(blocks@) =~= before.push(block.model()));
        }
    }

    pub fn parse_block_from_line(&mut self, line: SourceLine) -> (r: Result<Block, Diagnostic>)
        requires
            old(self).wf(),
        ensures
            final(self).wf(),
            final(self).same_lines(*old(self)),
            final(self).position >= old(self).position,
            outcome_at(r, |b: Block| b.model(), final(self).position as int) == spec_block(
                line.text@,
                line.number,
                old(self).texts(),
                old(self).position as int,
            ),
        decreases old(self).lines.len() - old(self).position, 3int,
    {
        let t = trim(&line.text);
        let n = line.number;
        if let Some(rest) = strip_prefix(&t, "p ") {
            return Ok(Block::Paragraph(parse_inline_list(&rest, n)?));
        }
        if let Some(rest) = strip_prefix(&t, "raw_latex ") {
            let rest = trim(&rest);
            return Ok(Block::RawLatex(parse_required_string(&rest, n)?));
        }
        if let Some(rest) = strip_prefix(&t, "latex ") {
            let rest = trim(&rest);
            return Ok(Block::RawLatex(parse_required_string(&rest, n)?));
        }
        if let Some(rest) = strip_prefix(&t, "bibliography ") {
            let rest = trim(&rest);
            return Ok(Block::Bibliography(parse_required_string(&rest, n)?));
        }
        if is(&t, "abstract do") {
            return Ok(Block::Abstract(self.parse_blocks(n)?));
        }
        if is(&t, "quote do") {
            return Ok(Block::Quote(self.parse_blocks(n)?));
        }
        if is(&t, "proof do") {
            return Ok(Block::Proof(self.parse_blocks(n)?));
        }
        if is(&t, "items do") {
            return self.parse_list(false, n);
        }
        if is(&t, "steps do") {
            return self.parse_list(true, n);
        }
        if is(&t, "table do") {
            return self.parse_table(n);
        }
        if is(&t, "compare do") {
            return self.parse_compare(n);
        }
        if has_prefix_str(&t, "equation") {
            return self.parse_equation(&t, n);
        }
        if has_prefix_str(&t, "figure ") {
            return self.parse_figure(&t, n);
        }
        if has_prefix_str(&t, "theorem ") {
            let title = parse_titled_do(&t, "theorem", n)?;
            let children = self.parse_blocks(n)?;
            return Ok(Block::Theorem { title: Some(title), children });
        }
        if has_prefix_str(&t, "section") {
            let title = parse_titled_do(&t, "section", n)?;
            let children = self.parse_blocks(n)?;
            return Ok(Block::Section { level: 1, title, children });
        }
        if has_prefix_str(&t, "subsection") {
            let title = parse_titled_do(&t, "subsection", n)?;
            let children = self.parse_blocks(n)?;
            return Ok(Block::Section { level: 2, title, children });
        }
        if has_prefix_str(&t, "subsubsection") {
            let title = parse_titled_do(&t, "subsubsection", n)?;
            let children = self.parse_blocks(n)?;
            return Ok(Block::Section { level: 3, title, children });
        }
        let m = message("unknown Vitamins statement: `", &t, "`");
        Err(Diagnostic::new(n, &m))
    }

    pub fn parse_metadata(&self, trimmed: &Vec<char>, line: usize, document: &mut Document) -> (r:
        Result<bool, Diagnostic>)
        ensures
            match r {
                Ok(true) => spec_metadata(trimmed@, line, old(document)@) == Ok::<
                    Option<DocumentModel>,
                    DiagnosticModel,
                >(Some(final(document)@)),
                Ok(false) => spec_metadata(trimmed@, line, old(document)@) == Ok::<
                    Option<DocumentModel>,
                    DiagnosticModel,
                >(None) && *final(document) == *old(document),
                Err(e) => spec_metadata(trimmed@, line, old(document)@) == Err::<
                    Option<DocumentModel>,
                    DiagnosticModel,
                >(e@) && *final(document) == *old(document),
            },
    {
        if let Some(rest) = strip_prefix(trimmed, "author ") {
            let rest = trim(&rest);
            let author = parse_required_string(&rest, line)?;
            let ghost d0 = document@;
            document.author = Some(author);
            assert(document@ =~= DocumentModel { author: Some(author@), ..d0 });
            return Ok(true);
        }
        if let Some(rest) = strip_prefix(trimmed, "date ") {
            let rest = trim(&rest);
            let ghost d0 = document@;
            if is(&rest, "today") {
                document.date = Some(DateValue::Today);
                assert(document@ =~= DocumentModel { date: Some(DateModel::Today), ..d0 });
            } else {
                let value = parse_required_string(&rest, line)?;
                document.date = Some(DateValue::Literal(value));
                assert(document@ =~= DocumentModel {
                    date: Some(DateModel::Literal(value@)),
                    ..d0
                });
            }
            return Ok(true);
        }
        if let Some(rest) = strip_prefix(trimmed, "use ") {
            let rest = trim(&rest);
            let feature = parse_feature(&rest, line)?;
            let ghost d0 = document@;
            document.uses.insert(feature);
            assert(document@ =~= DocumentModel { uses: d0.uses.with(feature), ..d0 });
            return Ok(true);
        }
        if let Some(rest) = strip_prefix(trimmed, "define ") {
            let rest = trim(&rest);
            let definition = parse_definition(&rest, line)?;
            if already_defined(&document.definitions, &definition.name) {
                let m = message("macro `", &definition.name, "` is already defined");
                return Err(Diagnostic::new(line, &m));
            }
            let ghost d0 = document@;
            let ghost dm = definition.model();
            document.definitions.push(definition);
            assert(definitions_model(document.definitions@) =~= d0.definitions.push(dm));
            assert(document@ =~= DocumentModel { definitions: d0.definitions.push(dm), ..d0 });
            return Ok(true);
        }
        Ok(false)
    }

    /// Handles the statement on the line just taken, which is not `end`.
    pub fn parse_statement(&mut self, line: SourceLine, document: &mut Document) -> (r: Result<
        (),
        Diagnostic,
    >)
        requires
            old(self).wf(),
        ensures
            final(self).wf(),
            final(self).same_lines(*old(self)),
            final(self).position >= old(self).position,
            match r {
                Ok(_) => document_step(
                    line.text@,
                    line.number,
                    old(self).texts(),
                    old(self).position as int,
                    old(document)@,
                ) == Ok::<(DocumentModel, int), (DiagnosticModel, int)>(
                    (final(document)@, final(self).position as int),
                ),
                Err(e) => document_step(
                    line.text@,
                    line.number,
                    old(self).texts(),
                    old(self).position as int,
                    old(document)@,
                ) == Err::<(DocumentModel, int), (DiagnosticModel, int)>(
                    (e@, final(self).position as int),
                ) && *final(document) == *old(document),
            },
    {
        proof {
            reveal(document_step);
        }
        let t = trim(&line.text);
        if self.parse_metadata(&t, line.number, document)? {
            return Ok(());
        }
        let block = self.parse_block_from_line(line)?;
        let ghost d0 = document@;
        document.body.push(block);
        assert(blocks_model(document.body@) =~= d0.body.push(block.model()));
        assert(document@ =~= DocumentModel { body: d0.body.push(block.model()), ..d0 });
        Ok(())
    }

    pub fn parse_document(self) -> (r: Result<Document, Diagnostic>)
        requires
            self.wf(),
            self.position == 0,
        ensures
            outcome(r, |d: Document| d@) == spec_parse_lines(self.texts()),
    {
        let ghost ls = self.texts();
        let ghost lines0 = self.lines@;
        let mut parser = self;
        let opening = match parser.take_significant() {
            Some(l) => l,
            None => {
                return Err(Diagnostic::at(1, "expected `paper \"Title\" do`"));
            },
        };
        let t = trim(&opening.text);
        let title = parse_titled_do(&t, "paper", opening.number)?;
        let mut document = Document {
            title,
            author: None,
            date: None,
            definitions: Vec::new(),
            uses: FeatureSet::empty(),
            body: Vec::new(),
        };
        assert(document@ =~= DocumentModel {
            title: title@,
            author: None,
            date: None,
            definitions: seq![],
            uses: FeatureSet::none(),
            body: seq![],
        });
        let opener = opening.number;
        loop
            invariant
                parser.wf(),
                ls == self.texts(),
                parser.lines@ == lines0,
                parser.texts() == ls,
                1 <= parser.position,
                document_from(ls, parser.position as int, opener, document@) == spec_parse_lines(
                    ls,
                ),
            decreases parser.lines.len() - parser.position,
        {
            let line = match parser.take_significant() {
                Some(l) => l,
                None => {
                    return Err(Diagnostic::at(opener, "unclosed paper block"));
                },
            };
            let t = trim(&line.text);
            if is(&t, "end") {
                return Ok(document);
            }
            parser.parse_statement(line, &mut document)?;
        }
    }
}

/// Whether some definition has the name `name`.
pub fn already_defined(defs: &Vec<Definition>, name: &Vec<char>) -> (b: bool)
    ensures
        b == defines(definitions_model(defs@), name@),
{
    let mut i: usize = 0;
    while i < defs.len()
        invariant
            i <= defs.len(),
            forall|k: int| 0 <= k < i ==> defs@[k].name@ != name@,
        decreases defs.len() - i,
    {
        if same(&defs[i].name, name) {
            assert(definitions_model(defs@)[i as int].name == name@);
            return true;
        }
        i += 1;
    }
    proof {
        if defines(definitions_model(defs@), name@) {
            let k = choose|k: int|
                0 <= k < definitions_model(defs@).len() && definitions_model(defs@)[k].name
                    == name@;
            assert(defs@[k].name@ == name@);
        }
    }
    false
}

/// What `source` parses to, as a document or the first error.
pub fn parse(source: &str) -> (r: Result<Document, Diagnostic>)
    ensures
        outcome(r, |d: Document| d@) == spec_parse(source@),
{
    Parser::new(source).parse_document()
}

} // verus!
