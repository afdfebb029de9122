//! The shape of a parsed document: macro names and parameters, section
//! levels and table rules are always well formed.
use vstd::prelude::*;

use crate::lex::{params_from, spec_parse_definition};
use crate::parser::{
    document_from, document_step, lemma_next_significant, list_from, next_significant, number,
    spec_block, spec_blocks, spec_metadata, spec_parse, table_from, titled,
};
use crate::scan::{spec_is_command_name, spec_is_identifier, spec_split_commas};
use crate::syntax::{Align, BlockModel, DefinitionModel, DocumentModel, InlineModel};
use crate::text::{spec_lines, spec_strip_prefix, spec_trim};

verus! {

/// Each rule stands at a row boundary of the table, and the rules come in
/// order.
pub open spec fn rules_in_order(rules: Seq<usize>, rows: nat) -> bool {
    &&& forall|i: int| 0 <= i < rules.len() ==> rules[i] <= rows
    &&& forall|i: int, j: int| 0 <= i < j < rules.len() ==> rules[i] <= rules[j]
}

/// Sections have levels 1 to 3 and table rules are in order, at any depth.
pub open spec fn block_well_formed(b: BlockModel) -> bool
    decreases b,
{
    match b {
        BlockModel::Abstract(c) => blocks_well_formed(c),
        BlockModel::Quote(c) => blocks_well_formed(c),
        BlockModel::Proof(c) => blocks_well_formed(c),
        BlockModel::Theorem { children, .. } => blocks_well_formed(children),
        BlockModel::Section { level, children, .. } => 1 <= level <= 3 && blocks_well_formed(
            children,
        ),
        BlockModel::Table { rows, rules, .. } => rules_in_order(rules, rows.len()),
        _ => true,
    }
}

pub open spec fn blocks_well_formed(s: Seq<BlockModel>) -> bool
    decreases s,
{
    if s.len() == 0 {
        true
    } else {
        blocks_well_formed(s.drop_last()) && block_well_formed(s.last())
    }
}

/// A macro's name is ASCII letters, and its parameters are distinct
/// identifiers.
pub open spec fn definition_well_formed(d: DefinitionModel) -> bool {
    &&& spec_is_command_name(d.name)
    &&& params_well_formed(d.params)
}

pub open spec fn params_well_formed(ps: Seq<Seq<char>>) -> bool {
    &&& forall|i: int| 0 <= i < ps.len() ==> spec_is_identifier(#[trigger] ps[i])
    &&& forall|i: int, j: int| 0 <= i < j < ps.len() ==> ps[i] != ps[j]
}

pub open spec fn definitions_well_formed(ds: Seq<DefinitionModel>) -> bool {
    forall|k: int| 0 <= k < ds.len() ==> definition_well_formed(#[trigger] ds[k])
}

// ---------------------------------------------------------------------------
// Macro definitions
// ---------------------------------------------------------------------------

proof fn lemma_params_well_formed(pieces: Seq<Seq<char>>, k: int, acc: Seq<Seq<char>>, line: usize)
    requires
        params_well_formed(acc),
    ensures
        params_from(pieces, k, acc, line) matches Ok(ps) ==> params_well_formed(ps),
    decreases pieces.len() - k,
{
    if 0 <= k < pieces.len() {
        let p = spec_trim(pieces[k]);
        if p.len() == 0 {
            lemma_params_well_formed(pieces, k + 1, acc, line);
        } else if spec_is_identifier(p) && !acc.contains(p) {
            let next = acc.push(p);
            assert forall|i: int, j: int| 0 <= i < j < next.len() implies next[i] != next[j] by {
                if j == acc.len() {
                    assert(acc[i] == next[i]);
                }
            }
            assert forall|i: int| 0 <= i < next.len() implies spec_is_identifier(#[trigger] next[i]) by {
                if i < acc.len() {
                    assert(acc[i] == next[i]);
                }
            }
            lemma_params_well_formed(pieces, k + 1, next, line);
        }
    }
}

proof fn lemma_definition_well_formed(input: Seq<char>, line: usize)
    ensures
        spec_parse_definition(input, line) matches Ok(d) ==> definition_well_formed(d),
{
    if let Some((a, b)) = crate::scan::spec_next_identifier(input) {
        let rest = crate::text::spec_trim_start(input.subrange(b, input.len() as int));
        if rest.len() > 0 && rest[0] == '(' {
            let after = rest.subrange(1, rest.len() as int);
            if let Some(c) = crate::scan::spec_matching_close(after, '(', ')') {
                lemma_params_well_formed(
                    spec_split_commas(after.subrange(0, c)),
                    0,
                    seq![],
                    line,
                );
            }
        }
    }
}

// ---------------------------------------------------------------------------
// Blocks
// ---------------------------------------------------------------------------

proof fn lemma_blocks_push(s: Seq<BlockModel>, b: BlockModel)
    requires
        blocks_well_formed(s),
        block_well_formed(b),
    ensures
        blocks_well_formed(s.push(b)),
{
    assert(s.push(b).drop_last() =~= s);
}

proof fn lemma_table_well_formed(
    ls: Seq<Seq<char>>,
    p: int,
    opener: usize,
    columns: Seq<Align>,
    rows: Seq<Seq<Seq<InlineModel>>>,
    rules: Seq<usize>,
    caption: Option<Seq<char>>,
)
    requires
        rules_in_order(rules, rows.len()),
        0 <= p,
        rows.len() <= p,
        ls.len() <= usize::MAX,
    ensures
        table_from(ls, p, opener, columns, rows, rules, caption) matches Ok((b, _))
            ==> block_well_formed(b),
    decreases ls.len() - p,
{
    lemma_next_significant(ls, p);
    {
        if let Some(i) = next_significant(ls, p) {
            let t = spec_trim(ls[i]);
            if let Some(rest) = spec_strip_prefix(t, "columns "@) {
                if let Ok(c) = crate::lex::spec_parse_columns(rest, number(i)) {
                    lemma_table_well_formed(ls, i + 1, opener, c, rows, rules, caption);
                }
            } else if let Some(rest) = spec_strip_prefix(t, "row "@) {
                if let Ok(cells) = crate::parser::spec_row(rest, number(i)) {
                    lemma_table_well_formed(
                        ls,
                        i + 1,
                        opener,
                        columns,
                        rows.push(cells),
                        rules,
                        caption,
                    );
                }
            } else if t == "rule"@ {
                let more = rules.push(rows.len() as usize);
                assert(rules_in_order(more, rows.len()));
                lemma_table_well_formed(ls, i + 1, opener, columns, rows, more, caption);
            } else if let Some(rest) = spec_strip_prefix(t, "caption "@) {
                if let Ok(c) = crate::lex::spec_parse_required_string(spec_trim(rest), number(i)) {
                    lemma_table_well_formed(ls, i + 1, opener, columns, rows, rules, Some(c));
                }
            }
        }
    }
}

proof fn lemma_list_well_formed(
    ls: Seq<Seq<char>>,
    p: int,
    numbered: bool,
    opener: usize,
    acc: Seq<Seq<InlineModel>>,
)
    ensures
        list_from(ls, p, numbered, opener, acc) matches Ok((b, _)) ==> block_well_formed(b),
    decreases ls.len() - p,
{
    if p >= 0 {
        lemma_next_significant(ls, p);
        if let Some(i) = next_significant(ls, p) {
            let t = spec_trim(ls[i]);
            if let Some(rest) = spec_strip_prefix(t, "item "@) {
                if let Ok(item) = crate::inline::spec_inline_list(rest, number(i)) {
                    lemma_list_well_formed(ls, i + 1, numbered, opener, acc.push(item));
                }
            }
        }
    }
}

proof fn lemma_figure_well_formed(
    ls: Seq<Seq<char>>,
    p: int,
    n: usize,
    path: Seq<char>,
    width: Option<Seq<char>>,
    caption: Option<Seq<char>>,
    label: Option<Seq<char>>,
)
    ensures
        crate::parser::figure_from(ls, p, n, path, width, caption, label) matches Ok((b, _))
            ==> block_well_formed(b),
    decreases ls.len() - p,
{
    if p >= 0 {
        lemma_next_significant(ls, p);
        if let Some(i) = next_significant(ls, p) {
            let body = spec_trim(ls[i]);
            if let Some(rest) = spec_strip_prefix(body, "caption "@) {
                if let Ok(c) = crate::lex::spec_parse_required_string(spec_trim(rest), number(i)) {
                    lemma_figure_well_formed(ls, i + 1, n, path, width, Some(c), label);
                }
            } else if let Some(rest) = spec_strip_prefix(body, "label "@) {
                if let Ok(l) = crate::lex::spec_parse_symbol(spec_trim(rest), number(i)) {
                    lemma_figure_well_formed(ls, i + 1, n, path, width, caption, Some(l));
                }
            }
        }
    }
}

proof fn lemma_compare_well_formed(
    ls: Seq<Seq<char>>,
    p: int,
    opener: usize,
    latex: Option<Seq<char>>,
    vitamins: Option<Seq<InlineModel>>,
)
    ensures
        crate::parser::compare_from(ls, p, opener, latex, vitamins) matches Ok((b, _))
            ==> block_well_formed(b),
    decreases ls.len() - p,
{
    if p >= 0 {
        lemma_next_significant(ls, p);
        if let Some(i) = next_significant(ls, p) {
            let t = spec_trim(ls[i]);
            if let Some(rest) = spec_strip_prefix(t, "latex "@) {
                if let Ok(l) = crate::lex::spec_parse_required_string(spec_trim(rest), number(i)) {
                    lemma_compare_well_formed(ls, i + 1, opener, Some(l), vitamins);
                }
            } else if let Some(rest) = spec_strip_prefix(t, "vitamins "@) {
                if let Ok(v) = crate::inline::spec_parse_vitamins_snippet(spec_trim(rest), number(i)) {
                    lemma_compare_well_formed(ls, i + 1, opener, latex, Some(v));
                }
            }
        }
    }
}

proof fn lemma_blocks_well_formed(
    ls: Seq<Seq<char>>,
    p: int,
    opener: usize,
    acc: Seq<BlockModel>,
)
    requires
        blocks_well_formed(acc),
        0 <= p,
        ls.len() <= usize::MAX,
    ensures
        spec_blocks(ls, p, opener, acc) matches Ok((bs, _)) ==> blocks_well_formed(bs),
    decreases ls.len() - p, 1int,
{
    lemma_next_significant(ls, p);
    if let Some(i) = next_significant(ls, p) {
        if spec_trim(ls[i]) != "end"@ {
            lemma_block_well_formed(ls[i], number(i), ls, i + 1);
            if let Ok((b, q)) = spec_block(ls[i], number(i), ls, i + 1) {
                if i < q <= ls.len() {
                    lemma_blocks_push(acc, b);
                    lemma_blocks_well_formed(ls, q, opener, acc.push(b));
                }
            }
        }
    }
}

proof fn lemma_titled_well_formed(
    line: Seq<char>,
    n: usize,
    ls: Seq<Seq<char>>,
    p: int,
    keyword: Seq<char>,
    f: spec_fn(Seq<char>, Seq<BlockModel>) -> BlockModel,
)
    requires
        0 <= p,
        ls.len() <= usize::MAX,
        forall|t: Seq<char>, c: Seq<BlockModel>|
            blocks_well_formed(c) ==> block_well_formed(#[trigger] f(t, c)),
    ensures
        titled(line, n, ls, p, keyword, f) matches Ok((b, _)) ==> block_well_formed(b),
    decreases ls.len() - p, 2int,
{
    lemma_blocks_well_formed(ls, p, n, seq![]);
}

proof fn lemma_block_well_formed(line: Seq<char>, n: usize, ls: Seq<Seq<char>>, p: int)
    requires
        0 <= p,
        ls.len() <= usize::MAX,
    ensures
        spec_block(line, n, ls, p) matches Ok((b, _)) ==> block_well_formed(b),
    decreases ls.len() - p, 3int,
{
    let t = spec_trim(line);
    lemma_blocks_well_formed(ls, p, n, seq![]);
    lemma_table_well_formed(ls, p, n, seq![], seq![], seq![], None);
    lemma_list_well_formed(ls, p, false, n, seq![]);
    lemma_list_well_formed(ls, p, true, n, seq![]);
    lemma_compare_well_formed(ls, p, n, None, None);
    if let Ok(header) = crate::lex::spec_strip_keyword_do(t, "figure"@, n) {
        if let Ok(Some(path)) = crate::lex::spec_parse_string_option(header, "path"@, n) {
            lemma_figure_well_formed(
                ls,
                p,
                n,
                path,
                crate::lex::spec_parse_width_option(header, "width"@),
                None,
                None,
            );
        }
    }
    if crate::text::has_prefix(t, "theorem "@) {
        lemma_titled_well_formed(
            line,
            n,
            ls,
            p,
            "theorem"@,
            |title: Seq<char>, c: Seq<BlockModel>|
                BlockModel::Theorem { title: Some(title), children: c },
        );
    } else if crate::text::has_prefix(t, "section"@) {
        lemma_titled_well_formed(
            line,
            n,
            ls,
            p,
            "section"@,
            |title: Seq<char>, c: Seq<BlockModel>|
                BlockModel::Section { level: 1, title, children: c },
        );
    } else if crate::text::has_prefix(t, "subsection"@) {
        lemma_titled_well_formed(
            line,
            n,
            ls,
            p,
            "subsection"@,
            |title: Seq<char>, c: Seq<BlockModel>|
                BlockModel::Section { level: 2, title, children: c },
        );
    } else if crate::text::has_prefix(t, "subsubsection"@) {
        lemma_titled_well_formed(
            line,
            n,
            ls,
            p,
            "subsubsection"@,
            |title: Seq<char>, c: Seq<BlockModel>|
                BlockModel::Section { level: 3, title, children: c },
        );
    }
}

// ---------------------------------------------------------------------------
// The document
// ---------------------------------------------------------------------------

/// The parts of a document that parsing keeps well formed.
pub open spec fn document_well_formed(doc: DocumentModel) -> bool {
    &&& blocks_well_formed(doc.body)
    &&& definitions_well_formed(doc.definitions)
}

proof fn lemma_step_well_formed(
    line: Seq<char>,
    n: usize,
    ls: Seq<Seq<char>>,
    p: int,
    doc: DocumentModel,
)
    requires
        document_well_formed(doc),
        0 <= p,
        ls.len() <= usize::MAX,
    ensures
        document_step(line, n, ls, p, doc) matches Ok((d, _)) ==> document_well_formed(d),
{
    reveal(document_step);
    lemma_block_well_formed(line, n, ls, p);
    let t = spec_trim(line);
    if let Some(rest) = spec_strip_prefix(t, "define "@) {
        lemma_definition_well_formed(spec_trim(rest), n);
    }
    match spec_metadata(t, n, doc) {
        Ok(Some(d)) => {
            if d.definitions.len() != doc.definitions.len() {
                assert forall|k: int| 0 <= k < d.definitions.len() implies definition_well_formed(
                    #[trigger] d.definitions[k],
                ) by {
                    if k < doc.definitions.len() {
                        assert(d.definitions[k] == doc.definitions[k]);
                    }
                }
            }
        },
        Ok(None) => {
            if let Ok((b, q)) = spec_block(line, n, ls, p) {
                lemma_blocks_push(doc.body, b);
            }
        },
        _ => {},
    }
}

proof fn lemma_document_well_formed(ls: Seq<Seq<char>>, p: int, opening: usize, doc: DocumentModel)
    requires
        document_well_formed(doc),
        0 <= p,
        ls.len() <= usize::MAX,
    ensures
        document_from(ls, p, opening, doc) matches Ok(d) ==> document_well_formed(d),
    decreases ls.len() - p,
{
    lemma_next_significant(ls, p);
    if let Some(i) = next_significant(ls, p) {
        if spec_trim(ls[i]) != "end"@ {
            lemma_step_well_formed(ls[i], number(i), ls, i + 1, doc);
            if let Ok((d, q)) = document_step(ls[i], number(i), ls, i + 1, doc) {
                if i < q <= ls.len() {
                    lemma_document_well_formed(ls, q, opening, d);
                }
            }
        }
    }
}

/// A document that parses is well formed: each macro name is made of ASCII
/// letters and its parameters are distinct identifiers, every section at any
/// depth has level 1, 2 or 3, and every table's rules come in order, each at
/// a row boundary.
pub proof fn law_parsed_well_formed(source: Seq<char>)
    requires
        source.len() <= usize::MAX,
    ensures
        spec_parse(source) matches Ok(doc) ==> document_well_formed(doc),
{
    let ls = spec_lines(source);
    crate::text::lemma_lines_from_len(source, 0);
    lemma_next_significant(ls, 0);
    if let Some(i) = next_significant(ls, 0) {
        if let Ok(title) = crate::lex::spec_parse_titled_do(spec_trim(ls[i]), "paper"@, number(i)) {
            let start = DocumentModel {
                title,
                author: None,
                date: None,
                definitions: seq![],
                uses: crate::syntax::FeatureSet::none(),
                body: seq![],
            };
            lemma_document_well_formed(ls, i + 1, number(i), start);
        }
    }
}

} // verus!
