//! What the renderer's pieces mean: built-in functions render as the
//! command of the same name, plain characters of math are kept, column
//! words name their alignment, and the content of a document decides its
//! packages.
use vstd::prelude::*;

use crate::emit::{line, spec_emit_document};
use crate::features::{block_features, blocks_features, inline_features, inlines_features, spec_detect_features};
use crate::laws::lemma_split_single;
use crate::math::{find_definition, render_args, spec_render_call, spec_render_expr, spec_rewrite_tokens, tokens_from};
use crate::scan::spec_split_commas;
use crate::syntax::{Align, BlockModel, DefinitionModel, DocumentModel, InlineModel};
use crate::text::{is_ident_start, occurs_at, spec_trim};

verus! {

// ---------------------------------------------------------------------------
// Built-in functions
// ---------------------------------------------------------------------------

/// The arguments of a call with one top-level piece: that piece, rendered.
proof fn lemma_one_arg(body: Seq<char>, defs: Seq<DefinitionModel>)
    requires
        spec_split_commas(body).len() == 1,
    ensures
        render_args(body, 0, defs) == seq![spec_render_expr(spec_trim(body), defs)],
{
    let pieces = spec_split_commas(body);
    assert(render_args(body, 1, defs) =~= Seq::<Seq<char>>::empty());
    lemma_split_single(body);
    assert(render_args(body, 0, defs) =~= seq![spec_render_expr(spec_trim(pieces[0]), defs)]);
}

/// The names of the built-in functions, told apart.
proof fn lemma_builtin_names()
    ensures
        "frac"@.len() == 4 && "sqrt"@.len() == 4 && "exp"@.len() == 3 && "cos"@.len() == 3
            && "sin"@.len() == 3 && "log"@.len() == 3 && "mathbb"@.len() == 6 && "norm"@.len()
            == 4,
        "frac"@[0] == 'f' && "sqrt"@[0] == 's' && "exp"@[0] == 'e' && "cos"@[0] == 'c'
            && "sin"@[0] == 's' && "log"@[0] == 'l' && "mathbb"@[0] == 'm' && "norm"@[0] == 'n',
        "sqrt"@[1] == 'q' && "sin"@[1] == 'i',
{
    reveal_strlit("frac");
    reveal_strlit("sqrt");
    reveal_strlit("exp");
    reveal_strlit("cos");
    reveal_strlit("sin");
    reveal_strlit("log");
    reveal_strlit("mathbb");
    reveal_strlit("norm");
}

/// A one-argument call of `exp`, `cos`, `sin` or `log`, when the document
/// defines no macro of that name taking one argument, renders as the LaTeX
/// command of the same name applied to the rendered argument in
/// `\left(`...`\right)`.
pub proof fn law_builtin_functions(name: Seq<char>, body: Seq<char>, defs: Seq<DefinitionModel>)
    requires
        name == "exp"@ || name == "cos"@ || name == "sin"@ || name == "log"@,
        spec_split_commas(body).len() == 1,
        find_definition(defs, name, 1) is None,
    ensures
        spec_render_call(name, body, defs) == "\\"@ + name + "\\left("@ + spec_render_expr(
            spec_trim(body),
            defs,
        ) + "\\right)"@,
{
    lemma_one_arg(body, defs);
    lemma_builtin_names();
    reveal_strlit("frac");
    reveal_strlit("sqrt");
    reveal_strlit("exp");
    reveal_strlit("cos");
    reveal_strlit("sin");
    reveal_strlit("log");
    reveal_strlit("mathbb");
    reveal_strlit("\\");
    reveal_strlit("\\left(");
    reveal_strlit("\\exp\\left(");
    reveal_strlit("\\cos\\left(");
    reveal_strlit("\\sin\\left(");
    reveal_strlit("\\log\\left(");
    let arg = spec_render_expr(spec_trim(body), defs);
    assert(name != "frac"@ && name != "sqrt"@) by {
        if name == "frac"@ || name == "sqrt"@ {
            assert(name.len() == 4);
        }
    }
    if name == "exp"@ {
        assert("\\exp\\left("@ =~= "\\"@ + name + "\\left("@);
    } else if name == "cos"@ {
        assert(name != "exp"@) by {
            assert(name[0] != "exp"@[0]);
        }
        assert("\\cos\\left("@ =~= "\\"@ + name + "\\left("@);
    } else if name == "sin"@ {
        assert(name != "exp"@ && name != "cos"@) by {
            assert(name[0] == 's');
        }
        assert("\\sin\\left("@ =~= "\\"@ + name + "\\left("@);
    } else {
        assert(name != "exp"@ && name != "cos"@ && name != "sin"@) by {
            assert(name[0] == 'l');
        }
        assert("\\log\\left("@ =~= "\\"@ + name + "\\left("@);
    }
}

/// A one-argument call of `sqrt` or `mathbb`, with no macro of that name and
/// arity, renders as the command of the same name with the rendered argument
/// in braces; `frac` of two arguments renders as `\frac{..}{..}`.
pub proof fn law_builtin_braced(name: Seq<char>, body: Seq<char>, defs: Seq<DefinitionModel>)
    requires
        name == "sqrt"@ || name == "mathbb"@,
        spec_split_commas(body).len() == 1,
        find_definition(defs, name, 1) is None,
    ensures
        spec_render_call(name, body, defs) == "\\"@ + name + "{"@ + spec_render_expr(
            spec_trim(body),
            defs,
        ) + "}"@,
{
    lemma_one_arg(body, defs);
    lemma_builtin_names();
    reveal_strlit("frac");
    reveal_strlit("sqrt");
    reveal_strlit("exp");
    reveal_strlit("cos");
    reveal_strlit("sin");
    reveal_strlit("log");
    reveal_strlit("mathbb");
    reveal_strlit("\\");
    reveal_strlit("{");
    reveal_strlit("\\sqrt{");
    reveal_strlit("\\mathbb{");
    assert(name != "frac"@) by {
        assert(name[0] != 'f');
    }
    if name == "sqrt"@ {
        assert("\\sqrt{"@ =~= "\\"@ + name + "{"@);
    } else {
        assert(name != "sqrt"@ && name != "exp"@ && name != "cos"@ && name != "sin"@ && name
            != "log"@) by {
            assert(name.len() == 6);
        }
        assert("\\mathbb{"@ =~= "\\"@ + name + "{"@);
    }
}

/// `frac` of two arguments, with no macro `frac` of two parameters, renders
/// as `\frac{TOP}{BOTTOM}` of the two rendered arguments, in order.
pub proof fn law_builtin_frac(body: Seq<char>, defs: Seq<DefinitionModel>)
    requires
        spec_split_commas(body).len() == 2,
        find_definition(defs, "frac"@, 2) is None,
    ensures
        spec_render_call("frac"@, body, defs) == "\\frac{"@ + spec_render_expr(
            spec_trim(spec_split_commas(body)[0]),
            defs,
        ) + "}{"@ + spec_render_expr(spec_trim(spec_split_commas(body)[1]), defs) + "}"@,
{
    let pieces = spec_split_commas(body);
    assert(render_args(body, 2, defs) =~= Seq::<Seq<char>>::empty());
    assert(render_args(body, 1, defs) =~= seq![spec_render_expr(spec_trim(pieces[1]), defs)]);
    assert(render_args(body, 0, defs) =~= seq![
        spec_render_expr(spec_trim(pieces[0]), defs),
        spec_render_expr(spec_trim(pieces[1]), defs),
    ]);
}

// ---------------------------------------------------------------------------
// Operator tokens
// ---------------------------------------------------------------------------

/// A character of math that no rewriting rule touches: not the start of a
/// word, not a backslash, not `*`, and not `=` (which alone makes `==`,
/// `>=`, `<=` and `!=`).
pub open spec fn plain_math_char(c: char) -> bool {
    !is_ident_start(c) && c != '\\' && c != '*' && c != '='
}

/// A plain character is kept as it is, wherever it stands, unless it is one
/// of `>`, `<`, `!` directly followed by `=`.
pub proof fn law_plain_char_kept(s: Seq<char>, i: int)
    requires
        0 <= i < s.len(),
        plain_math_char(s[i]),
        i + 1 < s.len() && s[i + 1] == '=' ==> s[i] != '>' && s[i] != '<' && s[i] != '!',
    ensures
        tokens_from(s, i) == seq![s[i]] + tokens_from(s, i + 1),
{
}

/// Text made of plain characters only comes out of token rewriting as it
/// went in: `<`, `>`, `!`, digits, spaces, brackets and the like are kept.
pub proof fn law_plain_math_unchanged(s: Seq<char>)
    requires
        forall|k: int| 0 <= k < s.len() ==> plain_math_char(#[trigger] s[k]),
    ensures
        spec_rewrite_tokens(s) == s,
{
    lemma_plain_from(s, 0);
    assert(s.subrange(0, s.len() as int) =~= s);
}

proof fn lemma_plain_from(s: Seq<char>, i: int)
    requires
        0 <= i <= s.len(),
        forall|k: int| 0 <= k < s.len() ==> plain_math_char(#[trigger] s[k]),
    ensures
        tokens_from(s, i) == s.subrange(i, s.len() as int),
    decreases s.len() - i,
{
    if i < s.len() {
        assert(plain_math_char(s[i]));
        if i + 1 < s.len() {
            assert(plain_math_char(s[i + 1]));
        }
        lemma_plain_from(s, i + 1);
        assert(seq![s[i]] + s.subrange(i + 1, s.len() as int) =~= s.subrange(i, s.len() as int));
    } else {
        assert(s.subrange(i, s.len() as int) =~= Seq::<char>::empty());
    }
}

/// The operators of math and the words written as symbols: `==` is `=`,
/// `>=`, `<=`, `!=` and `*` are `\ge`, `\le`, `\ne` and `\cdot` (with a
/// space before a following letter), `pi` and `infinity` are `\pi` and
/// `\infty`, and any other word is kept.
pub proof fn law_operator_tokens(s: Seq<char>, i: int)
    requires
        0 <= i < s.len(),
    ensures
        i + 1 < s.len() && s[i] == '=' && s[i + 1] == '=' ==> tokens_from(s, i) == seq!['=']
            + tokens_from(s, i + 2),
        i + 1 < s.len() && s[i] == '>' && s[i + 1] == '=' ==> tokens_from(s, i) == "\\ge"@
            + crate::math::spacer(s, i + 2) + tokens_from(s, i + 2),
        i + 1 < s.len() && s[i] == '<' && s[i + 1] == '=' ==> tokens_from(s, i) == "\\le"@
            + crate::math::spacer(s, i + 2) + tokens_from(s, i + 2),
        i + 1 < s.len() && s[i] == '!' && s[i + 1] == '=' ==> tokens_from(s, i) == "\\ne"@
            + crate::math::spacer(s, i + 2) + tokens_from(s, i + 2),
        s[i] == '*' ==> tokens_from(s, i) == "\\cdot"@ + crate::math::spacer(s, i + 1)
            + tokens_from(s, i + 1),
        is_ident_start(s[i]) ==> {
            let j = crate::scan::ident_end_from(s, i + 1);
            let w = s.subrange(i, j);
            tokens_from(s, i) == (if w == "pi"@ {
                "\\pi"@
            } else if w == "infinity"@ {
                "\\infty"@
            } else {
                w
            }) + tokens_from(s, j)
        },
{
}

// ---------------------------------------------------------------------------
// Table columns
// ---------------------------------------------------------------------------

/// Each column word names its alignment: `left`/`:left` is left,
/// `center`/`:center` is centered, `right`/`:right` is right, and any other
/// word is refused.
pub proof fn law_column_words(s: Seq<char>, line: usize)
    ensures
        (crate::lex::spec_parse_column(s, line) == Ok::<Align, crate::diagnostic::DiagnosticModel>(
            Align::Left,
        )) <==> (s == "left"@ || s == ":left"@),
        (crate::lex::spec_parse_column(s, line) == Ok::<Align, crate::diagnostic::DiagnosticModel>(
            Align::Center,
        )) <==> (s == "center"@ || s == ":center"@),
        (crate::lex::spec_parse_column(s, line) == Ok::<Align, crate::diagnostic::DiagnosticModel>(
            Align::Right,
        )) <==> (s == "right"@ || s == ":right"@),
        crate::lex::spec_parse_column(s, line) is Err <==> !(s == "left"@ || s == ":left"@
            || s == "center"@ || s == ":center"@ || s == "right"@ || s == ":right"@),
{
    reveal_strlit("left");
    reveal_strlit(":left");
    reveal_strlit("center");
    reveal_strlit(":center");
    reveal_strlit("right");
    reveal_strlit(":right");
    assert("left"@.len() == 4 && ":left"@.len() == 5 && "center"@.len() == 6);
    assert(":center"@.len() == 7 && "right"@.len() == 5 && ":right"@.len() == 6);
    assert("left"@ != ":left"@ && "left"@ != "center"@ && "left"@ != ":center"@);
    assert("left"@ != "right"@ && "left"@ != ":right"@);
    assert(":left"@[0] != "right"@[0]);
    assert(":left"@ != "right"@ && ":left"@ != "center"@ && ":left"@ != ":center"@);
    assert(":left"@ != ":right"@);
    assert("center"@[0] != ":right"@[0]);
    assert("center"@ != ":right"@ && "center"@ != "right"@ && "center"@ != ":center"@);
    assert(":center"@ != "right"@ && ":center"@ != ":right"@);
}

/// A list of columns is one alignment per top-level piece, each piece read
/// as a column word once trimmed; it is refused exactly when a piece is.
pub proof fn law_column_list(input: Seq<char>, line: usize)
    ensures
        crate::lex::spec_parse_columns(input, line) matches Ok(cols) ==> cols.len()
            == spec_split_commas(input).len() && forall|k: int|
            0 <= k < cols.len() ==> crate::lex::spec_parse_column(
                spec_trim(#[trigger] spec_split_commas(input)[k]),
                line,
            ) == Ok::<Align, crate::diagnostic::DiagnosticModel>(cols[k]),
        crate::lex::spec_parse_columns(input, line) is Err <==> exists|k: int|
            0 <= k < spec_split_commas(input).len() && crate::lex::spec_parse_column(
                spec_trim(#[trigger] spec_split_commas(input)[k]),
                line,
            ) is Err,
{
    let pieces = spec_split_commas(input);
    lemma_columns_from(pieces, 0, line);
    if let Ok(cols) = crate::lex::spec_parse_columns(input, line) {
        assert forall|k: int| 0 <= k < cols.len() implies crate::lex::spec_parse_column(
            spec_trim(#[trigger] pieces[k]),
            line,
        ) == Ok::<Align, crate::diagnostic::DiagnosticModel>(cols[k]) by {
            assert(pieces[0 + k] == pieces[k]);
        }
    }
}

proof fn lemma_columns_from(pieces: Seq<Seq<char>>, k: int, line: usize)
    requires
        0 <= k <= pieces.len(),
    ensures
        crate::lex::columns_from(pieces, k, line) matches Ok(cols) ==> cols.len() == pieces.len()
            - k && forall|j: int|
            0 <= j < cols.len() ==> crate::lex::spec_parse_column(
                spec_trim(#[trigger] pieces[k + j]),
                line,
            ) == Ok::<Align, crate::diagnostic::DiagnosticModel>(cols[j]),
        crate::lex::columns_from(pieces, k, line) is Err <==> exists|j: int|
            k <= j < pieces.len() && crate::lex::spec_parse_column(
                spec_trim(#[trigger] pieces[j]),
                line,
            ) is Err,
    decreases pieces.len() - k,
{
    if k < pieces.len() {
        lemma_columns_from(pieces, k + 1, line);
        if let Ok(a) = crate::lex::spec_parse_column(spec_trim(pieces[k]), line) {
            if let Ok(rest) = crate::lex::columns_from(pieces, k + 1, line) {
                let cols = seq![a] + rest;
                assert forall|j: int| 0 <= j < cols.len() implies crate::lex::spec_parse_column(
                    spec_trim(#[trigger] pieces[k + j]),
                    line,
                ) == Ok::<Align, crate::diagnostic::DiagnosticModel>(cols[j]) by {
                    if j > 0 {
                        assert(pieces[k + j] == pieces[(k + 1) + (j - 1)]);
                    }
                }
            }
        }
    }
}

// ---------------------------------------------------------------------------
// Packages
// ---------------------------------------------------------------------------

/// `inner` is `b` or stands inside it, at any depth.
pub open spec fn block_holds(b: BlockModel, inner: BlockModel) -> bool
    decreases b,
{
    b == inner || match b {
        BlockModel::Abstract(c) => blocks_hold(c, inner),
        BlockModel::Quote(c) => blocks_hold(c, inner),
        BlockModel::Proof(c) => blocks_hold(c, inner),
        BlockModel::Section { children, .. } => blocks_hold(children, inner),
        BlockModel::Theorem { children, .. } => blocks_hold(children, inner),
        _ => false,
    }
}

/// `inner` stands in one of the blocks, at any depth.
pub open spec fn blocks_hold(s: Seq<BlockModel>, inner: BlockModel) -> bool
    decreases s,
{
    if s.len() == 0 {
        false
    } else {
        blocks_hold(s.drop_last(), inner) || block_holds(s.last(), inner)
    }
}

/// `inner` is `i` or stands inside its formatting, at any depth.
pub open spec fn inline_holds(i: InlineModel, inner: InlineModel) -> bool
    decreases i,
{
    i == inner || match i {
        InlineModel::Bold(c) => inlines_hold(c, inner),
        InlineModel::Italic(c) => inlines_hold(c, inner),
        InlineModel::SmallCaps(c) => inlines_hold(c, inner),
        _ => false,
    }
}

/// `inner` stands in one of the inline items, at any depth.
pub open spec fn inlines_hold(s: Seq<InlineModel>, inner: InlineModel) -> bool
    decreases s,
{
    if s.len() == 0 {
        false
    } else {
        inlines_hold(s.drop_last(), inner) || inline_holds(s.last(), inner)
    }
}

proof fn lemma_block_holds(b: BlockModel, inner: BlockModel, f: crate::syntax::Feature)
    requires
        block_holds(b, inner),
        block_features(inner).has(f),
    ensures
        block_features(b).has(f),
    decreases b,
{
    if b != inner {
        match b {
            BlockModel::Abstract(c) => lemma_blocks_hold(c, inner, f),
            BlockModel::Quote(c) => lemma_blocks_hold(c, inner, f),
            BlockModel::Proof(c) => lemma_blocks_hold(c, inner, f),
            BlockModel::Section { children, .. } => lemma_blocks_hold(children, inner, f),
            BlockModel::Theorem { children, .. } => lemma_blocks_hold(children, inner, f),
            _ => {},
        }
    }
}

proof fn lemma_blocks_hold(s: Seq<BlockModel>, inner: BlockModel, f: crate::syntax::Feature)
    requires
        blocks_hold(s, inner),
        block_features(inner).has(f),
    ensures
        blocks_features(s).has(f),
    decreases s,
{
    if s.len() > 0 {
        if blocks_hold(s.drop_last(), inner) {
            lemma_blocks_hold(s.drop_last(), inner, f);
        } else {
            lemma_block_holds(s.last(), inner, f);
        }
    }
}

proof fn lemma_inline_holds(i: InlineModel, inner: InlineModel, f: crate::syntax::Feature)
    requires
        inline_holds(i, inner),
        inline_features(inner).has(f),
    ensures
        inline_features(i).has(f),
    decreases i,
{
    if i != inner {
        match i {
            InlineModel::Bold(c) => lemma_inlines_hold(c, inner, f),
            InlineModel::Italic(c) => lemma_inlines_hold(c, inner, f),
            InlineModel::SmallCaps(c) => lemma_inlines_hold(c, inner, f),
            _ => {},
        }
    }
}

proof fn lemma_inlines_hold(s: Seq<InlineModel>, inner: InlineModel, f: crate::syntax::Feature)
    requires
        inlines_hold(s, inner),
        inline_features(inner).has(f),
    ensures
        inlines_features(s).has(f),
    decreases s,
{
    if s.len() > 0 {
        if inlines_hold(s.drop_last(), inner) {
            lemma_inlines_hold(s.drop_last(), inner, f);
        } else {
            lemma_inline_holds(s.last(), inner, f);
        }
    }
}

/// The math packages are loaded when the document needs math: the line
/// `\usepackage{amsmath}` comes right after the document class.
proof fn lemma_math_line(doc: DocumentModel)
    requires
        spec_detect_features(doc).math,
    ensures
        occurs_at(
            spec_emit_document(doc),
            line("\\usepackage{amsmath}"@),
            line("\\documentclass{article}"@).len() as int,
        ),
{
    crate::laws::law_math_preamble(doc);
    let out = spec_emit_document(doc);
    let a = line("\\documentclass{article}"@);
    let m = line("\\usepackage{amsmath}"@);
    assert(out.subrange(a.len() as int, (a.len() + m.len()) as int) =~= (a + m).subrange(
        a.len() as int,
        (a.len() + m.len()) as int,
    ));
    assert((a + m).subrange(a.len() as int, (a.len() + m.len()) as int) =~= m);
}

/// The content of a document decides its packages. A theorem or a proof
/// anywhere in the body makes the LaTeX load `amsthm` and declare the
/// `theorem` environment; an equation anywhere loads `amsmath`; a figure
/// anywhere loads `graphicx`.
pub proof fn law_content_packages(doc: DocumentModel, inner: BlockModel)
    requires
        blocks_hold(doc.body, inner),
    ensures
        (inner is Theorem || inner is Proof) ==> (exists|i: int|
            occurs_at(spec_emit_document(doc), line("\\usepackage{amsthm}"@), i)) && (exists|
            i: int,
        | occurs_at(spec_emit_document(doc), line("\\newtheorem{theorem}{Theorem}"@), i)),
        inner is Equation ==> exists|i: int|
            occurs_at(spec_emit_document(doc), line("\\usepackage{amsmath}"@), i),
        inner is Figure ==> exists|i: int|
            occurs_at(spec_emit_document(doc), line("\\usepackage{graphicx}"@), i),
{
    crate::laws::law_preamble_packages(doc);
    if inner is Theorem || inner is Proof {
        lemma_blocks_hold(doc.body, inner, crate::syntax::Feature::Theorem);
    }
    if inner is Equation {
        lemma_blocks_hold(doc.body, inner, crate::syntax::Feature::Math);
        lemma_math_line(doc);
    }
    if inner is Figure {
        lemma_blocks_hold(doc.body, inner, crate::syntax::Feature::Graphics);
    }
}

/// `x` stands, at any depth, in the inline content of `host`: a paragraph,
/// an entry of a list, the `vitamins` half of a comparison, or a table cell.
pub open spec fn content_holds(host: BlockModel, x: InlineModel) -> bool {
    match host {
        BlockModel::Paragraph(is) => inlines_hold(is, x),
        BlockModel::Items(items) => exists|k: int|
            0 <= k < items.len() && inlines_hold(#[trigger] items[k], x),
        BlockModel::Steps(items) => exists|k: int|
            0 <= k < items.len() && inlines_hold(#[trigger] items[k], x),
        BlockModel::Compare { vitamins, .. } => inlines_hold(vitamins, x),
        BlockModel::Table { rows, .. } => exists|r: int, c: int|
            0 <= r < rows.len() && 0 <= c < rows[r].len() && inlines_hold(
                #[trigger] rows[r][c],
                x,
            ),
        _ => false,
    }
}

proof fn lemma_lists_kept(items: Seq<Seq<InlineModel>>, k: int, f: crate::syntax::Feature)
    requires
        0 <= k < items.len(),
        inlines_features(items[k]).has(f),
    ensures
        crate::features::lists_features(items).has(f),
    decreases items.len(),
{
    if k < items.len() - 1 {
        lemma_lists_kept(items.drop_last(), k, f);
        assert(items.drop_last()[k] == items[k]);
    }
}

proof fn lemma_rows_kept(rows: Seq<Seq<Seq<InlineModel>>>, r: int, c: int, f: crate::syntax::Feature)
    requires
        0 <= r < rows.len(),
        0 <= c < rows[r].len(),
        inlines_features(rows[r][c]).has(f),
    ensures
        crate::features::rows_features(rows).has(f),
    decreases rows.len(),
{
    if r < rows.len() - 1 {
        lemma_rows_kept(rows.drop_last(), r, c, f);
        assert(rows.drop_last()[r] == rows[r]);
    } else {
        lemma_lists_kept(rows[r], c, f);
    }
}

/// Inline math anywhere in the inline content of a block anywhere in the
/// body (a paragraph, a list entry, a comparison, a table cell) makes the
/// LaTeX load `amsmath`.
pub proof fn law_inline_math_package(doc: DocumentModel, host: BlockModel, expr: Seq<char>)
    requires
        blocks_hold(doc.body, host),
        content_holds(host, InlineModel::Math(expr)),
    ensures
        exists|i: int| occurs_at(spec_emit_document(doc), line("\\usepackage{amsmath}"@), i),
{
    let x = InlineModel::Math(expr);
    let m = crate::syntax::Feature::Math;
    assert(inline_features(x).has(m));
    match host {
        BlockModel::Paragraph(is) => {
            lemma_inlines_hold(is, x, m);
        },
        BlockModel::Items(items) => {
            let k = choose|k: int| 0 <= k < items.len() && inlines_hold(#[trigger] items[k], x);
            lemma_inlines_hold(items[k], x, m);
            lemma_lists_kept(items, k, m);
        },
        BlockModel::Steps(items) => {
            let k = choose|k: int| 0 <= k < items.len() && inlines_hold(#[trigger] items[k], x);
            lemma_inlines_hold(items[k], x, m);
            lemma_lists_kept(items, k, m);
        },
        BlockModel::Compare { vitamins, .. } => {
            lemma_inlines_hold(vitamins, x, m);
        },
        BlockModel::Table { rows, .. } => {
            let (r, c) = choose|r: int, c: int|
                0 <= r < rows.len() && 0 <= c < rows[r].len() && inlines_hold(
                    #[trigger] rows[r][c],
                    x,
                );
            lemma_inlines_hold(rows[r][c], x, m);
            lemma_rows_kept(rows, r, c, m);
        },
        _ => {},
    }
    lemma_blocks_hold(doc.body, host, m);
    lemma_math_line(doc);
}

// ---------------------------------------------------------------------------
// More of the math renderer
// ---------------------------------------------------------------------------

/// One rendered argument for each top-level piece of the call's body.
proof fn lemma_args_len(body: Seq<char>, k: int, defs: Seq<DefinitionModel>)
    requires
        0 <= k <= spec_split_commas(body).len(),
    ensures
        render_args(body, k, defs).len() == spec_split_commas(body).len() - k,
    decreases spec_split_commas(body).len() - k,
{
    if k < spec_split_commas(body).len() {
        lemma_args_len(body, k + 1, defs);
    }
}

/// A call of a function that is neither built in nor a macro of the
/// document with that many parameters is written as the name applied to its
/// rendered arguments, separated by `, `, in `\left(`...`\right)`.
pub proof fn law_unknown_function(name: Seq<char>, body: Seq<char>, defs: Seq<DefinitionModel>)
    requires
        name != "frac"@ && name != "sqrt"@ && name != "exp"@ && name != "cos"@ && name
            != "sin"@ && name != "log"@ && name != "mathbb"@ && name != "norm"@,
        find_definition(defs, name, spec_split_commas(body).len()) is None,
    ensures
        spec_render_call(name, body, defs) == name + "\\left("@ + crate::math::joined(
            render_args(body, 0, defs),
            ", "@,
        ) + "\\right)"@,
{
    crate::scan::lemma_split_commas(body);
    lemma_args_len(body, 0, defs);
}

// ---------------------------------------------------------------------------
// Escaping
// ---------------------------------------------------------------------------

/// The characters that LaTeX treats specially are escaped: `&`, `%`, `$`,
/// `#`, `_`, `{` and `}` get a backslash before them, and `~`, `^` and `\`
/// become the commands that print them.
pub proof fn law_escape_specials(c: char)
    ensures
        (c == '&' || c == '%' || c == '$' || c == '#' || c == '_' || c == '{' || c == '}')
            ==> crate::emit::spec_escape_latex(seq![c]) == seq!['\\', c],
        c == '~' ==> crate::emit::spec_escape_latex(seq![c]) == "\\textasciitilde{}"@,
        c == '^' ==> crate::emit::spec_escape_latex(seq![c]) == "\\textasciicircum{}"@,
        c == '\\' ==> crate::emit::spec_escape_latex(seq![c]) == "\\textbackslash{}"@,
{
    assert(seq![c].drop_last() =~= Seq::<char>::empty());
    assert(crate::emit::spec_escape_latex(Seq::<char>::empty()) =~= Seq::<char>::empty());
    let e = crate::emit::escape_char(c);
    assert(crate::emit::spec_escape_latex(seq![c]) =~= e);
    reveal_strlit("\\&");
    reveal_strlit("\\%");
    reveal_strlit("\\$");
    reveal_strlit("\\#");
    reveal_strlit("\\_");
    reveal_strlit("\\{");
    reveal_strlit("\\}");
    if c == '&' || c == '%' || c == '$' || c == '#' || c == '_' || c == '{' || c == '}' {
        assert(e =~= seq!['\\', c]);
    }
}

/// An identifier for `\label`, `\ref` or `\cite` keeps its letters, digits
/// and the characters `: _ - . /`, and has `-` in place of any other, one
/// character for one.
pub proof fn law_latex_identifier(s: Seq<char>)
    ensures
        crate::emit::spec_latex_identifier(s).len() == s.len(),
        forall|i: int|
            0 <= i < s.len() ==> (#[trigger] crate::emit::spec_latex_identifier(s)[i]) == if (
            crate::text::is_alnum(s[i]) || s[i] == ':' || s[i] == '_' || s[i] == '-' || s[i]
                == '.' || s[i] == '/') {
                s[i]
            } else {
                '-'
            },
{
}

// ---------------------------------------------------------------------------
// Headings and lists
// ---------------------------------------------------------------------------

/// A section of level 1, 2 or 3 is headed by `\section`, `\subsection` or
/// `\subsubsection` with its escaped title, followed by its children.
pub proof fn law_section_heading(
    level: u8,
    title: Seq<char>,
    children: Seq<BlockModel>,
    defs: Seq<DefinitionModel>,
)
    requires
        1 <= level <= 3,
    ensures
        crate::emit::spec_emit_block(BlockModel::Section { level, title, children }, defs) == line(
            "\\"@ + (if level == 1 {
                "section"@
            } else if level == 2 {
                "subsection"@
            } else {
                "subsubsection"@
            }) + "{"@ + crate::emit::spec_escape_latex(title) + "}"@,
        ) + crate::emit::spec_emit_blocks(children, defs),
{
}

/// Items are an `itemize` list and steps an `enumerate` list, one `\item`
/// line per entry in order.
pub proof fn law_list_environments(items: Seq<Seq<InlineModel>>, defs: Seq<DefinitionModel>)
    ensures
        crate::emit::spec_emit_block(BlockModel::Items(items), defs) == line(
            "\\begin{itemize}"@,
        ) + crate::emit::spec_items(items, defs) + line("\\end{itemize}"@),
        crate::emit::spec_emit_block(BlockModel::Steps(items), defs) == line(
            "\\begin{enumerate}"@,
        ) + crate::emit::spec_items(items, defs) + line("\\end{enumerate}"@),
        items.len() > 0 ==> crate::emit::spec_items(items, defs) == crate::emit::spec_items(
            items.drop_last(),
            defs,
        ) + line("\\item "@ + crate::emit::spec_render_sequence(items.last(), defs)),
{
    reveal_strlit("\\begin{");
    reveal_strlit("itemize");
    reveal_strlit("enumerate");
    reveal_strlit("}");
    reveal_strlit("\\end{");
    reveal_strlit("\\begin{itemize}");
    reveal_strlit("\\end{itemize}");
    reveal_strlit("\\begin{enumerate}");
    reveal_strlit("\\end{enumerate}");
    assert("\\begin{"@ + "itemize"@ + "}"@ =~= "\\begin{itemize}"@);
    assert("\\end{"@ + "itemize"@ + "}"@ =~= "\\end{itemize}"@);
    assert("\\begin{"@ + "enumerate"@ + "}"@ =~= "\\begin{enumerate}"@);
    assert("\\end{"@ + "enumerate"@ + "}"@ =~= "\\end{enumerate}"@);
}

// ---------------------------------------------------------------------------
// Inline styles, spacing and features
// ---------------------------------------------------------------------------

/// `bold(..)`, `italic(..)` and `small_caps(..)` make bold, italic and small
/// capitals of the inline items in the parentheses.
pub proof fn law_style_calls(s: Seq<char>, line: usize)
    ensures
        crate::inline::spec_call_body(s, "bold"@) matches Some(body) ==> crate::inline::spec_inline_atom(
            s,
            line,
        ) == match crate::inline::spec_inline_list(body, line) {
            Ok(c) => Ok::<InlineModel, crate::diagnostic::DiagnosticModel>(InlineModel::Bold(c)),
            Err(e) => Err(e),
        },
        crate::inline::spec_call_body(s, "italic"@) matches Some(body)
            ==> crate::inline::spec_inline_atom(s, line) == match crate::inline::spec_inline_list(
            body,
            line,
        ) {
            Ok(c) => Ok::<InlineModel, crate::diagnostic::DiagnosticModel>(InlineModel::Italic(c)),
            Err(e) => Err(e),
        },
        crate::inline::spec_call_body(s, "small_caps"@) matches Some(body)
            ==> crate::inline::spec_inline_atom(s, line) == match crate::inline::spec_inline_list(
            body,
            line,
        ) {
            Ok(c) => Ok::<InlineModel, crate::diagnostic::DiagnosticModel>(
                InlineModel::SmallCaps(c),
            ),
            Err(e) => Err(e),
        },
{
    reveal_strlit("bold");
    reveal_strlit("italic");
    reveal_strlit("small_caps");
    reveal_strlit("bold ");
    reveal_strlit("italic ");
    if crate::inline::spec_call_body(s, "bold"@) is Some {
        assert(s.subrange(0, 4) =~= "bold"@);
        assert("bold"@[0] == 'b');
        assert(s.subrange(0, 4)[0] == s[0]);
        assert(s[0] == 'b');
    }
    if crate::inline::spec_call_body(s, "italic"@) is Some {
        assert(s.subrange(0, 6) =~= "italic"@);
        assert("italic"@[0] == 'i');
        assert(s.subrange(0, 6)[0] == s[0]);
        assert(s[0] == 'i');
        assert(!crate::text::has_prefix(s, "bold"@)) by {
            if crate::text::has_prefix(s, "bold"@) {
                assert(s.subrange(0, 4)[0] == 'b');
            }
        }
        assert(!crate::text::has_prefix(s, "bold "@)) by {
            if crate::text::has_prefix(s, "bold "@) {
                assert(s.subrange(0, 5)[0] == 'b');
            }
        }
    }
    if crate::inline::spec_call_body(s, "small_caps"@) is Some {
        assert(s.subrange(0, 10) =~= "small_caps"@);
        assert("small_caps"@[0] == 's');
        assert(s.subrange(0, 10)[0] == s[0]);
        assert(s[0] == 's');
        assert(!crate::text::has_prefix(s, "bold"@)) by {
            if crate::text::has_prefix(s, "bold"@) {
                assert(s.subrange(0, 4)[0] == 'b');
            }
        }
        assert(!crate::text::has_prefix(s, "bold "@)) by {
            if crate::text::has_prefix(s, "bold "@) {
                assert(s.subrange(0, 5)[0] == 'b');
            }
        }
        assert(!crate::text::has_prefix(s, "italic"@)) by {
            if crate::text::has_prefix(s, "italic"@) {
                assert(s.subrange(0, 6)[0] == 'i');
            }
        }
        assert(!crate::text::has_prefix(s, "italic "@)) by {
            if crate::text::has_prefix(s, "italic "@) {
                assert(s.subrange(0, 7)[0] == 'i');
            }
        }
    }
}

/// Styled items render as `\textbf`, `\textit` and `\textsc` around their
/// contents, inline math between dollars, text escaped, and `cite`/`ref`
/// as `\cite`/`\ref` of the key.
pub proof fn law_inline_rendering(c: Seq<InlineModel>, v: Seq<char>, defs: Seq<DefinitionModel>)
    ensures
        crate::emit::spec_render_inline(InlineModel::Bold(c), defs) == "\\textbf{"@
            + crate::emit::spec_render_sequence(c, defs) + "}"@,
        crate::emit::spec_render_inline(InlineModel::Italic(c), defs) == "\\textit{"@
            + crate::emit::spec_render_sequence(c, defs) + "}"@,
        crate::emit::spec_render_inline(InlineModel::SmallCaps(c), defs) == "\\textsc{"@
            + crate::emit::spec_render_sequence(c, defs) + "}"@,
        crate::emit::spec_render_inline(InlineModel::Math(v), defs) == "$"@
            + crate::math::spec_render_math(v, defs) + "$"@,
        crate::emit::spec_render_inline(InlineModel::Text(v), defs)
            == crate::emit::spec_escape_latex(v),
        crate::emit::spec_render_inline(InlineModel::Latex(v), defs) == v,
        crate::emit::spec_render_inline(InlineModel::Cite(v), defs) == "\\cite{"@
            + crate::emit::spec_latex_identifier(v) + "}"@,
        crate::emit::spec_render_inline(InlineModel::Ref(v), defs) == "\\ref{"@
            + crate::emit::spec_latex_identifier(v) + "}"@,
{
}

/// Rendered items are separated by one space, except after whitespace, at
/// the start, around empty pieces, and before closing punctuation
/// `. , ; : ! ? ) ]`.
pub proof fn law_spacing(previous: Seq<char>, next: Seq<char>)
    ensures
        crate::emit::spec_needs_space(previous, next) <==> (previous.len() > 0 && next.len() > 0
            && !crate::text::is_ws(previous.last()) && next[0] != '.' && next[0] != ','
            && next[0] != ';' && next[0] != ':' && next[0] != '!' && next[0] != '?' && next[0]
            != ')' && next[0] != ']'),
{
}

/// Each feature word names its feature, and any other word is refused.
pub proof fn law_feature_words(s: Seq<char>, line: usize)
    ensures
        (crate::lex::spec_parse_feature(s, line) == Ok::<
            crate::syntax::Feature,
            crate::diagnostic::DiagnosticModel,
        >(crate::syntax::Feature::Math)) <==> s == "math"@,
        (crate::lex::spec_parse_feature(s, line) == Ok::<
            crate::syntax::Feature,
            crate::diagnostic::DiagnosticModel,
        >(crate::syntax::Feature::Theorem)) <==> s == "theorem"@,
        (crate::lex::spec_parse_feature(s, line) == Ok::<
            crate::syntax::Feature,
            crate::diagnostic::DiagnosticModel,
        >(crate::syntax::Feature::Graphics)) <==> s == "graphics"@,
        (crate::lex::spec_parse_feature(s, line) == Ok::<
            crate::syntax::Feature,
            crate::diagnostic::DiagnosticModel,
        >(crate::syntax::Feature::Bibliography)) <==> s == "bibliography"@,
{
    reveal_strlit("math");
    reveal_strlit("theorem");
    reveal_strlit("graphics");
    reveal_strlit("bibliography");
    assert("math"@.len() == 4 && "theorem"@.len() == 7 && "graphics"@.len() == 8
        && "bibliography"@.len() == 12);
}

// ---------------------------------------------------------------------------
// Tables and other blocks
// ---------------------------------------------------------------------------

/// Left, centered and right columns are written `l`, `c` and `r`.
pub proof fn law_align_letters()
    ensures
        crate::emit::align_char(Align::Left) == 'l',
        crate::emit::align_char(Align::Center) == 'c',
        crate::emit::align_char(Align::Right) == 'r',
{
}

/// Table rows: each row is one line of its cells joined by ` & ` and ended
/// by ` \\`, preceded by an `\hline` line exactly when a rule stands before
/// it; a rule after the last row closes the table with an `\hline`.
pub proof fn law_table_rows(
    columns: Seq<Align>,
    rows: Seq<Seq<Seq<InlineModel>>>,
    row: Seq<Seq<InlineModel>>,
    rules: Seq<usize>,
    caption: Option<Seq<char>>,
    defs: Seq<DefinitionModel>,
)
    ensures
        crate::emit::spec_rows(Seq::empty(), rules, defs) == Seq::<char>::empty(),
        crate::emit::spec_rows(rows.push(row), rules, defs) == crate::emit::spec_rows(
            rows,
            rules,
            defs,
        ) + (if rules.contains(rows.len() as usize) {
            line("\\hline"@)
        } else {
            Seq::<char>::empty()
        }) + line(crate::emit::spec_cells(row, defs) + " \\\\"@),
        row.len() >= 1 ==> crate::emit::spec_cells(row, defs) == if row.len() == 1 {
            crate::emit::spec_render_sequence(row[0], defs)
        } else {
            crate::emit::spec_cells(row.drop_last(), defs) + " & "@
                + crate::emit::spec_render_sequence(row.last(), defs)
        },
        crate::emit::spec_emit_table(columns, rows, rules, caption, defs) == line(
            "\\begin{table}"@,
        ) + line("\\centering"@) + line(
            "\\begin{tabular}{"@ + crate::emit::spec_column_spec(columns, rows) + "}"@,
        ) + crate::emit::spec_rows(rows, rules, defs) + (if rules.contains(rows.len() as usize) {
            line("\\hline"@)
        } else {
            Seq::<char>::empty()
        }) + line("\\end{tabular}"@) + (match caption {
            Some(c) => line("\\caption{"@ + crate::emit::spec_escape_latex(c) + "}"@),
            None => Seq::<char>::empty(),
        }) + line("\\end{table}"@),
{
    assert(rows.push(row).drop_last() =~= rows);
}

/// Equations with a label are numbered `equation` environments carrying the
/// label; without one they are display math `\[`...`\]`.
pub proof fn law_equation_block(label: Option<Seq<char>>, expr: Seq<char>, defs: Seq<DefinitionModel>)
    ensures
        crate::emit::spec_emit_block(BlockModel::Equation { label, expr }, defs) == match label {
            Some(l) => line("\\begin{equation}"@) + line(
                "\\label{"@ + crate::emit::spec_latex_identifier(l) + "}"@,
            ) + line(crate::math::spec_render_math(expr, defs)) + line("\\end{equation}"@),
            None => line("\\["@) + line(crate::math::spec_render_math(expr, defs)) + line(
                "\\]"@,
            ),
        },
{
}

/// A figure centres its graphic (at the given width, if any), then its
/// caption and its label scoped by `fig`.
pub proof fn law_figure_block(
    path: Seq<char>,
    width: Option<Seq<char>>,
    caption: Option<Seq<char>>,
    label: Option<Seq<char>>,
    defs: Seq<DefinitionModel>,
)
    ensures
        crate::emit::spec_emit_block(BlockModel::Figure { path, width, caption, label }, defs)
            == line("\\begin{figure}"@) + line("\\centering"@) + (match width {
            Some(w) => line(
                "\\includegraphics[width="@ + w + "]{"@ + crate::emit::spec_escape_latex(path)
                    + "}"@,
            ),
            None => line("\\includegraphics{"@ + crate::emit::spec_escape_latex(path) + "}"@),
        }) + (match caption {
            Some(c) => line("\\caption{"@ + crate::emit::spec_escape_latex(c) + "}"@),
            None => Seq::<char>::empty(),
        }) + (match label {
            Some(l) => line("\\label{"@ + crate::emit::spec_scoped_label("fig"@, l) + "}"@),
            None => Seq::<char>::empty(),
        }) + line("\\end{figure}"@),
{
}

/// A label with no `:` of its own is put in the given scope, `scope:label`.
pub proof fn law_scoped_label(scope: Seq<char>, l: Seq<char>)
    ensures
        (forall|i: int| 0 <= i < l.len() ==> l[i] != ':') ==> crate::emit::spec_scoped_label(
            scope,
            l,
        ) == scope + ":"@ + crate::emit::spec_latex_identifier(l),
        (exists|i: int| 0 <= i < l.len() && l[i] == ':') ==> crate::emit::spec_scoped_label(
            scope,
            l,
        ) == crate::emit::spec_latex_identifier(l),
{
    crate::text::lemma_find_from(l, seq![':'], 0);
    if exists|i: int| 0 <= i < l.len() && l[i] == ':' {
        let i = choose|i: int| 0 <= i < l.len() && l[i] == ':';
        assert(occurs_at(l, seq![':'], i)) by {
            assert(l.subrange(i, i + 1) =~= seq![':']);
        }
    } else {
        if let Some(k) = crate::text::spec_find(l, seq![':']) {
            assert(l.subrange(k, k + 1)[0] == l[k]);
        }
    }
}

/// The environments that hold other blocks: `abstract`, `quote`, `proof`,
/// and `theorem` with its title in brackets.
pub proof fn law_nested_blocks(c: Seq<BlockModel>, t: Seq<char>, defs: Seq<DefinitionModel>)
    ensures
        crate::emit::spec_emit_block(BlockModel::Abstract(c), defs) == line(
            "\\begin{abstract}"@,
        ) + crate::emit::spec_emit_blocks(c, defs) + line("\\end{abstract}"@),
        crate::emit::spec_emit_block(BlockModel::Quote(c), defs) == line("\\begin{quote}"@)
            + crate::emit::spec_emit_blocks(c, defs) + line("\\end{quote}"@),
        crate::emit::spec_emit_block(BlockModel::Proof(c), defs) == line("\\begin{proof}"@)
            + crate::emit::spec_emit_blocks(c, defs) + line("\\end{proof}"@),
        crate::emit::spec_emit_block(BlockModel::Theorem { title: Some(t), children: c }, defs)
            == line("\\begin{theorem}["@ + crate::emit::spec_escape_latex(t) + "]"@)
            + crate::emit::spec_emit_blocks(c, defs) + line("\\end{theorem}"@),
        crate::emit::spec_emit_block(BlockModel::Bibliography(t), defs) == line(
            "\\bibliographystyle{plain}"@,
        ) + line(
            "\\bibliography{"@ + crate::emit::spec_escape_latex(
                crate::emit::spec_trim_end_matches(t, ".bib"@),
            ) + "}"@,
        ),
{
}

// ---------------------------------------------------------------------------
// Statements
// ---------------------------------------------------------------------------

/// A list block is made of items when opened by `items do` and of numbered
/// steps when opened by `steps do`.
pub proof fn law_list_kinds(
    ls: Seq<Seq<char>>,
    p: int,
    numbered: bool,
    opener: usize,
    acc: Seq<Seq<InlineModel>>,
)
    ensures
        crate::parser::list_from(ls, p, numbered, opener, acc) matches Ok((b, _)) ==> if numbered {
            b is Steps
        } else {
            b is Items
        },
    decreases ls.len() - p,
{
    if p >= 0 {
        crate::parser::lemma_next_significant(ls, p);
        if let Some(i) = crate::parser::next_significant(ls, p) {
            let t = spec_trim(ls[i]);
            if let Some(rest) = crate::text::spec_strip_prefix(t, "item "@) {
                if let Ok(item) = crate::inline::spec_inline_list(rest, crate::parser::number(i)) {
                    law_list_kinds(ls, i + 1, numbered, opener, acc.push(item));
                }
            }
        }
    }
}

/// The statements that open blocks of other blocks make the block they
/// name: `abstract do`, `quote do` and `proof do` an abstract, a quote and a
/// proof of the blocks up to `end`; `items do` and `steps do` an item list
/// and a step list.
pub proof fn law_block_keywords(line: Seq<char>, n: usize, ls: Seq<Seq<char>>, p: int)
    ensures
        spec_trim(line) == "abstract do"@ ==> crate::parser::spec_block(line, n, ls, p)
            == crate::parser::nested(
            crate::parser::spec_blocks(ls, p, n, seq![]),
            |c: Seq<BlockModel>| BlockModel::Abstract(c),
        ),
        spec_trim(line) == "quote do"@ ==> crate::parser::spec_block(line, n, ls, p)
            == crate::parser::nested(
            crate::parser::spec_blocks(ls, p, n, seq![]),
            |c: Seq<BlockModel>| BlockModel::Quote(c),
        ),
        spec_trim(line) == "proof do"@ ==> crate::parser::spec_block(line, n, ls, p)
            == crate::parser::nested(
            crate::parser::spec_blocks(ls, p, n, seq![]),
            |c: Seq<BlockModel>| BlockModel::Proof(c),
        ),
        spec_trim(line) == "items do"@ ==> (crate::parser::spec_block(line, n, ls, p)
            matches Ok((b, _)) ==> b is Items),
        spec_trim(line) == "steps do"@ ==> (crate::parser::spec_block(line, n, ls, p)
            matches Ok((b, _)) ==> b is Steps),
{
    let t = spec_trim(line);
    reveal_strlit("p ");
    reveal_strlit("raw_latex ");
    reveal_strlit("latex ");
    reveal_strlit("bibliography ");
    reveal_strlit("abstract do");
    reveal_strlit("quote do");
    reveal_strlit("proof do");
    reveal_strlit("items do");
    reveal_strlit("steps do");
    if t == "abstract do"@ || t == "quote do"@ || t == "proof do"@ || t == "items do"@ || t
        == "steps do"@ {
        assert(crate::text::spec_strip_prefix(t, "p "@) is None) by {
            if crate::text::has_prefix(t, "p "@) {
                assert(t.subrange(0, 2)[1] == t[1]);
            }
        }
        assert(crate::text::spec_strip_prefix(t, "raw_latex "@) is None) by {
            if crate::text::has_prefix(t, "raw_latex "@) {
                assert(t.subrange(0, 10)[0] == t[0]);
                assert(t.subrange(0, 10)[1] == t[1]);
            }
        }
        assert(crate::text::spec_strip_prefix(t, "latex "@) is None) by {
            if crate::text::has_prefix(t, "latex "@) {
                assert(t.subrange(0, 6)[0] == t[0]);
                assert(t.subrange(0, 6)[1] == t[1]);
            }
        }
        assert(crate::text::spec_strip_prefix(t, "bibliography "@) is None) by {
            if crate::text::has_prefix(t, "bibliography "@) {
                assert(t.subrange(0, 13)[0] == t[0]);
                assert(t.subrange(0, 13)[1] == t[1]);
            }
        }
        law_list_kinds(ls, p, false, n, seq![]);
        law_list_kinds(ls, p, true, n, seq![]);
        assert("steps do"@[0] != "items do"@[0] && "steps do"@[0] != "quote do"@[0]);
        assert("steps do"@[0] != "proof do"@[0] && "steps do"@[0] != "abstract do"@[0]);
        assert("items do"@[0] != "quote do"@[0] && "items do"@[0] != "proof do"@[0]);
        assert("items do"@[0] != "abstract do"@[0]);
    }
}

} // verus!
