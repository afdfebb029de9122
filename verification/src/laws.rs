//! Properties of the compiler as a whole.
use vstd::prelude::*;

use crate::emit::{
    escape_char, line, spec_emit_definition, spec_emit_definitions, spec_emit_document,
    spec_escape_latex,
};
use crate::features::{block_features, blocks_features, spec_detect_features};
use crate::parser::{
    document_from, document_step, lemma_next_significant, next_significant, spec_metadata,
    spec_parse,
};
use crate::math::{
    braced, find_definition, joined, render_args, spec_render_call, spec_render_expr,
};
use crate::scan::{spec_split_commas, split_from};
use crate::syntax::{BlockModel, DefinitionModel, DocumentModel, Feature};
use crate::text::{has_prefix, has_suffix, occurs_at, spec_lines, spec_trim};

verus! {

/// Every emitted document is a complete LaTeX file: it starts with the
/// `\documentclass{article}` line and ends with the `\end{document}` line.
pub proof fn law_document_frame(doc: DocumentModel)
    ensures
        has_prefix(spec_emit_document(doc), line("\\documentclass{article}"@)),
        has_suffix(spec_emit_document(doc), line("\\end{document}"@)),
{
    let first = line("\\documentclass{article}"@);
    let last = line("\\end{document}"@);
    assert forall|x: Seq<char>, y: Seq<char>| has_prefix(x, first) implies #[trigger] has_prefix(
        x + y,
        first,
    ) by {
        lemma_prefix_extend(x, y, first);
    }
    assert(has_prefix(first, first)) by {
        assert(first.subrange(0, first.len() as int) =~= first);
    }
    let out = spec_emit_document(doc);
    let before = out.subrange(0, out.len() - last.len());
    assert(out =~= before + last);
    assert(out.subrange(out.len() - last.len(), out.len() as int) =~= last);
}

/// A text that starts with `p` still does after more is appended.
pub proof fn lemma_prefix_extend(x: Seq<char>, y: Seq<char>, p: Seq<char>)
    requires
        has_prefix(x, p),
    ensures
        has_prefix(x + y, p),
{
    assert((x + y).subrange(0, p.len() as int) =~= x.subrange(0, p.len() as int));
}

/// A feature asked for with `use` is always among the detected features.
pub proof fn law_requested_features_kept(doc: DocumentModel, f: Feature)
    requires
        doc.uses.has(f),
    ensures
        spec_detect_features(doc).has(f),
{
}

/// When a document needs math, the preamble loads `amsmath` right after the
/// document class.
pub proof fn law_math_preamble(doc: DocumentModel)
    requires
        spec_detect_features(doc).math,
    ensures
        has_prefix(
            spec_emit_document(doc),
            line("\\documentclass{article}"@) + line("\\usepackage{amsmath}"@),
        ),
{
    let out = spec_emit_document(doc);
    let head = line("\\documentclass{article}"@) + line("\\usepackage{amsmath}"@);
    assert(out.subrange(0, head.len() as int) =~= head);
}

/// A macro of the document takes precedence over a built-in function: a call
/// with the macro's name and number of arguments becomes `\name{arg}...`.
pub proof fn law_macro_precedence(name: Seq<char>, body: Seq<char>, defs: Seq<DefinitionModel>)
    requires
        find_definition(defs, name, render_args(body, 0, defs).len()) is Some,
    ensures
        spec_render_call(name, body, defs) == "\\"@ + name + braced(render_args(body, 0, defs)),
{
    crate::math::lemma_find_definition(defs, name, render_args(body, 0, defs).len());
}

/// With no macro `norm` of one parameter, `norm(x)` is the built-in norm
/// `\lVert x \rVert`.
pub proof fn law_builtin_norm(body: Seq<char>, defs: Seq<DefinitionModel>)
    requires
        spec_split_commas(body).len() == 1,
        find_definition(defs, "norm"@, 1) is None,
    ensures
        spec_render_call("norm"@, body, defs) == "\\lVert "@ + spec_render_expr(
            spec_trim(body),
            defs,
        ) + " \\rVert"@,
{
    let pieces = spec_split_commas(body);
    let args = render_args(body, 0, defs);
    assert(render_args(body, 1, defs) =~= Seq::<Seq<char>>::empty());
    assert(args =~= seq![spec_render_expr(spec_trim(pieces[0]), defs)]);
    assert(pieces[0] == body) by {
        lemma_split_single(body);
    }
    reveal_strlit("norm");
    reveal_strlit("sqrt");
    reveal_strlit("exp");
    reveal_strlit("cos");
    reveal_strlit("sin");
    reveal_strlit("log");
    reveal_strlit("mathbb");
    assert("norm"@[0] != "sqrt"@[0]);
    assert("norm"@ != "sqrt"@);
    assert("norm"@[0] != "exp"@[0]);
    assert("norm"@ != "exp"@);
    assert("norm"@[0] != "cos"@[0]);
    assert("norm"@ != "cos"@);
    assert("norm"@[0] != "sin"@[0]);
    assert("norm"@ != "sin"@);
    assert("norm"@[0] != "log"@[0]);
    assert("norm"@ != "log"@);
    assert("norm"@[0] != "mathbb"@[0]);
    assert("norm"@ != "mathbb"@);
}

/// A text with a single top-level piece is that piece.
pub proof fn lemma_split_single(s: Seq<char>)
    requires
        spec_split_commas(s).len() == 1,
    ensures
        spec_split_commas(s)[0] == s,
{
    lemma_rejoin_from(s, 0, 0, 0, false, false);
    assert(s.subrange(0, s.len() as int) =~= s);
}

/// The parts of `seq![x] + rest`, joined, in terms of those of `rest`.
pub proof fn lemma_joined_cons(x: Seq<char>, rest: Seq<Seq<char>>, sep: Seq<char>)
    requires
        rest.len() >= 1,
    ensures
        joined(seq![x] + rest, sep) == x + sep + joined(rest, sep),
    decreases rest.len(),
{
    let all = seq![x] + rest;
    if rest.len() == 1 {
        assert(all.drop_last() =~= seq![x]);
        assert(joined(seq![x], sep) == x);
    } else {
        lemma_joined_cons(x, rest.drop_last(), sep);
        assert(all.drop_last() =~= seq![x] + rest.drop_last());
        assert(x + sep + joined(rest.drop_last(), sep) + sep + rest.last() =~= x + sep + (joined(
            rest.drop_last(),
            sep,
        ) + sep + rest.last()));
    }
}

/// The pieces found from position `i`, joined by commas, give back the text
/// from `start` on.
pub proof fn lemma_rejoin_from(
    s: Seq<char>,
    i: int,
    start: int,
    depth: int,
    in_str: bool,
    esc: bool,
)
    requires
        0 <= start <= i <= s.len(),
    ensures
        joined(split_from(s, i, start, depth, in_str, esc), ","@) == s.subrange(
            start,
            s.len() as int,
        ),
        split_from(s, i, start, depth, in_str, esc).len() >= 1,
    decreases s.len() - i,
{
    if i < s.len() {
        let c = s[i];
        if in_str {
            if esc {
                lemma_rejoin_from(s, i + 1, start, depth, true, false);
            } else if c == '\\' {
                lemma_rejoin_from(s, i + 1, start, depth, true, true);
            } else if c == '"' {
                lemma_rejoin_from(s, i + 1, start, depth, false, false);
            } else {
                lemma_rejoin_from(s, i + 1, start, depth, true, false);
            }
        } else if c == '"' {
            lemma_rejoin_from(s, i + 1, start, depth, true, esc);
        } else if crate::scan::is_opening(c) {
            lemma_rejoin_from(s, i + 1, start, depth + 1, false, esc);
        } else if crate::scan::is_closing(c) {
            lemma_rejoin_from(s, i + 1, start, depth - 1, false, esc);
        } else if c == ',' && depth == 0 {
            lemma_rejoin_from(s, i + 1, i + 1, depth, false, esc);
            let rest = split_from(s, i + 1, i + 1, depth, false, esc);
            lemma_joined_cons(s.subrange(start, i), rest, ","@);
            reveal_strlit(",");
            assert(s.subrange(start, i) + ","@ + s.subrange(i + 1, s.len() as int) =~= s.subrange(
                start,
                s.len() as int,
            ));
        } else {
            lemma_rejoin_from(s, i + 1, start, depth, false, esc);
        }
    }
}

/// Splitting at top-level commas loses nothing: the pieces joined by commas
/// give back the text.
pub proof fn law_split_rejoin(s: Seq<char>)
    ensures
        joined(spec_split_commas(s), ","@) == s,
{
    lemma_rejoin_from(s, 0, 0, 0, false, false);
    assert(s.subrange(0, s.len() as int) =~= s);
}

/// Escaping works character by character: the escape of a concatenation is
/// the concatenation of the escapes.
pub proof fn law_escape_concat(a: Seq<char>, b: Seq<char>)
    ensures
        spec_escape_latex(a + b) == spec_escape_latex(a) + spec_escape_latex(b),
    decreases b.len(),
{
    if b.len() == 0 {
        assert(a + b =~= a);
    } else {
        law_escape_concat(a, b.drop_last());
        assert((a + b).drop_last() =~= a + b.drop_last());
        assert((a + b).last() == b.last());
    }
}

/// A character that LaTeX does not treat specially is kept as it is.
pub proof fn law_escape_plain(c: char)
    requires
        c != '&' && c != '%' && c != '$' && c != '#' && c != '_' && c != '{' && c != '}' && c
            != '~' && c != '^' && c != '\\',
    ensures
        spec_escape_latex(seq![c]) == seq![c],
{
    assert(seq![c].drop_last() =~= Seq::<char>::empty());
    assert(spec_escape_latex(Seq::<char>::empty()) =~= Seq::<char>::empty());
    assert(escape_char(c) == seq![c]);
    assert(Seq::<char>::empty() + seq![c] =~= seq![c]);
}

/// No two macro definitions share a name.
pub open spec fn distinct_names(defs: Seq<DefinitionModel>) -> bool {
    forall|i: int, j: int| 0 <= i < j < defs.len() ==> defs[i].name != defs[j].name
}

/// A document-level statement keeps the macro names distinct.
proof fn lemma_metadata_distinct(t: Seq<char>, n: usize, doc: DocumentModel)
    requires
        distinct_names(doc.definitions),
    ensures
        spec_metadata(t, n, doc) matches Ok(Some(d)) ==> distinct_names(d.definitions),
{
    if let Ok(Some(d)) = spec_metadata(t, n, doc) {
        if d.definitions.len() != doc.definitions.len() {
            let added = d.definitions.last();
            assert(d.definitions == doc.definitions.push(added));
            assert forall|i: int, j: int| 0 <= i < j < d.definitions.len() implies d.definitions[i].name
                != d.definitions[j].name by {
                if j == doc.definitions.len() {
                    assert(d.definitions[i] == doc.definitions[i]);
                }
            }
        }
    }
}

/// Any statement of the paper keeps the macro names distinct.
proof fn lemma_step_distinct(
    line: Seq<char>,
    n: usize,
    ls: Seq<Seq<char>>,
    p: int,
    doc: DocumentModel,
)
    requires
        distinct_names(doc.definitions),
    ensures
        document_step(line, n, ls, p, doc) matches Ok((d, _)) ==> distinct_names(d.definitions),
{
    reveal(document_step);
    lemma_metadata_distinct(spec_trim(line), n, doc);
}

/// The statements from index `p` on keep the macro names distinct.
proof fn lemma_from_distinct(ls: Seq<Seq<char>>, p: int, opening: usize, doc: DocumentModel)
    requires
        distinct_names(doc.definitions),
        0 <= p,
    ensures
        document_from(ls, p, opening, doc) matches Ok(d) ==> distinct_names(d.definitions),
    decreases ls.len() - p,
{
    lemma_next_significant(ls, p);
    if let Some(i) = next_significant(ls, p) {
        if spec_trim(ls[i]) != "end"@ {
            let n = crate::parser::number(i);
            lemma_step_distinct(ls[i], n, ls, i + 1, doc);
            if let Ok((d, q)) = document_step(ls[i], n, ls, i + 1, doc) {
                if i < q <= ls.len() {
                    lemma_from_distinct(ls, q, opening, d);
                }
            }
        }
    }
}

/// A document that parses never defines a macro twice: a second `define` of
/// a name is refused.
pub proof fn law_definitions_distinct(source: Seq<char>)
    ensures
        spec_parse(source) matches Ok(doc) ==> distinct_names(doc.definitions),
{
    let ls = spec_lines(source);
    lemma_next_significant(ls, 0);
    if let Some(i) = next_significant(ls, 0) {
        if let Ok(title) = crate::lex::spec_parse_titled_do(
            spec_trim(ls[i]),
            "paper"@,
            crate::parser::number(i),
        ) {
            let start = DocumentModel {
                title,
                author: None,
                date: None,
                definitions: seq![],
                uses: crate::syntax::FeatureSet::none(),
                body: seq![],
            };
            lemma_from_distinct(ls, i + 1, crate::parser::number(i), start);
        }
    }
}

/// An occurrence survives text appended after it.
pub proof fn lemma_occurs_append(x: Seq<char>, y: Seq<char>, p: Seq<char>, i: int)
    requires
        occurs_at(x, p, i),
    ensures
        occurs_at(x + y, p, i),
{
    assert((x + y).subrange(i, i + p.len()) =~= x.subrange(i, i + p.len()));
}

/// An occurrence moves right by the length of text put before it.
pub proof fn lemma_occurs_prepend(x: Seq<char>, y: Seq<char>, p: Seq<char>, i: int)
    requires
        occurs_at(y, p, i),
    ensures
        occurs_at(x + y, p, x.len() + i),
{
    assert((x + y).subrange(x.len() + i, x.len() + i + p.len()) =~= y.subrange(i, i + p.len()));
}

/// The `\newcommand` line of each definition occurs among those of all.
proof fn lemma_definition_emitted(ds: Seq<DefinitionModel>, k: int)
    requires
        0 <= k < ds.len(),
    ensures
        exists|i: int| occurs_at(spec_emit_definitions(ds), spec_emit_definition(ds[k]), i),
    decreases ds.len(),
{
    let before = spec_emit_definitions(ds.drop_last());
    let own = spec_emit_definition(ds.last());
    if k == ds.len() - 1 {
        assert(occurs_at(own, own, 0)) by {
            assert(own.subrange(0, own.len() as int) =~= own);
        }
        lemma_occurs_prepend(before, own, own, 0);
        assert(spec_emit_definitions(ds) == before + own);
        assert(occurs_at(spec_emit_definitions(ds), spec_emit_definition(ds[k]), before.len() as int));
    } else {
        lemma_definition_emitted(ds.drop_last(), k);
        assert(ds.drop_last()[k] == ds[k]);
        let i = choose|i: int| occurs_at(before, spec_emit_definition(ds[k]), i);
        lemma_occurs_append(before, own, spec_emit_definition(ds[k]), i);
        assert(spec_emit_definitions(ds) == before + own);
        assert(occurs_at(spec_emit_definitions(ds), spec_emit_definition(ds[k]), i));
    }
}

/// Every macro that a document defines is emitted as a `\newcommand` line.
pub proof fn law_definitions_emitted(doc: DocumentModel, k: int)
    requires
        0 <= k < doc.definitions.len(),
    ensures
        exists|i: int|
            occurs_at(spec_emit_document(doc), spec_emit_definition(doc.definitions[k]), i),
{
    let p = spec_emit_definition(doc.definitions[k]);
    let defs = spec_emit_definitions(doc.definitions);
    lemma_definition_emitted(doc.definitions, k);
    let i = choose|i: int| occurs_at(defs, p, i);
    assert forall|x: Seq<char>, y: Seq<char>, j: int| occurs_at(x, p, j) implies #[trigger] occurs_at(
        x + y,
        p,
        j,
    ) by {
        lemma_occurs_append(x, y, p, j);
    }
    let f = spec_detect_features(doc);
    let head = line("\\documentclass{article}"@) + crate::emit::line_if(
        f.math,
        "\\usepackage{amsmath}"@,
    ) + crate::emit::line_if(f.math, "\\usepackage{amssymb}"@) + crate::emit::line_if(
        f.theorem,
        "\\usepackage{amsthm}"@,
    ) + crate::emit::line_if(f.graphics, "\\usepackage{graphicx}"@) + crate::emit::line_if(
        f.theorem,
        "\\newtheorem{theorem}{Theorem}"@,
    );
    lemma_occurs_prepend(head, defs, p, i);
    assert(occurs_at(spec_emit_document(doc), p, head.len() + i));
}

/// Whatever a block of a sequence needs, the sequence needs.
pub proof fn law_block_features_kept(s: Seq<BlockModel>, k: int, f: Feature)
    requires
        0 <= k < s.len(),
        block_features(s[k]).has(f),
    ensures
        blocks_features(s).has(f),
    decreases s.len(),
{
    if k < s.len() - 1 {
        law_block_features_kept(s.drop_last(), k, f);
        assert(s.drop_last()[k] == s[k]);
    }
}

/// The preamble loads the packages that the document needs: `amsthm` and
/// the `theorem` environment for theorems, `graphicx` for figures.
pub proof fn law_preamble_packages(doc: DocumentModel)
    ensures
        spec_detect_features(doc).theorem ==> exists|i: int|
            occurs_at(spec_emit_document(doc), line("\\usepackage{amsthm}"@), i),
        spec_detect_features(doc).theorem ==> exists|i: int|
            occurs_at(spec_emit_document(doc), line("\\newtheorem{theorem}{Theorem}"@), i),
        spec_detect_features(doc).graphics ==> exists|i: int|
            occurs_at(spec_emit_document(doc), line("\\usepackage{graphicx}"@), i),
{
    let f = spec_detect_features(doc);
    let l0 = line("\\documentclass{article}"@);
    let l1 = crate::emit::line_if(f.math, "\\usepackage{amsmath}"@);
    let l2 = crate::emit::line_if(f.math, "\\usepackage{amssymb}"@);
    let l3 = crate::emit::line_if(f.theorem, "\\usepackage{amsthm}"@);
    let l4 = crate::emit::line_if(f.graphics, "\\usepackage{graphicx}"@);
    let l5 = crate::emit::line_if(f.theorem, "\\newtheorem{theorem}{Theorem}"@);
    let out = spec_emit_document(doc);
    assert forall|x: Seq<char>, y: Seq<char>, p: Seq<char>, j: int| occurs_at(x, p, j) implies #[trigger] occurs_at(
        x + y,
        p,
        j,
    ) by {
        lemma_occurs_append(x, y, p, j);
    }
    assert forall|p: Seq<char>| #[trigger] occurs_at(p, p, 0) by {
        assert(p.subrange(0, p.len() as int) =~= p);
    }
    if f.theorem {
        lemma_occurs_prepend(l0 + l1 + l2, l3, l3, 0);
        assert(occurs_at(out, l3, (l0 + l1 + l2).len() as int));
        lemma_occurs_prepend(l0 + l1 + l2 + l3 + l4, l5, l5, 0);
        assert(occurs_at(out, l5, (l0 + l1 + l2 + l3 + l4).len() as int));
    }
    if f.graphics {
        lemma_occurs_prepend(l0 + l1 + l2 + l3, l4, l4, 0);
        assert(occurs_at(out, l4, (l0 + l1 + l2 + l3).len() as int));
    }
}

/// Compiling is parsing, then emitting: a source compiles exactly when it
/// parses, to the LaTeX of its document, and is refused with the diagnostic
/// that parsing gives.
pub proof fn law_compile_is_parse_then_emit(source: Seq<char>)
    ensures
        spec_parse(source) matches Ok(doc) ==> crate::spec_compile(source) == Ok::<
            Seq<char>,
            crate::diagnostic::DiagnosticModel,
        >(spec_emit_document(doc)),
        spec_parse(source) matches Err(e) ==> crate::spec_compile(source) == Err::<
            Seq<char>,
            crate::diagnostic::DiagnosticModel,
        >(e),
{
}

/// The preamble for the features `f`: the document class, then `amsmath` and
/// `amssymb` for math, `amsthm` for theorems, `graphicx` for graphics, and the
/// theorem environment for theorems.
pub open spec fn preamble(f: crate::syntax::FeatureSet) -> Seq<char> {
    line("\\documentclass{article}"@) + crate::emit::line_if(f.math, "\\usepackage{amsmath}"@)
        + crate::emit::line_if(f.math, "\\usepackage{amssymb}"@) + crate::emit::line_if(
        f.theorem,
        "\\usepackage{amsthm}"@,
    ) + crate::emit::line_if(f.graphics, "\\usepackage{graphicx}"@) + crate::emit::line_if(
        f.theorem,
        "\\newtheorem{theorem}{Theorem}"@,
    )
}

/// The title block: the escaped title, then the author and the date when
/// they are given.
pub open spec fn title_block(doc: DocumentModel) -> Seq<char> {
    line("\\title{"@ + spec_escape_latex(doc.title) + "}"@) + (match doc.author {
        Some(a) => line("\\author{"@ + spec_escape_latex(a) + "}"@),
        None => seq![],
    }) + (match doc.date {
        Some(crate::syntax::DateModel::Literal(v)) => line(
            "\\date{"@ + spec_escape_latex(v) + "}"@,
        ),
        Some(crate::syntax::DateModel::Today) => line("\\date{\\today}"@),
        None => seq![],
    })
}

/// A document is laid out in this order: the preamble its features need,
/// its macros, the title block, `\begin{document}` and `\maketitle`, its
/// body, and `\end{document}`.
pub proof fn law_document_layout(doc: DocumentModel)
    ensures
        spec_emit_document(doc) == preamble(spec_detect_features(doc)) + spec_emit_definitions(
            doc.definitions,
        ) + title_block(doc) + line("\\begin{document}"@) + line("\\maketitle"@)
            + crate::emit::spec_emit_blocks(doc.body, doc.definitions) + line(
            "\\end{document}"@,
        ),
{
    let f = spec_detect_features(doc);
    let a = preamble(f) + spec_emit_definitions(doc.definitions);
    let t1 = line("\\title{"@ + spec_escape_latex(doc.title) + "}"@);
    let t2 = match doc.author {
        Some(x) => line("\\author{"@ + spec_escape_latex(x) + "}"@),
        None => seq![],
    };
    let t3 = match doc.date {
        Some(crate::syntax::DateModel::Literal(v)) => line(
            "\\date{"@ + spec_escape_latex(v) + "}"@,
        ),
        Some(crate::syntax::DateModel::Today) => line("\\date{\\today}"@),
        None => seq![],
    };
    assert(a + t1 + t2 + t3 =~= a + (t1 + t2 + t3));
}

/// The lines of the preamble for the features `f`.
pub open spec fn preamble_lines(f: crate::syntax::FeatureSet) -> Seq<Seq<char>> {
    seq!["\\documentclass{article}"@] + (if f.math {
        seq!["\\usepackage{amsmath}"@, "\\usepackage{amssymb}"@]
    } else {
        seq![]
    }) + (if f.theorem {
        seq!["\\usepackage{amsthm}"@]
    } else {
        seq![]
    }) + (if f.graphics {
        seq!["\\usepackage{graphicx}"@]
    } else {
        seq![]
    }) + (if f.theorem {
        seq!["\\newtheorem{theorem}{Theorem}"@]
    } else {
        seq![]
    })
}

/// The text of some lines, each ended by a newline.
pub open spec fn lines_text(ls: Seq<Seq<char>>) -> Seq<char>
    decreases ls.len(),
{
    if ls.len() == 0 {
        seq![]
    } else {
        lines_text(ls.drop_last()) + line(ls.last())
    }
}

/// The preamble is the text of its lines, and its lines name a package
/// exactly when the document needs it: `amsmath` (and `amssymb`) for math,
/// `amsthm` and the theorem environment for theorems, `graphicx` for
/// graphics.
pub proof fn law_preamble_exact(f: crate::syntax::FeatureSet)
    ensures
        preamble(f) == lines_text(preamble_lines(f)),
        preamble_lines(f).contains("\\usepackage{amsmath}"@) <==> f.math,
        preamble_lines(f).contains("\\usepackage{amssymb}"@) <==> f.math,
        preamble_lines(f).contains("\\usepackage{amsthm}"@) <==> f.theorem,
        preamble_lines(f).contains("\\newtheorem{theorem}{Theorem}"@) <==> f.theorem,
        preamble_lines(f).contains("\\usepackage{graphicx}"@) <==> f.graphics,
{
    let d = "\\documentclass{article}"@;
    let m = "\\usepackage{amsmath}"@;
    let y = "\\usepackage{amssymb}"@;
    let t = "\\usepackage{amsthm}"@;
    let g = "\\usepackage{graphicx}"@;
    let n = "\\newtheorem{theorem}{Theorem}"@;
    reveal_strlit("\\documentclass{article}");
    reveal_strlit("\\usepackage{amsmath}");
    reveal_strlit("\\usepackage{amssymb}");
    reveal_strlit("\\usepackage{amsthm}");
    reveal_strlit("\\usepackage{graphicx}");
    reveal_strlit("\\newtheorem{theorem}{Theorem}");
    assert(d.len() == 23 && m.len() == 20 && y.len() == 20 && t.len() == 19 && g.len() == 21
        && n.len() == 29);
    assert(m[15] != y[15]);
    assert(d[1] != m[1] && n[1] != m[1]);
    let ls = preamble_lines(f);
    assert forall|k: int| 0 <= k < ls.len() implies (ls[k] == m ==> f.math) && (ls[k] == y
        ==> f.math) && (ls[k] == t ==> f.theorem) && (ls[k] == n ==> f.theorem) && (ls[k] == g
        ==> f.graphics) by {
        if ls[k] == m || ls[k] == y {
            assert(ls[k][15] == m[15] || ls[k][15] == y[15]);
        }
        if ls[k] == n {
            assert(ls[k][1] == n[1]);
        }
    }
    if f.math {
        assert(ls[1] == m && ls[2] == y);
    }
    if f.theorem {
        let k = if f.math { 3int } else { 1int };
        assert(ls[k] == t);
        assert(ls[ls.len() - 1] == n);
    }
    if f.graphics {
        let k = 1 + (if f.math { 2int } else { 0int }) + (if f.theorem { 1int } else { 0int });
        assert(ls[k] == g);
    }
    reveal_with_fuel(lines_text, 7);
    let l0 = line(d);
    let l1 = crate::emit::line_if(f.math, m);
    let l2 = crate::emit::line_if(f.math, y);
    let l3 = crate::emit::line_if(f.theorem, t);
    let l4 = crate::emit::line_if(f.graphics, g);
    let l5 = crate::emit::line_if(f.theorem, n);
    let head = seq![d] + (if f.math {
        seq![m, y]
    } else {
        seq![]
    });
    let mid = head + (if f.theorem {
        seq![t]
    } else {
        seq![]
    });
    let high = mid + (if f.graphics {
        seq![g]
    } else {
        seq![]
    });
    assert(lines_text(seq![d]) =~= l0) by {
        assert(seq![d].drop_last() =~= Seq::<Seq<char>>::empty());
    }
    if f.math {
        assert(head.drop_last() =~= seq![d, m]);
        assert(seq![d, m].drop_last() =~= seq![d]);
        assert(lines_text(head) =~= l0 + l1 + l2);
    } else {
        assert(head =~= seq![d]);
        assert(lines_text(head) =~= l0 + l1 + l2);
    }
    if f.theorem {
        assert(mid.drop_last() =~= head);
    } else {
        assert(mid =~= head);
    }
    assert(lines_text(mid) =~= l0 + l1 + l2 + l3);
    if f.graphics {
        assert(high.drop_last() =~= mid);
    } else {
        assert(high =~= mid);
    }
    assert(lines_text(high) =~= l0 + l1 + l2 + l3 + l4);
    if f.theorem {
        assert(ls.drop_last() =~= high);
    } else {
        assert(ls =~= high);
    }
    assert(lines_text(ls) =~= l0 + l1 + l2 + l3 + l4 + l5);
}

/// The text is one or more whole lines: it is not empty and ends in a
/// newline.
pub open spec fn whole_lines(s: Seq<char>) -> bool {
    s.len() > 0 && s[s.len() - 1] == '\n'
}

/// Every block is emitted as whole lines: a non-empty text that ends in a
/// newline, which depends only on the block and the macros.
pub proof fn law_block_whole_lines(b: BlockModel, defs: Seq<DefinitionModel>)
    ensures
        whole_lines(crate::emit::spec_emit_block(b, defs)),
    decreases b,
{
    reveal_strlit("\n");
    match b {
        BlockModel::Section { level, title, children } => {
            law_blocks_whole_lines(children, defs);
        },
        _ => {},
    }
}

/// A sequence of blocks is emitted as whole lines, or as nothing when it is
/// empty.
pub proof fn law_blocks_whole_lines(s: Seq<BlockModel>, defs: Seq<DefinitionModel>)
    ensures
        s.len() == 0 ==> crate::emit::spec_emit_blocks(s, defs) == Seq::<char>::empty(),
        s.len() > 0 ==> whole_lines(crate::emit::spec_emit_blocks(s, defs)),
    decreases s,
{
    if s.len() > 0 {
        law_block_whole_lines(s.last(), defs);
        law_blocks_whole_lines(s.drop_last(), defs);
    }
}

/// The first top-level comma found from position `i` ends the first piece
/// found from there; with none, there is one piece, the rest of the text.
proof fn lemma_index_split(
    s: Seq<char>,
    i: int,
    start: int,
    depth: int,
    in_str: bool,
    esc: bool,
)
    requires
        0 <= start <= i <= s.len(),
    ensures
        match crate::scan::index_from(s, ',', i, depth, in_str, esc) {
            None => split_from(s, i, start, depth, in_str, esc) == seq![
                s.subrange(start, s.len() as int),
            ],
            Some(k) => split_from(s, i, start, depth, in_str, esc).len() >= 2 && split_from(
                s,
                i,
                start,
                depth,
                in_str,
                esc,
            )[0] == s.subrange(start, k),
        },
    decreases s.len() - i,
{
    if i < s.len() {
        let c = s[i];
        if in_str {
            if esc {
                lemma_index_split(s, i + 1, start, depth, true, false);
            } else if c == '\\' {
                lemma_index_split(s, i + 1, start, depth, true, true);
            } else if c == '"' {
                lemma_index_split(s, i + 1, start, depth, false, false);
            } else {
                lemma_index_split(s, i + 1, start, depth, true, false);
            }
        } else if c == '"' {
            lemma_index_split(s, i + 1, start, depth, true, esc);
        } else if crate::scan::is_opening(c) {
            lemma_index_split(s, i + 1, start, depth + 1, false, esc);
        } else if crate::scan::is_closing(c) {
            lemma_index_split(s, i + 1, start, depth - 1, false, esc);
        } else if c == ',' && depth == 0 {
            crate::scan::lemma_split_from(s, i + 1, i + 1, depth, false, esc);
        } else {
            lemma_index_split(s, i + 1, start, depth, false, esc);
        }
    }
}

/// Finding the first top-level comma agrees with splitting at top-level
/// commas: the first piece ends at that comma, and a text with no top-level
/// comma is a single piece.
pub proof fn law_first_comma(s: Seq<char>)
    ensures
        match crate::scan::spec_split_index(s, ',') {
            None => spec_split_commas(s) == seq![s],
            Some(k) => spec_split_commas(s).len() >= 2 && spec_split_commas(s)[0] == s.subrange(
                0,
                k,
            ),
        },
{
    lemma_index_split(s, 0, 0, 0, false, false);
    assert(s.subrange(0, s.len() as int) =~= s);
}

/// A document-level statement changes only the field it names: `author`
/// sets the author, `date` the date, `use` adds a feature and `define`
/// appends a macro. A line that starts with none of these keywords is not a
/// document-level statement.
pub proof fn law_metadata_fields(t: Seq<char>, n: usize, doc: DocumentModel)
    ensures
        (spec_metadata(t, n, doc) == Ok::<Option<DocumentModel>, crate::diagnostic::DiagnosticModel>(
            None,
        )) <==> (!has_prefix(t, "author "@) && !has_prefix(t, "date "@) && !has_prefix(t, "use "@)
            && !has_prefix(t, "define "@)),
        spec_metadata(t, n, doc) matches Ok(Some(d)) ==> {
            ||| has_prefix(t, "author "@) && d == DocumentModel { author: d.author, ..doc }
                && d.author is Some
            ||| has_prefix(t, "date "@) && d == DocumentModel { date: d.date, ..doc } && d.date is Some
            ||| has_prefix(t, "use "@) && exists|f: Feature|
                d == DocumentModel { uses: doc.uses.with(f), ..doc }
            ||| has_prefix(t, "define "@) && exists|x: DefinitionModel|
                d == DocumentModel { definitions: doc.definitions.push(x), ..doc }
        },
{
    if let Ok(Some(d)) = spec_metadata(t, n, doc) {
        if has_prefix(t, "use "@) && !has_prefix(t, "author "@) && !has_prefix(t, "date "@) {
            let rest = crate::text::spec_strip_prefix(t, "use "@).unwrap();
            if let Ok(f) = crate::lex::spec_parse_feature(spec_trim(rest), n) {
                assert(d == DocumentModel { uses: doc.uses.with(f), ..doc });
            }
        }
        if has_prefix(t, "define "@) && !has_prefix(t, "author "@) && !has_prefix(t, "date "@)
            && !has_prefix(t, "use "@) {
            let rest = crate::text::spec_strip_prefix(t, "define "@).unwrap();
            if let Ok(x) = crate::lex::spec_parse_definition(spec_trim(rest), n) {
                assert(d == DocumentModel { definitions: doc.definitions.push(x), ..doc });
            }
        }
    }
}

/// A character as it is written inside a string literal: `"` and `\\` are
/// escaped with a backslash, any other stands for itself.
pub open spec fn quote_char(c: char) -> Seq<char> {
    if c == '"' || c == '\\' {
        seq!['\\', c]
    } else {
        seq![c]
    }
}

/// The body of a string literal whose value is `v`.
pub open spec fn quoted_body(v: Seq<char>) -> Seq<char>
    decreases v.len(),
{
    if v.len() == 0 {
        seq![]
    } else {
        quote_char(v[0]) + quoted_body(v.subrange(1, v.len() as int))
    }
}

/// Reading the body of a quoted value, after text `x`, gives the value back,
/// and the text after the closing quote.
proof fn lemma_read_quoted(
    x: Seq<char>,
    v: Seq<char>,
    tail: Seq<char>,
    out: Seq<char>,
    line: usize,
)
    ensures
        crate::lex::literal_from(
            x + quoted_body(v) + seq!['"'] + tail,
            x.len() as int,
            out,
            line,
        ) == Ok::<(Seq<char>, Seq<char>), crate::diagnostic::DiagnosticModel>((out + v, tail)),
    decreases v.len(),
{
    let s = x + quoted_body(v) + seq!['"'] + tail;
    let i = x.len() as int;
    if v.len() == 0 {
        assert(quoted_body(v) =~= Seq::<char>::empty());
        assert(s[i] == '"');
        assert(s.subrange(i + 1, s.len() as int) =~= tail);
        assert(out + v =~= out);
    } else {
        let c = v[0];
        let rest = v.subrange(1, v.len() as int);
        let x2 = x + quote_char(c);
        assert(s =~= x2 + quoted_body(rest) + seq!['"'] + tail);
        lemma_read_quoted(x2, rest, tail, out + seq![c], line);
        assert(out + seq![c] + rest =~= out + v);
        if c == '"' || c == '\\' {
            assert(s[i] == '\\' && s[i + 1] == c);
            assert(crate::lex::unescape(c) =~= seq![c]);
        } else {
            assert(s[i] == c);
            assert(out.push(c) =~= out + seq![c]);
        }
    }
}

/// A value written as a string literal reads back as itself: parsing
/// `"` + the quoted value + `"` + a tail gives the value and the tail.
pub proof fn law_string_literal_round_trip(v: Seq<char>, tail: Seq<char>, line: usize)
    ensures
        crate::lex::spec_parse_string_literal(seq!['"'] + quoted_body(v) + seq!['"'] + tail, line)
            == Ok::<(Seq<char>, Seq<char>), crate::diagnostic::DiagnosticModel>((v, tail)),
{
    let input = seq!['"'] + quoted_body(v) + seq!['"'] + tail;
    assert(input[0] == '"');
    assert(!crate::text::is_ws('"'));
    assert(crate::text::spec_trim_start(input) =~= input);
    lemma_read_quoted(seq!['"'], v, tail, seq![], line);
    assert(Seq::<char>::empty() + v =~= v);
}

/// Splitting from a position looks only at the text from `m` on, for any
/// `m` up to the start of the current piece.
proof fn lemma_split_shift(
    s: Seq<char>,
    m: int,
    i: int,
    start: int,
    depth: int,
    in_str: bool,
    esc: bool,
)
    requires
        0 <= m <= start <= i <= s.len(),
    ensures
        split_from(s, i, start, depth, in_str, esc) == split_from(
            s.subrange(m, s.len() as int),
            i - m,
            start - m,
            depth,
            in_str,
            esc,
        ),
    decreases s.len() - i,
{
    let t = s.subrange(m, s.len() as int);
    if i < s.len() {
        let c = s[i];
        assert(t[i - m] == c);
        if in_str {
            if esc {
                lemma_split_shift(s, m, i + 1, start, depth, true, false);
            } else if c == '\\' {
                lemma_split_shift(s, m, i + 1, start, depth, true, true);
            } else if c == '"' {
                lemma_split_shift(s, m, i + 1, start, depth, false, false);
            } else {
                lemma_split_shift(s, m, i + 1, start, depth, true, false);
            }
        } else if c == '"' {
            lemma_split_shift(s, m, i + 1, start, depth, true, esc);
        } else if crate::scan::is_opening(c) {
            lemma_split_shift(s, m, i + 1, start, depth + 1, false, esc);
        } else if crate::scan::is_closing(c) {
            lemma_split_shift(s, m, i + 1, start, depth - 1, false, esc);
        } else if c == ',' && depth == 0 {
            lemma_split_shift(s, m, i + 1, i + 1, depth, false, esc);
            assert(s.subrange(start, i) =~= t.subrange(start - m, i - m));
        } else {
            lemma_split_shift(s, m, i + 1, start, depth, false, esc);
        }
    } else {
        assert(s.subrange(start, s.len() as int) =~= t.subrange(start - m, t.len() as int));
    }
}

/// At the first top-level comma found from `i`, the pieces are the one that
/// ends there and those after it, split afresh.
proof fn lemma_split_at_comma(
    s: Seq<char>,
    i: int,
    start: int,
    depth: int,
    in_str: bool,
    esc: bool,
)
    requires
        0 <= start <= i <= s.len(),
        !in_str ==> !esc,
    ensures
        crate::scan::index_from(s, ',', i, depth, in_str, esc) matches Some(k) ==> split_from(
            s,
            i,
            start,
            depth,
            in_str,
            esc,
        ) == seq![s.subrange(start, k)] + split_from(s, k + 1, k + 1, 0, false, false),
    decreases s.len() - i,
{
    if i < s.len() {
        let c = s[i];
        if in_str {
            if esc {
                lemma_split_at_comma(s, i + 1, start, depth, true, false);
            } else if c == '\\' {
                lemma_split_at_comma(s, i + 1, start, depth, true, true);
            } else if c == '"' {
                lemma_split_at_comma(s, i + 1, start, depth, false, false);
            } else {
                lemma_split_at_comma(s, i + 1, start, depth, true, false);
            }
        } else if c == '"' {
            lemma_split_at_comma(s, i + 1, start, depth, true, esc);
        } else if crate::scan::is_opening(c) {
            lemma_split_at_comma(s, i + 1, start, depth + 1, false, esc);
        } else if crate::scan::is_closing(c) {
            lemma_split_at_comma(s, i + 1, start, depth - 1, false, esc);
        } else if c == ',' && depth == 0 {
        } else {
            lemma_split_at_comma(s, i + 1, start, depth, false, esc);
        }
    }
}

/// Splitting at top-level commas is splitting at the first one and then
/// splitting the rest: so there is one piece more than there are top-level
/// commas.
pub proof fn law_split_at_first_comma(s: Seq<char>)
    ensures
        crate::scan::spec_split_index(s, ',') matches Some(k) ==> k < s.len()
            && spec_split_commas(s) == seq![s.subrange(0, k)] + spec_split_commas(
            s.subrange(k + 1, s.len() as int),
        ),
{
    crate::scan::lemma_index_from(s, ',', 0, 0, false, false);
    if let Some(k) = crate::scan::spec_split_index(s, ',') {
        lemma_split_at_comma(s, 0, 0, 0, false, false);
        lemma_split_shift(s, k + 1, k + 1, k + 1, 0, false, false);
    }
}

/// The widest row is as wide as some row and at least as wide as every row;
/// with no rows it is 1.
pub proof fn law_widest_row(rows: Seq<Seq<Seq<crate::syntax::InlineModel>>>)
    ensures
        rows.len() == 0 ==> crate::emit::widest(rows) == 1,
        forall|k: int| 0 <= k < rows.len() ==> rows[k].len() <= crate::emit::widest(rows),
        rows.len() > 0 ==> exists|k: int|
            0 <= k < rows.len() && rows[k].len() == crate::emit::widest(rows),
    decreases rows.len(),
{
    if rows.len() > 1 {
        let front = rows.drop_last();
        law_widest_row(front);
        assert forall|k: int| 0 <= k < rows.len() implies rows[k].len() <= crate::emit::widest(
            rows,
        ) by {
            if k < front.len() {
                assert(front[k] == rows[k]);
            }
        }
        let w = crate::emit::widest(front);
        if rows.last().len() > w {
            assert(rows[rows.len() - 1].len() == crate::emit::widest(rows));
        } else {
            let k = choose|k: int| 0 <= k < front.len() && front[k].len() == w;
            assert(rows[k] == front[k]);
        }
    } else if rows.len() == 1 {
        assert(rows[0].len() == crate::emit::widest(rows));
    }
}

/// A table's column specification has one letter per column: the given
/// alignments as `l`, `c` and `r`, or, with none given, one `l` for each
/// cell of the widest row.
pub proof fn law_column_spec(
    columns: Seq<crate::syntax::Align>,
    rows: Seq<Seq<Seq<crate::syntax::InlineModel>>>,
)
    ensures
        columns.len() > 0 ==> crate::emit::spec_column_spec(columns, rows).len() == columns.len()
            && forall|i: int|
            0 <= i < columns.len() ==> crate::emit::spec_column_spec(columns, rows)[i]
                == crate::emit::align_char(columns[i]),
        columns.len() == 0 ==> crate::emit::spec_column_spec(columns, rows).len()
            == crate::emit::widest(rows) && forall|i: int|
            0 <= i < crate::emit::widest(rows) ==> crate::emit::spec_column_spec(columns, rows)[i]
                == 'l',
{
    law_widest_row(rows);
}

} // verus!
