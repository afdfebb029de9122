//! Emitting LaTeX for a parsed document.
use vstd::prelude::*;

use crate::features::{detect_features, spec_detect_features};
use crate::math::{render_math, spec_render_math};
use crate::syntax::{
    blocks_model, definitions_model, inline_lists_model, inlines_model, rows_model, Align, Block,
    BlockModel, DateModel, DateValue, Definition, DefinitionModel, Document, DocumentModel,
    Inline, InlineModel,
};
use crate::text::{
    alnum, chars_of, decimal, has_suffix, is_alnum, is_ws, push_all, push_decimal, push_str,
    slice, spec_find, whitespace,
};

verus! {

// ---------------------------------------------------------------------------
// Escaping
// ---------------------------------------------------------------------------

/// How `c` is written in LaTeX text.
pub open spec fn escape_char(c: char) -> Seq<char> {
    if c == '&' {
        "\\&"@
    } else if c == '%' {
        "\\%"@
    } else if c == '$' {
        "\\$"@
    } else if c == '#' {
        "\\#"@
    } else if c == '_' {
        "\\_"@
    } else if c == '{' {
        "\\{"@
    } else if c == '}' {
        "\\}"@
    } else if c == '~' {
        "\\textasciitilde{}"@
    } else if c == '^' {
        "\\textasciicircum{}"@
    } else if c == '\\' {
        "\\textbackslash{}"@
    } else {
        seq![c]
    }
}

/// `s` as LaTeX text: each special character escaped.
pub open spec fn spec_escape_latex(s: Seq<char>) -> Seq<char>
    decreases s.len(),
{
    if s.len() == 0 {
        seq![]
    } else {
        spec_escape_latex(s.drop_last()) + escape_char(s.last())
    }
}

pub fn escape_latex(s: &Vec<char>) -> (r: Vec<char>)
    ensures
        r@ == spec_escape_latex(s@),
{
    let mut out: Vec<char> = Vec::new();
    let mut i: usize = 0;
    while i < s.len()
        invariant
            i <= s.len(),
            out@ == spec_escape_latex(s@.subrange(0, i as int)),
        decreases s.len() - i,
    {
        let c = s[i];
        if c == '&' {
            push_str(&mut out, "\\&");
        } else if c == '%' {
            push_str(&mut out, "\\%");
        } else if c == '$' {
            push_str(&mut out, "\\$");
        } else if c == '#' {
            push_str(&mut out, "\\#");
        } else if c == '_' {
            push_str(&mut out, "\\_");
        } else if c == '{' {
            push_str(&mut out, "\\{");
        } else if c == '}' {
            push_str(&mut out, "\\}");
        } else if c == '~' {
            push_str(&mut out, "\\textasciitilde{}");
        } else if c == '^' {
            push_str(&mut out, "\\textasciicircum{}");
        } else if c == '\\' {
            push_str(&mut out, "\\textbackslash{}");
        } else {
            out.push(c);
        }
        assert(s@.subrange(0, i + 1).drop_last() =~= s@.subrange(0, i as int));
        i += 1;
    }
    assert(s@.subrange(0, s.len() as int) =~= s@);
    out
}

/// A character allowed in a label or citation key; any other becomes `-`.
pub open spec fn id_char(c: char) -> char {
    if is_alnum(c) || c == ':' || c == '_' || c == '-' || c == '.' || c == '/' {
        c
    } else {
        '-'
    }
}

pub open spec fn spec_latex_identifier(s: Seq<char>) -> Seq<char> {
    s.map_values(|c: char| id_char(c))
}

pub fn latex_identifier(s: &Vec<char>) -> (r: Vec<char>)
    ensures
        r@ == spec_latex_identifier(s@),
{
    let mut out: Vec<char> = Vec::new();
    let mut i: usize = 0;
    while i < s.len()
        invariant
            i <= s.len(),
            out@ == spec_latex_identifier(s@.subrange(0, i as int)),
        decreases s.len() - i,
    {
        let c = s[i];
        let d = if alnum(c) || c == ':' || c == '_' || c == '-' || c == '.' || c == '/' {
            c
        } else {
            '-'
        };
        out.push(d);
        assert(spec_latex_identifier(s@.subrange(0, i + 1)) =~= spec_latex_identifier(
            s@.subrange(0, i as int),
        ).push(d));
        i += 1;
    }
    assert(s@.subrange(0, s.len() as int) =~= s@);
    out
}

/// A label in a scope: `scope:label`, unless the label names its own scope.
pub open spec fn spec_scoped_label(scope: Seq<char>, label: Seq<char>) -> Seq<char> {
    if spec_find(label, seq![':']) is Some {
        spec_latex_identifier(label)
    } else {
        scope + ":"@ + spec_latex_identifier(label)
    }
}

pub fn scoped_label(scope: &str, label: &Vec<char>) -> (r: Vec<char>)
    ensures
        r@ == spec_scoped_label(scope@, label@),
{
    let colon = vec![':'];
    assert(colon@ =~= seq![':']);
    if crate::text::contains(label, &colon) {
        latex_identifier(label)
    } else {
        let mut out = chars_of(scope);
        push_str(&mut out, ":");
        let id = latex_identifier(label);
        push_all(&mut out, &id);
        out
    }
}

/// `s` with every trailing `p` removed.
pub open spec fn spec_trim_end_matches(s: Seq<char>, p: Seq<char>) -> Seq<char>
    decreases s.len(),
{
    if p.len() > 0 && has_suffix(s, p) {
        spec_trim_end_matches(s.subrange(0, s.len() - p.len()), p)
    } else {
        s
    }
}

pub fn trim_end_matches(s: &Vec<char>, p: &str) -> (r: Vec<char>)
    ensures
        r@ == spec_trim_end_matches(s@, p@),
{
    let p = chars_of(p);
    let mut cur = s.clone();
    while p.len() > 0 && crate::text::ends_with(&cur, &p)
        invariant
            spec_trim_end_matches(cur@, p@) == spec_trim_end_matches(s@, p@),
        decreases cur.len(),
    {
        cur = slice(&cur, 0, cur.len() - p.len());
    }
    cur
}

// ---------------------------------------------------------------------------
// Inline content
// ---------------------------------------------------------------------------

/// A space goes between two rendered pieces unless one is empty, the first
/// ends in whitespace, or the second starts with closing punctuation.
pub open spec fn spec_needs_space(previous: Seq<char>, next: Seq<char>) -> bool {
    &&& previous.len() > 0
    &&& next.len() > 0
    &&& !is_ws(previous.last())
    &&& !(next[0] == '.' || next[0] == ',' || next[0] == ';' || next[0] == ':' || next[0] == '!'
        || next[0] == '?' || next[0] == ')' || next[0] == ']')
}

pub fn needs_space(previous: &Vec<char>, next: &Vec<char>) -> (b: bool)
    ensures
        b == spec_needs_space(previous@, next@),
{
    if previous.len() == 0 || next.len() == 0 {
        return false;
    }
    if whitespace(previous[previous.len() - 1]) {
        return false;
    }
    let first = next[0];
    !(first == '.' || first == ',' || first == ';' || first == ':' || first == '!' || first == '?'
        || first == ')' || first == ']')
}

/// An inline item as LaTeX.
pub open spec fn spec_render_inline(i: InlineModel, defs: Seq<DefinitionModel>) -> Seq<char>
    decreases i,
{
    match i {
        InlineModel::Bold(c) => "\\textbf{"@ + spec_render_sequence(c, defs) + "}"@,
        InlineModel::Cite(k) => "\\cite{"@ + spec_latex_identifier(k) + "}"@,
        InlineModel::Italic(c) => "\\textit{"@ + spec_render_sequence(c, defs) + "}"@,
        InlineModel::Latex(v) => v,
        InlineModel::Math(e) => "$"@ + spec_render_math(e, defs) + "$"@,
        InlineModel::Ref(k) => "\\ref{"@ + spec_latex_identifier(k) + "}"@,
        InlineModel::SmallCaps(c) => "\\textsc{"@ + spec_render_sequence(c, defs) + "}"@,
        InlineModel::Text(v) => spec_escape_latex(v),
    }
}

/// Inline items rendered one after another, with a space where one is needed.
pub open spec fn spec_render_sequence(s: Seq<InlineModel>, defs: Seq<DefinitionModel>) -> Seq<
    char,
>
    decreases s,
{
    if s.len() == 0 {
        seq![]
    } else {
        let previous = spec_render_sequence(s.drop_last(), defs);
        let next = spec_render_inline(s.last(), defs);
        previous + (if spec_needs_space(previous, next) {
            seq![' ']
        } else {
            seq![]
        }) + next
    }
}

pub fn render_inline(inline: &Inline, defs: &Vec<Definition>) -> (r: Vec<char>)
    ensures
        r@ == spec_render_inline(inline.model(), definitions_model(defs@)),
    decreases inline,
{
    match inline {
        Inline::Bold(children) => {
            let mut out = chars_of("\\textbf{");
            let inner = render_inline_sequence(children, defs);
            push_all(&mut out, &inner);
            push_str(&mut out, "}");
            out
        },
        Inline::Cite(key) => {
            let mut out = chars_of("\\cite{");
            let id = latex_identifier(key);
            push_all(&mut out, &id);
            push_str(&mut out, "}");
            out
        },
        Inline::Italic(children) => {
            let mut out = chars_of("\\textit{");
            let inner = render_inline_sequence(children, defs);
            push_all(&mut out, &inner);
            push_str(&mut out, "}");
            out
        },
        Inline::Latex(value) => value.clone(),
        Inline::Math(expr) => {
            let mut out = chars_of("$");
            let math = render_math(expr, defs);
            push_all(&mut out, &math);
            push_str(&mut out, "$");
            out
        },
        Inline::Ref(key) => {
            let mut out = chars_of("\\ref{");
            let id = latex_identifier(key);
            push_all(&mut out, &id);
            push_str(&mut out, "}");
            out
        },
        Inline::SmallCaps(children) => {
            let mut out = chars_of("\\textsc{");
            let inner = render_inline_sequence(children, defs);
            push_all(&mut out, &inner);
            push_str(&mut out, "}");
            out
        },
        Inline::Text(value) => escape_latex(value),
    }
}

pub fn render_inline_sequence(inlines: &Vec<Inline>, defs: &Vec<Definition>) -> (r: Vec<char>)
    ensures
        r@ == spec_render_sequence(inlines_model(inlines@), definitions_model(defs@)),
    decreases inlines,
{
    let ghost m = inlines_model(inlines@);
    let ghost dm = definitions_model(defs@);
    let mut output: Vec<char> = Vec::new();
    let mut i: usize = 0;
    while i < inlines.len()
        invariant
            i <= inlines.len(),
            m == inlines_model(inlines@),
            dm == definitions_model(defs@),
            output@ == spec_render_sequence(m.subrange(0, i as int), dm),
        decreases inlines.len() - i,
    {
        let rendered = render_inline(&inlines[i], defs);
        if needs_space(&output, &rendered) {
            output.push(' ');
        }
        push_all(&mut output, &rendered);
        proof {
            let s = m.subrange(0, i + 1);
            assert(s.drop_last() =~= m.subrange(0, i as int));
            assert(s.last() == inlines@[i as int].model());
        }
        i += 1;
    }
    assert(m.subrange(0, inlines.len() as int) =~= m);
    output
}

// ---------------------------------------------------------------------------
// Blocks
// ---------------------------------------------------------------------------

/// A line of output: the text and a newline.
pub open spec fn line(s: Seq<char>) -> Seq<char> {
    s + "\n"@
}

pub fn push_line(out: &mut Vec<char>, s: &Vec<char>)
    ensures
        final(out)@ == old(out)@ + line(s@),
{
    push_all(out, s);
    push_str(out, "\n");
}

pub fn push_line_str(out: &mut Vec<char>, s: &str)
    ensures
        final(out)@ == old(out)@ + line(s@),
{
    push_str(out, s);
    push_str(out, "\n");
}

/// An optional line.
pub open spec fn line_if(b: bool, s: Seq<char>) -> Seq<char> {
    if b {
        line(s)
    } else {
        seq![]
    }
}

/// The items of a list, one `\item` line each.
pub open spec fn spec_items(items: Seq<Seq<InlineModel>>, defs: Seq<DefinitionModel>) -> Seq<char>
    decreases items.len(),
{
    if items.len() == 0 {
        seq![]
    } else {
        spec_items(items.drop_last(), defs) + line(
            "\\item "@ + spec_render_sequence(items.last(), defs),
        )
    }
}

pub open spec fn spec_emit_list(
    environment: Seq<char>,
    items: Seq<Seq<InlineModel>>,
    defs: Seq<DefinitionModel>,
) -> Seq<char> {
    line("\\begin{"@ + environment + "}"@) + spec_items(items, defs) + line(
        "\\end{"@ + environment + "}"@,
    )
}

pub open spec fn align_char(a: Align) -> char {
    match a {
        Align::Left => 'l',
        Align::Center => 'c',
        Align::Right => 'r',
    }
}

/// The widest row, or 1 when there are no rows.
pub open spec fn widest(rows: Seq<Seq<Seq<InlineModel>>>) -> nat
    decreases rows.len(),
{
    if rows.len() == 0 {
        1
    } else if rows.len() == 1 {
        rows[0].len()
    } else {
        let w = widest(rows.drop_last());
        if rows.last().len() > w {
            rows.last().len()
        } else {
            w
        }
    }
}

/// The tabular column specification: the alignments given, or one `l` per
/// column of the widest row.
pub open spec fn spec_column_spec(columns: Seq<Align>, rows: Seq<Seq<Seq<InlineModel>>>) -> Seq<
    char,
> {
    if columns.len() == 0 {
        Seq::new(widest(rows), |i: int| 'l')
    } else {
        columns.map_values(|a: Align| align_char(a))
    }
}

/// The cells of a row rendered and joined by `" & "`.
pub open spec fn spec_cells(cells: Seq<Seq<InlineModel>>, defs: Seq<DefinitionModel>) -> Seq<char>
    decreases cells.len(),
{
    if cells.len() == 0 {
        seq![]
    } else if cells.len() == 1 {
        spec_render_sequence(cells[0], defs)
    } else {
        spec_cells(cells.drop_last(), defs) + " & "@ + spec_render_sequence(cells.last(), defs)
    }
}

/// The rows of a table, each after an `\hline` when a rule stands before it.
pub open spec fn spec_rows(
    rows: Seq<Seq<Seq<InlineModel>>>,
    rules: Seq<usize>,
    defs: Seq<DefinitionModel>,
) -> Seq<char>
    decreases rows.len(),
{
    if rows.len() == 0 {
        seq![]
    } else {
        let k = rows.len() - 1;
        spec_rows(rows.drop_last(), rules, defs) + line_if(
            rules.contains(k as usize),
            "\\hline"@,
        ) + line(spec_cells(rows.last(), defs) + " \\\\"@)
    }
}

pub open spec fn spec_emit_table(
    columns: Seq<Align>,
    rows: Seq<Seq<Seq<InlineModel>>>,
    rules: Seq<usize>,
    caption: Option<Seq<char>>,
    defs: Seq<DefinitionModel>,
) -> Seq<char> {
    line("\\begin{table}"@) + line("\\centering"@) + line(
        "\\begin{tabular}{"@ + spec_column_spec(columns, rows) + "}"@,
    ) + spec_rows(rows, rules, defs) + line_if(rules.contains(rows.len() as usize), "\\hline"@)
        + line("\\end{tabular}"@) + (match caption {
        Some(c) => line("\\caption{"@ + spec_escape_latex(c) + "}"@),
        None => seq![],
    }) + line("\\end{table}"@)
}

pub open spec fn section_command(level: u8) -> Seq<char> {
    if level == 1 {
        "section"@
    } else if level == 2 {
        "subsection"@
    } else {
        "subsubsection"@
    }
}

/// A block as LaTeX.
pub open spec fn spec_emit_block(b: BlockModel, defs: Seq<DefinitionModel>) -> Seq<char>
    decreases b,
{
    match b {
        BlockModel::Abstract(c) => line("\\begin{abstract}"@) + spec_emit_blocks(c, defs) + line(
            "\\end{abstract}"@,
        ),
        BlockModel::Bibliography(path) => line("\\bibliographystyle{plain}"@) + line(
            "\\bibliography{"@ + spec_escape_latex(spec_trim_end_matches(path, ".bib"@)) + "}"@,
        ),
        BlockModel::Compare { latex, vitamins } => line("\\begin{quote}"@) + line(
            "LaTeX: \\texttt{"@ + spec_escape_latex(latex) + "}\\\\"@,
        ) + line("Vitamins: "@ + spec_render_sequence(vitamins, defs)) + line("\\end{quote}"@),
        BlockModel::Equation { label, expr } => {
            let math = spec_render_math(expr, defs);
            match label {
                Some(l) => line("\\begin{equation}"@) + line(
                    "\\label{"@ + spec_latex_identifier(l) + "}"@,
                ) + line(math) + line("\\end{equation}"@),
                None => line("\\["@) + line(math) + line("\\]"@),
            }
        },
        BlockModel::Figure { path, width, caption, label } => line("\\begin{figure}"@) + line(
            "\\centering"@,
        ) + (match width {
            Some(w) => line(
                "\\includegraphics[width="@ + w + "]{"@ + spec_escape_latex(path) + "}"@,
            ),
            None => line("\\includegraphics{"@ + spec_escape_latex(path) + "}"@),
        }) + (match caption {
            Some(c) => line("\\caption{"@ + spec_escape_latex(c) + "}"@),
            None => seq![],
        }) + (match label {
            Some(l) => line("\\label{"@ + spec_scoped_label("fig"@, l) + "}"@),
            None => seq![],
        }) + line("\\end{figure}"@),
        BlockModel::Items(items) => spec_emit_list("itemize"@, items, defs),
        BlockModel::Paragraph(i) => line(spec_render_sequence(i, defs)),
        BlockModel::Proof(c) => line("\\begin{proof}"@) + spec_emit_blocks(c, defs) + line(
            "\\end{proof}"@,
        ),
        BlockModel::Quote(c) => line("\\begin{quote}"@) + spec_emit_blocks(c, defs) + line(
            "\\end{quote}"@,
        ),
        BlockModel::RawLatex(v) => line(v),
        BlockModel::Section { level, title, children } => line(
            "\\"@ + section_command(level) + "{"@ + spec_escape_latex(title) + "}"@,
        ) + spec_emit_blocks(children, defs),
        BlockModel::Steps(items) => spec_emit_list("enumerate"@, items, defs),
        BlockModel::Table { columns, rows, rules, caption } => spec_emit_table(
            columns,
            rows,
            rules,
            caption,
            defs,
        ),
        BlockModel::Theorem { title, children } => (match title {
            Some(t) => line("\\begin{theorem}["@ + spec_escape_latex(t) + "]"@),
            None => line("\\begin{theorem}"@),
        }) + spec_emit_blocks(children, defs) + line("\\end{theorem}"@),
    }
}

pub open spec fn spec_emit_blocks(s: Seq<BlockModel>, defs: Seq<DefinitionModel>) -> Seq<char>
    decreases s,
{
    if s.len() == 0 {
        seq![]
    } else {
        spec_emit_blocks(s.drop_last(), defs) + spec_emit_block(s.last(), defs)
    }
}

pub fn emit_list(
    out: &mut Vec<char>,
    environment: &str,
    items: &Vec<Vec<Inline>>,
    defs: &Vec<Definition>,
)
    ensures
        final(out)@ == old(out)@ + spec_emit_list(
            environment@,
            inline_lists_model(items@),
            definitions_model(defs@),
        ),
{
    let ghost m = inline_lists_model(items@);
    let ghost dm = definitions_model(defs@);
    let ghost start = out@;
    let mut begin = chars_of("\\begin{");
    push_str(&mut begin, environment);
    push_str(&mut begin, "}");
    push_line(out, &begin);
    let ghost head = out@;
    let mut i: usize = 0;
    while i < items.len()
        invariant
            i <= items.len(),
            m == inline_lists_model(items@),
            dm == definitions_model(defs@),
            out@ == head + spec_items(m.subrange(0, i as int), dm),
        decreases items.len() - i,
    {
        let mut item = chars_of("\\item ");
        let rendered = render_inline_sequence(&items[i], defs);
        push_all(&mut item, &rendered);
        push_line(out, &item);
        proof {
            let s = m.subrange(0, i + 1);
            assert(s.drop_last() =~= m.subrange(0, i as int));
            assert(s.last() == inlines_model(items@[i as int]@));
        }
        i += 1;
    }
    assert(m.subrange(0, items.len() as int) =~= m);
    let mut end = chars_of("\\end{");
    push_str(&mut end, environment);
    push_str(&mut end, "}");
    push_line(out, &end);
}

/// Whether `v` holds `x`.
pub fn holds(v: &Vec<usize>, x: usize) -> (b: bool)
    ensures
        b == v@.contains(x),
{
    let mut i: usize = 0;
    while i < v.len()
        invariant
            i <= v.len(),
            forall|j: int| 0 <= j < i ==> v@[j] != x,
        decreases v.len() - i,
    {
        if v[i] == x {
            assert(v@[i as int] == x);
            return true;
        }
        i += 1;
    }
    false
}

pub fn column_spec(columns: &Vec<Align>, rows: &Vec<Vec<Vec<Inline>>>) -> (r: Vec<char>)
    ensures
        r@ == spec_column_spec(columns@, rows_model(rows@)),
{
    let ghost m = rows_model(rows@);
    let mut out: Vec<char> = Vec::new();
    if columns.len() == 0 {
        let mut inferred: usize = 1;
        if rows.len() > 0 {
            inferred = rows[0].len();
            let mut i: usize = 1;
            assert(m.subrange(0, 1).len() == 1);
            assert(m[0].len() == rows@[0].len());
            while i < rows.len()
                invariant
                    1 <= i <= rows.len(),
                    m == rows_model(rows@),
                    inferred == widest(m.subrange(0, i as int)),
                decreases rows.len() - i,
            {
                let ghost s = m.subrange(0, i + 1);
                assert(s.drop_last() =~= m.subrange(0, i as int));
                assert(s.last().len() == rows@[i as int].len());
                if rows[i].len() > inferred {
                    inferred = rows[i].len();
                }
                i += 1;
            }
            assert(m.subrange(0, rows.len() as int) =~= m);
        }
        let mut k: usize = 0;
        while k < inferred
            invariant
                k <= inferred,
                out@ == Seq::new(k as nat, |j: int| 'l'),
            decreases inferred - k,
        {
            out.push('l');
            k += 1;
            assert(out@ =~= Seq::new(k as nat, |j: int| 'l'));
        }
        out
    } else {
        let mut i: usize = 0;
        while i < columns.len()
            invariant
                i <= columns.len(),
                out@ == columns@.subrange(0, i as int).map_values(|a: Align| align_char(a)),
            decreases columns.len() - i,
        {
            let c = match columns[i] {
                Align::Left => 'l',
                Align::Center => 'c',
                Align::Right => 'r',
            };
            out.push(c);
            i += 1;
            assert(out@ =~= columns@.subrange(0, i as int).map_values(|a: Align| align_char(a)));
        }
        assert(columns@.subrange(0, columns.len() as int) =~= columns@);
        out
    }
}

pub fn render_cells(cells: &Vec<Vec<Inline>>, defs: &Vec<Definition>) -> (r: Vec<char>)
    ensures
        r@ == spec_cells(inline_lists_model(cells@), definitions_model(defs@)),
{
    let ghost m = inline_lists_model(cells@);
    let ghost dm = definitions_model(defs@);
    let mut out: Vec<char> = Vec::new();
    let mut i: usize = 0;
    while i < cells.len()
        invariant
            i <= cells.len(),
            m == inline_lists_model(cells@),
            dm == definitions_model(defs@),
            out@ == spec_cells(m.subrange(0, i as int), dm),
        decreases cells.len() - i,
    {
        if i > 0 {
            push_str(&mut out, " & ");
        }
        let rendered = render_inline_sequence(&cells[i], defs);
        push_all(&mut out, &rendered);
        proof {
            let s = m.subrange(0, i + 1);
            assert(s.drop_last() =~= m.subrange(0, i as int));
            assert(s.last() == inlines_model(cells@[i as int]@));
            if i == 0 {
                assert(out@ =~= spec_render_sequence(s[0], dm));
            }
        }
        i += 1;
    }
    assert(m.subrange(0, cells.len() as int) =~= m);
    out
}

pub fn emit_table(
    out: &mut Vec<char>,
    columns: &Vec<Align>,
    rows: &Vec<Vec<Vec<Inline>>>,
    rules: &Vec<usize>,
    caption: &Option<Vec<char>>,
    defs: &Vec<Definition>,
)
    ensures
        final(out)@ == old(out)@ + spec_emit_table(
            columns@,
            rows_model(rows@),
            rules@,
            crate::syntax::opt_chars(*caption),
            definitions_model(defs@),
        ),
{
    let ghost m = rows_model(rows@);
    let ghost dm = definitions_model(defs@);
    let ghost start = out@;
    let spec = column_spec(columns, rows);
    push_line_str(out, "\\begin{table}");
    push_line_str(out, "\\centering");
    let mut tabular = chars_of("\\begin{tabular}{");
    push_all(&mut tabular, &spec);
    push_str(&mut tabular, "}");
    push_line(out, &tabular);
    let ghost head = out@;
    let mut i: usize = 0;
    while i < rows.len()
        invariant
            i <= rows.len(),
            m == rows_model(rows@),
            dm == definitions_model(defs@),
            out@ == head + spec_rows(m.subrange(0, i as int), rules@, dm),
        decreases rows.len() - i,
    {
        if holds(rules, i) {
            push_line_str(out, "\\hline");
        }
        let mut row = render_cells(&rows[i], defs);
        push_str(&mut row, " \\\\");
        push_line(out, &row);
        proof {
            let s = m.subrange(0, i + 1);
            assert(s.drop_last() =~= m.subrange(0, i as int));
            assert(s.last() == inline_lists_model(rows@[i as int]@));
        }
        i += 1;
    }
    assert(m.subrange(0, rows.len() as int) =~= m);
    if holds(rules, rows.len()) {
        push_line_str(out, "\\hline");
    }
    push_line_str(out, "\\end{tabular}");
    if let Some(c) = caption {
        let mut text = chars_of("\\caption{");
        let escaped = escape_latex(c);
        push_all(&mut text, &escaped);
        push_str(&mut text, "}");
        push_line(out, &text);
    }
    push_line_str(out, "\\end{table}");
}

/// Appends `open`, `middle` and `close` as one line.
fn push_wrapped_line(out: &mut Vec<char>, open: &str, middle: &Vec<char>, close: &str)
    ensures
        final(out)@ == old(out)@ + line(open@ + middle@ + close@),
{
    let mut text = chars_of(open);
    push_all(&mut text, middle);
    push_str(&mut text, close);
    push_line(out, &text);
}

pub fn emit_block(out: &mut Vec<char>, block: &Block, defs: &Vec<Definition>)
    ensures
        final(out)@ == old(out)@ + spec_emit_block(block.model(), definitions_model(defs@)),
    decreases block,
{
    let ghost start = out@;
    match block {
        Block::Abstract(children) => {
            push_line_str(out, "\\begin{abstract}");
            emit_blocks(out, children, defs);
            push_line_str(out, "\\end{abstract}");
        },
        Block::Bibliography(path) => {
            let path = trim_end_matches(path, ".bib");
            push_line_str(out, "\\bibliographystyle{plain}");
            let escaped = escape_latex(&path);
            push_wrapped_line(out, "\\bibliography{", &escaped, "}");
        },
        Block::Compare { latex, vitamins } => {
            push_line_str(out, "\\begin{quote}");
            let escaped = escape_latex(latex);
            push_wrapped_line(out, "LaTeX: \\texttt{", &escaped, "}\\\\");
            let mut text = chars_of("Vitamins: ");
            let rendered = render_inline_sequence(vitamins, defs);
            push_all(&mut text, &rendered);
            push_line(out, &text);
            push_line_str(out, "\\end{quote}");
        },
        Block::Equation { label, expr } => {
            let math = render_math(expr, defs);
            if let Some(label) = label {
                push_line_str(out, "\\begin{equation}");
                let id = latex_identifier(label);
                push_wrapped_line(out, "\\label{", &id, "}");
                push_line(out, &math);
                push_line_str(out, "\\end{equation}");
            } else {
                push_line_str(out, "\\[");
                push_line(out, &math);
                push_line_str(out, "\\]");
            }
        },
        Block::Figure { path, width, caption, label } => {
            push_line_str(out, "\\begin{figure}");
            push_line_str(out, "\\centering");
            let escaped = escape_latex(path);
            if let Some(width) = width {
                let mut text = chars_of("\\includegraphics[width=");
                push_all(&mut text, width);
                push_str(&mut text, "]{");
                push_all(&mut text, &escaped);
                push_str(&mut text, "}");
                push_line(out, &text);
            } else {
                push_wrapped_line(out, "\\includegraphics{", &escaped, "}");
            }
            if let Some(caption) = caption {
                let c = escape_latex(caption);
                push_wrapped_line(out, "\\caption{", &c, "}");
            }
            if let Some(label) = label {
                let l = scoped_label("fig", label);
                push_wrapped_line(out, "\\label{", &l, "}");
            }
            push_line_str(out, "\\end{figure}");
        },
        Block::Items(items) => emit_list(out, "itemize", items, defs),
        Block::Paragraph(inlines) => {
            let rendered = render_inline_sequence(inlines, defs);
            push_line(out, &rendered);
        },
        Block::Proof(children) => {
            push_line_str(out, "\\begin{proof}");
            emit_blocks(out, children, defs);
            push_line_str(out, "\\end{proof}");
        },
        Block::Quote(children) => {
            push_line_str(out, "\\begin{quote}");
            emit_blocks(out, children, defs);
            push_line_str(out, "\\end{quote}");
        },
        Block::RawLatex(value) => push_line(out, value),
        Block::Section { level, title, children } => {
            let command = if *level == 1 {
                "section"
            } else if *level == 2 {
                "subsection"
            } else {
                "subsubsection"
            };
            let mut text = chars_of("\\");
            push_str(&mut text, command);
            push_str(&mut text, "{");
            let escaped = escape_latex(title);
            push_all(&mut text, &escaped);
            push_str(&mut text, "}");
            push_line(out, &text);
            emit_blocks(out, children, defs);
        },
        Block::Steps(items) => emit_list(out, "enumerate", items, defs),
        Block::Table { columns, rows, rules, caption } => {
            emit_table(out, columns, rows, rules, caption, defs);
        },
        Block::Theorem { title, children } => {
            if let Some(title) = title {
                let escaped = escape_latex(title);
                push_wrapped_line(out, "\\begin{theorem}[", &escaped, "]");
            } else {
                push_line_str(out, "\\begin{theorem}");
            }
            emit_blocks(out, children, defs);
            push_line_str(out, "\\end{theorem}");
        },
    }
}

pub fn emit_blocks(out: &mut Vec<char>, blocks: &Vec<Block>, defs: &Vec<Definition>)
    ensures
        final(out)@ == old(out)@ + spec_emit_blocks(blocks_model(blocks@), definitions_model(defs@)),
    decreases blocks,
{
    let ghost m = blocks_model(blocks@);
    let ghost dm = definitions_model(defs@);
    let ghost start = out@;
    let mut i: usize = 0;
    while i < blocks.len()
        invariant
            i <= blocks.len(),
            m == blocks_model(blocks@),
            dm == definitions_model(defs@),
            out@ == start + spec_emit_blocks(m.subrange(0, i as int), dm),
        decreases blocks.len() - i,
    {
        emit_block(out, &blocks[i], defs);
        proof {
            let s = m.subrange(0, i + 1);
            assert(s.drop_last() =~= m.subrange(0, i as int));
            assert(s.last() == blocks@[i as int].model());
        }
        i += 1;
    }
    assert(m.subrange(0, blocks.len() as int) =~= m);
}

// ---------------------------------------------------------------------------
// The document
// ---------------------------------------------------------------------------

/// `\newcommand` for a definition, with its arity when it takes parameters.
pub open spec fn spec_emit_definition(d: DefinitionModel) -> Seq<char> {
    if d.params.len() == 0 {
        line("\\newcommand{\\"@ + d.name + "}{"@ + d.latex + "}"@)
    } else {
        line(
            "\\newcommand{\\"@ + d.name + "}["@ + decimal(d.params.len()) + "]{"@ + d.latex
                + "}"@,
        )
    }
}

pub open spec fn spec_emit_definitions(ds: Seq<DefinitionModel>) -> Seq<char>
    decreases ds.len(),
{
    if ds.len() == 0 {
        seq![]
    } else {
        spec_emit_definitions(ds.drop_last()) + spec_emit_definition(ds.last())
    }
}

/// The LaTeX of a document: the preamble its features need, its macros,
/// its title block and its body.
pub open spec fn spec_emit_document(doc: DocumentModel) -> Seq<char> {
    let f = spec_detect_features(doc);
    line("\\documentclass{article}"@) + line_if(f.math, "\\usepackage{amsmath}"@) + line_if(
        f.math,
        "\\usepackage{amssymb}"@,
    ) + line_if(f.theorem, "\\usepackage{amsthm}"@) + line_if(
        f.graphics,
        "\\usepackage{graphicx}"@,
    ) + line_if(f.theorem, "\\newtheorem{theorem}{Theorem}"@) + spec_emit_definitions(
        doc.definitions,
    ) + line("\\title{"@ + spec_escape_latex(doc.title) + "}"@) + (match doc.author {
        Some(a) => line("\\author{"@ + spec_escape_latex(a) + "}"@),
        None => seq![],
    }) + (match doc.date {
        Some(DateModel::Literal(v)) => line("\\date{"@ + spec_escape_latex(v) + "}"@),
        Some(DateModel::Today) => line("\\date{\\today}"@),
        None => seq![],
    }) + line("\\begin{document}"@) + line("\\maketitle"@) + spec_emit_blocks(
        doc.body,
        doc.definitions,
    ) + line("\\end{document}"@)
}

pub fn emit_definition(out: &mut Vec<char>, definition: &Definition)
    ensures
        final(out)@ == old(out)@ + spec_emit_definition(definition.model()),
{
    let arity = definition.params.len();
    let mut text = chars_of("\\newcommand{\\");
    push_all(&mut text, &definition.name);
    if arity == 0 {
        push_str(&mut text, "}{");
    } else {
        push_str(&mut text, "}[");
        push_decimal(&mut text, arity);
        push_str(&mut text, "]{");
    }
    push_all(&mut text, &definition.latex);
    push_str(&mut text, "}");
    push_line(out, &text);
}

pub fn emit_document(document: &Document) -> (r: Vec<char>)
    ensures
        r@ == spec_emit_document(document@),
{
    let features = detect_features(document);
    let mut out: Vec<char> = Vec::new();
    push_line_str(&mut out, "\\documentclass{article}");
    if features.math {
        push_line_str(&mut out, "\\usepackage{amsmath}");
    }
    if features.math {
        push_line_str(&mut out, "\\usepackage{amssymb}");
    }
    if features.theorem {
        push_line_str(&mut out, "\\usepackage{amsthm}");
    }
    if features.graphics {
        push_line_str(&mut out, "\\usepackage{graphicx}");
    }
    if features.theorem {
        push_line_str(&mut out, "\\newtheorem{theorem}{Theorem}");
    }
    let ghost head = out@;
    let ghost dm = definitions_model(document.definitions@);
    let mut i: usize = 0;
    while i < document.definitions.len()
        invariant
            i <= document.definitions.len(),
            dm == definitions_model(document.definitions@),
            out@ == head + spec_emit_definitions(dm.subrange(0, i as int)),
        decreases document.definitions.len() - i,
    {
        emit_definition(&mut out, &document.definitions[i]);
        proof {
            let s = dm.subrange(0, i + 1);
            assert(s.drop_last() =~= dm.subrange(0, i as int));
        }
        i += 1;
    }
    assert(dm.subrange(0, document.definitions.len() as int) =~= dm);
    let title = escape_latex(&document.title);
    push_wrapped_line(&mut out, "\\title{", &title, "}");
    if let Some(author) = &document.author {
        let a = escape_latex(author);
        push_wrapped_line(&mut out, "\\author{", &a, "}");
    }
    if let Some(date) = &document.date {
        match date {
            DateValue::Literal(value) => {
                let v = escape_latex(value);
                push_wrapped_line(&mut out, "\\date{", &v, "}");
            },
            DateValue::Today => push_line_str(&mut out, "\\date{\\today}"),
        }
    }
    push_line_str(&mut out, "\\begin{document}");
    push_line_str(&mut out, "\\maketitle");
    emit_blocks(&mut out, &document.body, &document.definitions);
    push_line_str(&mut out, "\\end{document}");
    out
}

} // verus!
