use vitamins::{compile_to_latex, parse, Diagnostic};

fn refused(source: &str) -> Diagnostic {
    compile_to_latex(source).expect_err("invalid document fails")
}

fn check(source: &str, line: usize, message: &str) {
    let error = refused(source);
    assert_eq!(error.line, line, "line of `{}`", error.message);
    assert_eq!(error.message, message);
}

#[test]
fn empty_source_asks_for_a_paper() {
    check("", 1, "expected `paper \"Title\" do`");
    check("\n   \n# only a comment\n", 1, "expected `paper \"Title\" do`");
}

#[test]
fn paper_header_errors() {
    check("article \"T\" do\nend\n", 1, "expected `paper`");
    check("\n\npaper \"T\"\nend\n", 3, "expected `paper \"...\" do`");
    check("paper T do\nend\n", 1, "expected string literal");
}

#[test]
fn unclosed_paper_reports_its_opening_line() {
    check("\n# notes\npaper \"T\" do\n  p \"x\"\n", 3, "unclosed paper block");
}

#[test]
fn unknown_statement_quotes_the_line() {
    check("paper \"T\" do\n  frobnicate now\nend\n", 2, "unknown Vitamins statement: `frobnicate now`");
}

#[test]
fn section_errors() {
    check("paper \"T\" do\n  section \"A\"\nend\n", 2, "expected `section \"...\" do`");
    check("paper \"T\" do\n  section \"A\" do\n    p \"x\"\n", 2, "unclosed block");
    check(
        "paper \"T\" do\n  subsection \"A\" do\n    nonsense\n  end\nend\n",
        3,
        "unknown Vitamins statement: `nonsense`",
    );
}

#[test]
fn list_errors() {
    check(
        "paper \"T\" do\n  items do\n    item \"a\"\n    thing \"b\"\n  end\nend\n",
        4,
        "expected `item ...`",
    );
    check("paper \"T\" do\n  steps do\n    item \"a\"\n", 2, "unclosed list block");
}

#[test]
fn figure_errors() {
    check(
        "paper \"T\" do\n  figure width: 0.5.page do\n  end\nend\n",
        2,
        "figure requires `path: \"...\"`",
    );
    check("paper \"T\" do\n  figure path: \"a.pdf\" do\n", 2, "unclosed figure block");
    check(
        "paper \"T\" do\n  figure path: \"a.pdf\" do\n    width 3\n  end\nend\n",
        3,
        "expected `caption ...` or `label ...` in figure",
    );
    check(
        "paper \"T\" do\n  figure path: \"a.pdf\" do\n    label 42\n  end\nend\n",
        3,
        "expected symbol like `:name`",
    );
    check("paper \"T\" do\n  figure path: \"a.pdf\"\nend\n", 2, "expected `figure ... do`");
}

#[test]
fn table_errors() {
    check(
        "paper \"T\" do\n  table do\n    cell \"a\"\n  end\nend\n",
        3,
        "expected `columns`, `row`, `rule`, or `caption` in table",
    );
    check("paper \"T\" do\n  table do\n    row \"a\"\n", 2, "unclosed table block");
    check(
        "paper \"T\" do\n  table do\n    columns :left, middle\n  end\nend\n",
        3,
        "unknown column alignment `middle`",
    );
}

#[test]
fn compare_errors() {
    check(
        "paper \"T\" do\n  compare do\n    ruby \"x\"\n  end\nend\n",
        3,
        "expected `latex ...` or `vitamins ...` in compare block",
    );
    check("paper \"T\" do\n  compare do\n", 2, "unclosed compare block");
}

#[test]
fn equation_errors() {
    check("paper \"T\" do\n  equation do\n    x == 1\n", 2, "unclosed raw block");
    check("paper \"T\" do\n  equation label: :x\nend\n", 2, "expected `equation ... do`");
    check(
        "paper \"T\" do\n  equation label: 7 do\n    x\n  end\nend\n",
        2,
        "expected symbol like `:name`",
    );
}

#[test]
fn string_literal_errors() {
    check("paper \"T\" do\n  author Ada\nend\n", 2, "expected string literal");
    check("paper \"T\" do\n  author \"Ada\nend\n", 2, "unterminated string literal");
    check("paper \"T\" do\n  author \"Ada\\\nend\n", 2, "unterminated escape sequence");
    check(
        "paper \"T\" do\n  author \"Ada\" Lovelace\nend\n",
        2,
        "unexpected text after string literal",
    );
    check("paper \"T\" do\n  date tomorrow\nend\n", 2, "expected string literal");
}

#[test]
fn unknown_feature_lists_the_known_ones() {
    check(
        "paper \"T\" do\n  use colour\nend\n",
        2,
        "unknown feature `colour`; expected math, theorem, graphics, or bibliography",
    );
}

#[test]
fn macro_definition_errors() {
    check("paper \"T\" do\n  define (x) \"y\"\nend\n", 2, "expected macro name after `define`");
    check("paper \"T\" do\n  define 12 \"y\"\nend\n", 2, "expected macro name after `define`");
    check(
        "paper \"T\" do\n  define my_norm(x) \"y\"\nend\n",
        2,
        "macro names must contain only ASCII letters",
    );
    check(
        "paper \"T\" do\n  define norm \"y\"\nend\n",
        2,
        "expected macro parameters in `(...)`",
    );
    check("paper \"T\" do\n  define norm(x \"y\"\nend\n", 2, "unclosed macro parameter list");
    check("paper \"T\" do\n  define norm(1x) \"y\"\nend\n", 2, "invalid macro parameter `1x`");
    check(
        "paper \"T\" do\n  define norm(x, x) \"y\"\nend\n",
        2,
        "duplicate macro parameter `x`",
    );
    check(
        "paper \"T\" do\n  define norm(x) \"a\"\n  define norm(y, z) \"b\"\nend\n",
        3,
        "macro `norm` is already defined",
    );
}

#[test]
fn inline_errors() {
    check("paper \"T\" do\n  p \"x\".underline\nend\n", 2, "unknown string formatting chain");
    check("paper \"T\" do\n  p \"x\" y\nend\n", 2, "unexpected text after inline string");
    check("paper \"T\" do\n  p cite(42)\nend\n", 2, "expected symbol like `:name`");
}

#[test]
fn parse_reports_what_compile_reports() {
    let source = "paper \"T\" do\n  nonsense\nend\n";
    let from_parse = parse(source).expect_err("invalid document fails");
    let from_compile = refused(source);
    assert_eq!(from_parse, from_compile);
}

#[test]
fn diagnostic_describes_itself_with_its_line() {
    let error = refused("\npaper \"Oops\" do\n  nonsense\nend\n");
    assert_eq!(error.describe(), "line 3: unknown Vitamins statement: `nonsense`");
    let wide = Diagnostic { line: 1205, message: "unclosed block".to_string() };
    assert_eq!(wide.describe(), "line 1205: unclosed block");
}

#[test]
fn diagnostics_always_point_into_the_source() {
    let sources = [
        "",
        "\n\n\n",
        "paper \"T\" do",
        "paper \"T\" do\n  section \"A\" do\n\n\n",
        "paper \"T\" do\n  equation do\n    sum i: 1..n do\n",
        "paper \"T\" do\n  figure path: \"x\" do\n    caption 3\n  end\nend",
        "\n\n\npaper \"T\" do\n  table do\n    row \"a\", \"b\n  end\nend\n",
        "paper \"T\" do\n  compare do\n    vitamins bold \"x\".wide\n  end\nend\n",
    ];
    for source in sources {
        let error = refused(source);
        let count = source.lines().count().max(1);
        assert!(1 <= error.line && error.line <= count, "{source:?} gave line {}", error.line);
    }
}
