use vitamins::compile_to_latex;

#[test]
fn compiles_minimal_paper() {
    let source = r#"
paper "The Title" do
  author "Grace Hopper"
  date "June 22, 2026"
  section "Introduction" do
    p "Documents should be pleasant to write."
  end
end
"#;

    let latex = compile_to_latex(source).expect("document compiles");
    assert!(latex.contains("\\documentclass{article}"));
    assert!(latex.contains("\\title{The Title}"));
    assert!(latex.contains("\\author{Grace Hopper}"));
    assert!(latex.contains("\\date{June 22, 2026}"));
    assert!(latex.contains("\\section{Introduction}"));
    assert!(latex.contains("Documents should be pleasant to write."));
}

#[test]
fn compiles_inline_formatting_and_math() {
    let source = r#"
paper "Math" do
  use math
  section "A theorem" do
    p "This is", bold("important"), "and", "very important".bold.small_caps, "."
    equation do
      frac(1, 2) + frac(1, 3) == frac(5, 6)
    end
  end
end
"#;

    let latex = compile_to_latex(source).expect("document compiles");
    assert!(latex.contains("\\textbf{important}"));
    assert!(latex.contains("\\textsc{\\textbf{very important}}"));
    assert!(latex.contains("\\frac{1}{2} + \\frac{1}{3} = \\frac{5}{6}"));
}

#[test]
fn compiles_integrals_sums_and_figures() {
    let source = r#"
paper "Features" do
  equation label: :gaussian do
    integral x: -infinity..infinity do
      exp(-x^2)
    end == sqrt(pi)
  end
  figure path: "diagram.pdf", width: 0.8.page do
    caption "A helpful diagram."
    label :helpful_diagram
  end
end
"#;

    let latex = compile_to_latex(source).expect("document compiles");
    assert!(latex.contains("\\label{gaussian}"));
    assert!(
        latex.contains(
            "\\int_{-\\infty}^{\\infty} \\exp\\left(-x^2\\right) \\, dx = \\sqrt{\\pi}"
        )
    );
    assert!(latex.contains("\\includegraphics[width=0.8\\textwidth]{diagram.pdf}"));
    assert!(latex.contains("\\label{fig:helpful_diagram}"));
}

#[test]
fn compiles_custom_macro_definitions() {
    let source = r#"
paper "Macros" do
  use math
  define norm(x) "\\left\\lVert #1 \\right\\rVert"
  define inner(x, y) "\\left\\langle #1, #2 \\right\\rangle"

  equation do
    norm(v) == sqrt(inner(v, v))
  end
end
"#;

    let latex = compile_to_latex(source).expect("document compiles");
    assert!(latex.contains("\\newcommand{\\norm}[1]{\\left\\lVert #1 \\right\\rVert}"));
    assert!(latex.contains("\\newcommand{\\inner}[2]{\\left\\langle #1, #2 \\right\\rangle}"));
    assert!(latex.contains("\\norm{v} = \\sqrt{\\inner{v}{v}}"));
}

#[test]
fn reports_duplicate_macro_definitions() {
    let source = r#"
paper "Oops" do
  define norm(x) "\\lVert #1 \\rVert"
  define norm(x) "\\lvert #1 \\rvert"
end
"#;

    let error = compile_to_latex(source).expect_err("invalid document fails");
    assert_eq!(error.line, 4);
    assert!(error.message.contains("already defined"));
}

#[test]
fn reports_unknown_statement() {
    let source = r#"
paper "Oops" do
  nonsense
end
"#;

    let error = compile_to_latex(source).expect_err("invalid document fails");
    assert_eq!(error.line, 3);
    assert!(error.message.contains("unknown Vitamins statement"));
}
