use vitamins::compile_to_latex;

fn latex_of(source: &str) -> String {
    compile_to_latex(source).expect("document compiles")
}

fn lines(parts: &[&str]) -> String {
    let mut out = String::new();
    for part in parts {
        out.push_str(part);
        out.push('\n');
    }
    out
}

#[test]
fn whole_document_with_preamble_macros_and_title_block() {
    let source = r#"
paper "Cats & Dogs" do
  author "Ada"
  date today
  use theorem
  define half() "\\frac{1}{2}"
  section "Intro" do
    p "Hello", ",", "world", x
  end
end
"#;
    let expected = lines(&[
        "\\documentclass{article}",
        "\\usepackage{amsmath}",
        "\\usepackage{amssymb}",
        "\\usepackage{amsthm}",
        "\\newtheorem{theorem}{Theorem}",
        "\\newcommand{\\half}{\\frac{1}{2}}",
        "\\title{Cats \\& Dogs}",
        "\\author{Ada}",
        "\\date{\\today}",
        "\\begin{document}",
        "\\maketitle",
        "\\section{Intro}",
        "Hello, world $x$",
        "\\end{document}",
    ]);
    assert_eq!(latex_of(source), expected);
}

#[test]
fn whole_document_with_lists_tables_figures_and_citations() {
    let source = r#"
paper "Parts" do
  items do
    item "one"
    item bold("two")
  end
  steps do
    item "first"
  end
  table do
    columns :left, center, :right
    rule
    row "a", "b", "c"
    rule
    row 1, 2, 3
    rule
    caption "Numbers & letters"
  end
  figure path: "plot_1.png" do
    caption "A plot"
  end
  compare do
    latex "\\textbf{x}"
    vitamins bold "x"
  end
  bibliography "refs.bib"
  p "See", cite(:knuth84), "and", ref(:fig_a), "."
end
"#;
    let expected = lines(&[
        "\\documentclass{article}",
        "\\usepackage{graphicx}",
        "\\title{Parts}",
        "\\begin{document}",
        "\\maketitle",
        "\\begin{itemize}",
        "\\item one",
        "\\item \\textbf{two}",
        "\\end{itemize}",
        "\\begin{enumerate}",
        "\\item first",
        "\\end{enumerate}",
        "\\begin{table}",
        "\\centering",
        "\\begin{tabular}{lcr}",
        "\\hline",
        "a & b & c \\\\",
        "\\hline",
        "1 & 2 & 3 \\\\",
        "\\hline",
        "\\end{tabular}",
        "\\caption{Numbers \\& letters}",
        "\\end{table}",
        "\\begin{figure}",
        "\\centering",
        "\\includegraphics{plot\\_1.png}",
        "\\caption{A plot}",
        "\\end{figure}",
        "\\begin{quote}",
        "LaTeX: \\texttt{\\textbackslash{}textbf\\{x\\}}\\\\",
        "Vitamins: \\textbf{x}",
        "\\end{quote}",
        "\\bibliographystyle{plain}",
        "\\bibliography{refs}",
        "See \\cite{knuth84} and \\ref{fig_a}.",
        "\\end{document}",
    ]);
    assert_eq!(latex_of(source), expected);
}

#[test]
fn every_document_is_framed() {
    for source in [
        "paper \"A\" do\nend\n",
        "paper \"B\" do\n  use math\n  p \"x\"\nend\n",
        "paper \"C\" do\n  raw_latex \"\\\\end{document}\"\nend\n",
    ] {
        let latex = latex_of(source);
        assert!(latex.starts_with("\\documentclass{article}\n"));
        assert!(latex.ends_with("\\end{document}\n"));
    }
}

#[test]
fn requested_math_loads_amsmath_first() {
    let latex = latex_of("paper \"M\" do\n  use math\nend\n");
    assert!(latex.starts_with("\\documentclass{article}\n\\usepackage{amsmath}\n\\usepackage{amssymb}\n"));
    let plain = latex_of("paper \"M\" do\n  use bibliography\n  p \"text\"\nend\n");
    assert!(!plain.contains("amsmath"));
    assert!(!plain.contains("\\usepackage"));
}

#[test]
fn content_decides_the_packages() {
    let latex = latex_of("paper \"T\" do\n  section \"S\" do\n    proof do\n      p \"ok\"\n    end\n  end\nend\n");
    assert!(latex.contains("\\usepackage{amsthm}\n"));
    assert!(latex.contains("\\newtheorem{theorem}{Theorem}\n"));
    assert!(!latex.contains("graphicx"));
    let figure = latex_of("paper \"T\" do\n  quote do\n    figure path: \"a.pdf\" do\n    end\n  end\nend\n");
    assert!(figure.contains("\\usepackage{graphicx}\n"));
    let cell_math = latex_of("paper \"T\" do\n  table do\n    row x\n  end\nend\n");
    assert!(cell_math.contains("\\usepackage{amsmath}\n"));
}

#[test]
fn theorem_and_proof_environments() {
    let source = "paper \"T\" do\n  theorem \"Euler & co\" do\n    p \"Statement\"\n  end\n  proof do\n    p \"Trivial\"\n  end\nend\n";
    let latex = latex_of(source);
    assert!(latex.contains(
        "\\begin{theorem}[Euler \\& co]\nStatement\n\\end{theorem}\n\\begin{proof}\nTrivial\n\\end{proof}\n"
    ));
    assert!(!latex.contains("amsmath"));
}

#[test]
fn abstract_quote_raw_and_sections() {
    let source = r#"
paper "T" do
  abstract do
    p "A"
  end
  quote do
    p "Q"
  end
  raw_latex "\\newpage"
  latex "\\vspace{1em}"
  subsection "B & C" do
    subsubsection "D" do
      p "deep"
    end
  end
end
"#;
    let latex = latex_of(source);
    assert!(latex.contains(
        "\\begin{abstract}\nA\n\\end{abstract}\n\\begin{quote}\nQ\n\\end{quote}\n\\newpage\n\\vspace{1em}\n\\subsection{B \\& C}\n\\subsubsection{D}\ndeep\n"
    ));
}

#[test]
fn literal_dates_and_authors_are_escaped() {
    let latex = latex_of("paper \"T\" do\n  author \"A_B\"\n  date \"50% done\"\nend\n");
    assert!(latex.contains("\\author{A\\_B}\n\\date{50\\% done}\n"));
}

#[test]
fn string_escapes_in_literals() {
    let latex = latex_of("paper \"T\" do\n  p \"say \\\"hi\\\"\", \"tab\\there\", \"\\q\"\nend\n");
    assert!(latex.contains("say \"hi\" tab\there \\textbackslash{}q\n"));
}

#[test]
fn inline_formatting_chains_and_spacing() {
    let source = r#"
paper "T" do
  p "word".italic.bold, italic "slanted", small_caps("caps"), "!"
  p latex("\\LaTeX"), "rocks", 3.14, "(", "x", ")"
  p "ends with space ", "next"
end
"#;
    let latex = latex_of(source);
    assert!(latex.contains("\\textbf{\\textit{word}} \\textit{slanted} \\textsc{caps}!\n"));
    assert!(latex.contains("\\LaTeX rocks 3.14 ( x)\n"));
    assert!(latex.contains("ends with space next\n"));
}

#[test]
fn inline_math_operators() {
    let latex = latex_of("paper \"T\" do\n  p math { a != b }, \"and\", math{x <= y}, \"or\", y >= 2 * pi\nend\n");
    assert!(latex.contains("$a \\ne b$ and $x \\le y$ or $y \\ge 2 \\cdot \\pi$\n"));
}

#[test]
fn sums_render_with_their_variable_and_bounds() {
    let source = r#"
paper "Sums" do
  equation do
    sum i: 1..n do
      i * i
    end >= 0
  end
end
"#;
    let latex = latex_of(source);
    assert!(latex.contains("\\[\n\\sum_{i=1}^{n} i \\cdot i \\ge 0\n\\]\n"));
    assert!(latex.contains("\\usepackage{amsmath}\n"));
}

#[test]
fn calls_builtins_and_unknown_functions() {
    let source = r#"
paper "Calls" do
  equation label: "my eq" do
    sin(x) + g(a, b) + f() + frac(a) + norm(v) + mathbb(R) + log(infinity)
  end
end
"#;
    let latex = latex_of(source);
    assert!(latex.contains("\\begin{equation}\n\\label{my-eq}\n"));
    assert!(latex.contains(
        "\\sin\\left(x\\right) + g\\left(a, b\\right) + f\\left(\\right) + frac\\left(a\\right) + \\lVert v \\rVert + \\mathbb{R} + \\log\\left(\\infty\\right)\n\\end{equation}\n"
    ));
}

#[test]
fn a_macro_takes_precedence_over_a_builtin_of_its_arity() {
    let with_macro = latex_of(
        "paper \"N\" do\n  define norm(x) \"\\\\|#1\\\\|\"\n  equation do\n    norm(v) + norm(a, b)\n  end\nend\n",
    );
    assert!(with_macro.contains("\\newcommand{\\norm}[1]{\\|#1\\|}\n"));
    assert!(with_macro.contains("\\norm{v} + norm\\left(a, b\\right)\n"));
    let builtin = latex_of("paper \"N\" do\n  equation do\n    norm(v)\n  end\nend\n");
    assert!(builtin.contains("\\lVert v \\rVert\n"));
}

#[test]
fn macro_arity_counts_the_written_arguments() {
    let latex = latex_of(
        "paper \"H\" do\n  define half() \"\\\\tfrac12\"\n  define pair(a, b, c) \"(#1,#2,#3)\"\n  equation do\n    half() + pair(1, 2, 3)\n  end\nend\n",
    );
    assert!(latex.contains("\\newcommand{\\half}{\\tfrac12}\n"));
    assert!(latex.contains("\\newcommand{\\pair}[3]{(#1,#2,#3)}\n"));
    assert!(latex.contains("half\\left(\\right) + \\pair{1}{2}{3}\n"));
}

#[test]
fn figure_widths_and_labels() {
    let source = r#"
paper "F" do
  figure path: "a.pdf", width: 5cm do
    label "fig:given"
  end
  figure path: "b.pdf", width: 0.5.page do
    label :plot
  end
end
"#;
    let latex = latex_of(source);
    assert!(latex.contains("\\includegraphics[width=5cm]{a.pdf}\n\\label{fig:given}\n"));
    assert!(latex.contains("\\includegraphics[width=0.5\\textwidth]{b.pdf}\n\\label{fig:plot}\n"));
}

#[test]
fn tables_infer_columns_and_place_rules() {
    let source = r#"
paper "T" do
  table do
    row "a"
    row "b", "c", "d"
    rule
    row "e", "f"
  end
end
"#;
    let latex = latex_of(source);
    assert!(latex.contains(
        "\\begin{tabular}{lll}\na \\\\\nb & c & d \\\\\n\\hline\ne & f \\\\\n\\end{tabular}\n\\end{table}\n"
    ));
    let empty = latex_of("paper \"T\" do\n  table do\n  end\nend\n");
    assert!(empty.contains("\\begin{tabular}{l}\n\\end{tabular}\n"));
}

#[test]
fn comments_blank_lines_and_crlf_are_accepted() {
    let latex = latex_of("# heading comment\r\n\r\npaper \"T\" do\r\n  # inside\r\n  p \"x\"\r\nend\r\n");
    assert!(latex.contains("\\maketitle\nx\n\\end{document}\n"));
}

#[test]
fn equations_keep_nested_blocks_together() {
    let source = r#"
paper "I" do
  equation do
    integral t: 0..1 do
      t
    end
  end
end
"#;
    let latex = latex_of(source);
    assert!(latex.contains("\\[\n\\int_{0}^{1} t \\, dt\n\\]\n"));
}

#[test]
fn parse_gives_the_document_model() {
    let document = vitamins::parse("paper \"Title\" do\n  author \"Me\"\n  use graphics\n  p \"x\"\nend\n")
        .expect("document parses");
    assert_eq!(document.title.iter().collect::<String>(), "Title");
    assert_eq!(document.author.as_ref().map(|a| a.iter().collect::<String>()), Some("Me".to_string()));
    assert!(document.uses.graphics);
    assert!(!document.uses.math);
    assert_eq!(document.body.len(), 1);
    assert!(document.definitions.is_empty());
}

#[test]
fn every_macro_is_emitted_once_in_order() {
    let latex = latex_of(
        "paper \"D\" do\n  define alpha() \"a\"\n  define beta(x) \"b#1\"\n  define gamma(x, y) \"c\"\nend\n",
    );
    assert!(latex.contains(
        "\\newcommand{\\alpha}{a}\n\\newcommand{\\beta}[1]{b#1}\n\\newcommand{\\gamma}[2]{c}\n\\title{D}\n"
    ));
    assert_eq!(latex.matches("\\newcommand").count(), 3);
}

#[test]
fn requested_features_are_kept_even_when_unused() {
    let latex = latex_of("paper \"U\" do\n  use theorem\n  use graphics\n  use math\nend\n");
    assert!(latex.starts_with(
        "\\documentclass{article}\n\\usepackage{amsmath}\n\\usepackage{amssymb}\n\\usepackage{amsthm}\n\\usepackage{graphicx}\n\\newtheorem{theorem}{Theorem}\n"
    ));
}
