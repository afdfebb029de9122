use vitamins::math::{rewrite_block_operators, rewrite_math_tokens};
use vitamins::parser::{Parser, SourceLine};
use vitamins::syntax::{Block, Document, FeatureSet, Inline};
use vitamins::{compile_to_latex, Diagnostic};

fn chars(s: &str) -> Vec<char> {
    s.chars().collect()
}

fn text(v: &[char]) -> String {
    v.iter().collect()
}

fn source_line(number: usize, s: &str) -> SourceLine {
    SourceLine { number, text: chars(s) }
}

fn empty_document() -> Document {
    Document {
        title: chars("T"),
        author: None,
        date: None,
        definitions: Vec::new(),
        uses: FeatureSet::empty(),
        body: Vec::new(),
    }
}

#[test]
fn operators_stay_apart_from_the_letters_that_follow() {
    assert_eq!(text(&rewrite_math_tokens(&chars("a*b"))), "a\\cdot b");
    assert_eq!(text(&rewrite_math_tokens(&chars("x>=y"))), "x\\ge y");
    assert_eq!(text(&rewrite_math_tokens(&chars("x<=pi"))), "x\\le \\pi");
    assert_eq!(text(&rewrite_math_tokens(&chars("a!=b"))), "a\\ne b");
    assert_eq!(text(&rewrite_math_tokens(&chars("2*3 * x"))), "2\\cdot3 \\cdot x");
    assert_eq!(text(&rewrite_math_tokens(&chars("a*\\alpha"))), "a\\cdot\\alpha");
    let latex = compile_to_latex("paper \"M\" do\n  p math{a*b>=c}\nend\n").expect("document compiles");
    assert!(latex.contains("$a\\cdot b\\ge c$\n"));
}

#[test]
fn every_block_operator_of_an_expression_is_rewritten_once() {
    let rewritten = rewrite_block_operators(&chars("sum k: 1..n do k end + sum j: 1..m do j end"), &Vec::new());
    assert_eq!(text(&rewritten), "\\sum_{k=1}^{n} k + \\sum_{j=1}^{m} j");
    let mixed = rewrite_block_operators(
        &chars("integral x: 0..1 do x end - sum i: 0..2 do i end"),
        &Vec::new(),
    );
    assert_eq!(text(&mixed), "\\int_{0}^{1} x \\, dx - \\sum_{i=0}^{2} i");
    let latex = compile_to_latex(
        "paper \"S\" do\n  p math { sum k: 1..n do k end + sum j: 1..m do j end }\nend\n",
    )
    .expect("document compiles");
    assert!(latex.contains("$\\sum_{k=1}^{n} k + \\sum_{j=1}^{m} j$\n"));
}

#[test]
fn a_statement_is_read_from_the_line_it_is_given() {
    let mut parser = Parser::new("");
    let result = parser.parse_block_from_line(source_line(3, "  nonsense"));
    assert_eq!(
        result.err(),
        Some(Diagnostic { line: 3, message: "unknown Vitamins statement: `nonsense`".to_string() })
    );
    assert_eq!(parser.position, 0);

    let mut parser = Parser::new("  p \"x\"\nend\nrest");
    let block = parser
        .parse_block_from_line(source_line(7, "  subsection \"S\" do"))
        .expect("block parses");
    assert_eq!(parser.position, 2);
    match block {
        Block::Section { level, title, children } => {
            assert_eq!(level, 2);
            assert_eq!(text(&title), "S");
            assert_eq!(children.len(), 1);
            match &children[0] {
                Block::Paragraph(inlines) => {
                    assert_eq!(inlines.len(), 1);
                    assert!(matches!(&inlines[0], Inline::Text(t) if text(t) == "x"));
                }
                other => panic!("unexpected {other:?}"),
            }
        }
        other => panic!("unexpected {other:?}"),
    }
}

#[test]
fn errors_leave_the_position_where_reading_stopped() {
    let mut parser = Parser::new("caption \"c\"\nend\n");
    let result = parser.parse_figure(&chars("figure width: 0.5.page do"), 9);
    assert_eq!(
        result.err(),
        Some(Diagnostic { line: 9, message: "figure requires `path: \"...\"`".to_string() })
    );
    assert_eq!(parser.position, 0);

    let mut parser = Parser::new("  item \"a\"\n  thing\n  item \"b\"\nend\n");
    assert!(parser.parse_list(false, 1).is_err());
    assert_eq!(parser.position, 2);

    let mut parser = Parser::new("  row \"a\"\n\n# note\n");
    assert!(parser.parse_table(1).is_err());
    assert_eq!(parser.position, 3);
}

#[test]
fn a_refused_statement_leaves_the_document_alone() {
    let parser = Parser::new("");
    let mut document = empty_document();
    document.author = Some(chars("Ada"));
    assert!(parser.parse_metadata(&chars("author \"Grace"), 4, &mut document).is_err());
    assert_eq!(document.author.as_ref().map(|a| text(a)), Some("Ada".to_string()));

    assert_eq!(parser.parse_metadata(&chars("define norm(x) \"a\""), 5, &mut document), Ok(true));
    let again = parser.parse_metadata(&chars("define norm(y) \"b\""), 6, &mut document);
    assert_eq!(
        again,
        Err(Diagnostic { line: 6, message: "macro `norm` is already defined".to_string() })
    );
    assert_eq!(document.definitions.len(), 1);
    assert_eq!(parser.parse_metadata(&chars("caption \"x\""), 7, &mut document), Ok(false));
}
