use vitamins::emit::{column_spec, emit_block};
use vitamins::lex::parse_string_literal;
use vitamins::parse;
use vitamins::scan::{find_top_level_comma, split_top_level_commas};
use vitamins::syntax::{Align, Block, Inline};

fn chars(s: &str) -> Vec<char> {
    s.chars().collect()
}

fn text(v: &[char]) -> String {
    v.iter().collect()
}

#[test]
fn the_first_top_level_comma_ends_the_first_piece() {
    let s = chars("f(a, b), \"x,y\", c");
    let k = find_top_level_comma(&s).expect("there is a comma");
    assert_eq!(k, 7);
    let pieces = split_top_level_commas(&s);
    assert_eq!(pieces.len(), 3);
    assert_eq!(pieces[0].len(), k);
    let rest: Vec<char> = s[k + 1..].to_vec();
    let after = split_top_level_commas(&rest);
    assert_eq!(after.len(), pieces.len() - 1);
    assert_eq!(find_top_level_comma(&chars("(a, b)")), None);
    assert_eq!(split_top_level_commas(&chars("(a, b)")).len(), 1);
}

#[test]
fn a_quoted_value_reads_back() {
    let (value, tail) = parse_string_literal(&chars("\"a \\\"b\\\" \\\\c\" tail"), 1).expect("literal");
    assert_eq!(text(&value), "a \"b\" \\c");
    assert_eq!(text(&tail), " tail");
}

#[test]
fn every_block_is_emitted_as_whole_lines() {
    let blocks = vec![
        Block::Section { level: 2, title: chars("Empty"), children: Vec::new() },
        Block::Paragraph(Vec::new()),
        Block::RawLatex(Vec::new()),
        Block::Quote(Vec::new()),
    ];
    for block in &blocks {
        let mut out = chars("before");
        emit_block(&mut out, block, &Vec::new());
        let written = text(&out[6..]);
        assert!(!written.is_empty());
        assert!(written.ends_with('\n'), "{written:?}");
    }
    let mut out = Vec::new();
    emit_block(&mut out, &blocks[0], &Vec::new());
    assert_eq!(text(&out), "\\subsection{Empty}\n");
}

#[test]
fn column_specs_follow_the_alignments_or_the_widest_row() {
    let given = column_spec(&vec![Align::Right, Align::Left, Align::Center], &Vec::new());
    assert_eq!(text(&given), "rlc");
    let cell = |s: &str| vec![Inline::Text(chars(s))];
    let rows = vec![vec![cell("a")], vec![cell("b"), cell("c"), cell("d")], vec![cell("e"), cell("f")]];
    assert_eq!(text(&column_spec(&Vec::new(), &rows)), "lll");
    assert_eq!(text(&column_spec(&Vec::new(), &Vec::new())), "l");
}

#[test]
fn parsed_documents_are_well_formed() {
    let source = "paper \"W\" do\n  define pair(a, b) \"(#1,#2)\"\n  section \"A\" do\n    subsection \"B\" do\n      table do\n        rule\n        row 1\n        rule\n        rule\n        row 2\n      end\n    end\n  end\nend\n";
    let document = parse(source).expect("document parses");
    assert_eq!(document.definitions.len(), 1);
    assert_eq!(text(&document.definitions[0].name), "pair");
    let params: Vec<String> = document.definitions[0].params.iter().map(|p| text(p)).collect();
    assert_eq!(params, vec!["a", "b"]);
    match &document.body[0] {
        Block::Section { level: 1, children, .. } => match &children[0] {
            Block::Section { level: 2, children, .. } => match &children[0] {
                Block::Table { rows, rules, .. } => {
                    assert_eq!(rows.len(), 2);
                    assert_eq!(rules, &vec![0, 1, 1]);
                }
                other => panic!("unexpected {other:?}"),
            },
            other => panic!("unexpected {other:?}"),
        },
        other => panic!("unexpected {other:?}"),
    }
}
