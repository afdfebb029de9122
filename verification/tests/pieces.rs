use vitamins::cli::{parse_arguments, parse_paths, Command, Invocation};
use vitamins::emit::{escape_latex, latex_identifier, needs_space, scoped_label};
use vitamins::scan::{matching_close, split_top_level_commas};

fn chars(s: &str) -> Vec<char> {
    s.chars().collect()
}

fn text(v: &[char]) -> String {
    v.iter().collect()
}

fn args(list: &[&str]) -> Vec<String> {
    list.iter().map(|s| s.to_string()).collect()
}

#[test]
fn escaping_special_characters() {
    let escaped = escape_latex(&chars("50% of $5 & #1_{x}~^\\ ok"));
    assert_eq!(
        text(&escaped),
        "50\\% of \\$5 \\& \\#1\\_\\{x\\}\\textasciitilde{}\\textasciicircum{}\\textbackslash{} ok"
    );
}

#[test]
fn escaping_works_piece_by_piece() {
    let a = "a & b";
    let b = "{c}_d";
    let whole = escape_latex(&chars(&format!("{a}{b}")));
    let parts = format!("{}{}", text(&escape_latex(&chars(a))), text(&escape_latex(&chars(b))));
    assert_eq!(text(&whole), parts);
    assert_eq!(text(&escape_latex(&chars("plain words: ok."))), "plain words: ok.");
}

#[test]
fn splitting_at_top_level_commas_loses_nothing() {
    let source = "a, f(b, c), \"x, \\\"y\", [1, 2], {k, v},";
    let pieces = split_top_level_commas(&chars(source));
    let texts: Vec<String> = pieces.iter().map(|p| text(p)).collect();
    assert_eq!(texts, vec!["a", " f(b, c)", " \"x, \\\"y\"", " [1, 2]", " {k, v}", ""]);
    assert_eq!(texts.join(","), source);
    let single = split_top_level_commas(&chars("no commas here"));
    assert_eq!(single.len(), 1);
    assert_eq!(text(&single[0]), "no commas here");
}

#[test]
fn matching_close_skips_strings_and_nesting() {
    assert_eq!(matching_close(&chars("a(b)c) tail"), '(', ')'), Some(5));
    assert_eq!(matching_close(&chars("\")\" x)"), '(', ')'), Some(5));
    assert_eq!(matching_close(&chars("(unclosed"), '(', ')'), None);
}

#[test]
fn labels_and_identifiers() {
    assert_eq!(text(&latex_identifier(&chars("my label#2"))), "my-label-2");
    assert_eq!(text(&latex_identifier(&chars("a:b_c-d.e/f"))), "a:b_c-d.e/f");
    assert_eq!(text(&scoped_label("fig", &chars("plot one"))), "fig:plot-one");
    assert_eq!(text(&scoped_label("fig", &chars("tab:given"))), "tab:given");
}

#[test]
fn spacing_between_rendered_pieces() {
    assert!(needs_space(&chars("word"), &chars("next")));
    assert!(!needs_space(&chars(""), &chars("next")));
    assert!(!needs_space(&chars("word"), &chars("")));
    assert!(!needs_space(&chars("word "), &chars("next")));
    for punct in [".", ",", ";", ":", "!", "?", ")", "]"] {
        assert!(!needs_space(&chars("word"), &chars(punct)));
    }
    assert!(needs_space(&chars("word"), &chars("(")));
}

#[test]
fn arguments_name_a_command_and_paths() {
    match parse_arguments(&args(&["check", "a.vit"])) {
        Ok(Invocation::Run { command, input, output }) => {
            assert_eq!(command, Command::Check);
            assert_eq!(input, "a.vit");
            assert_eq!(output, None);
        }
        other => panic!("unexpected {other:?}"),
    }
    match parse_arguments(&args(&["a.vit", "-o", "b.tex"])) {
        Ok(Invocation::Run { command, input, output }) => {
            assert_eq!(command, Command::Compile);
            assert_eq!(input, "a.vit");
            assert_eq!(output, Some("b.tex".to_string()));
        }
        other => panic!("unexpected {other:?}"),
    }
    match parse_arguments(&args(&["emit", "--output", "x.tex", "in.vit"])) {
        Ok(Invocation::Run { command, input, output }) => {
            assert_eq!(command, Command::Emit);
            assert_eq!(input, "in.vit");
            assert_eq!(output, Some("x.tex".to_string()));
        }
        other => panic!("unexpected {other:?}"),
    }
}

#[test]
fn help_wins_anywhere() {
    assert!(matches!(parse_arguments(&args(&[])), Ok(Invocation::Help)));
    assert!(matches!(parse_arguments(&args(&["compile", "a.vit", "-h"])), Ok(Invocation::Help)));
    assert!(matches!(parse_arguments(&args(&["--help"])), Ok(Invocation::Help)));
    assert!(matches!(parse_arguments(&args(&["-o", "--help"])), Ok(Invocation::Help)));
}

#[test]
fn argument_errors() {
    let error = |list: &[&str]| match parse_arguments(&args(list)) {
        Err(message) => message,
        Ok(other) => panic!("unexpected {other:?}"),
    };
    assert_eq!(error(&["emit"]), "missing input .vit file");
    assert_eq!(error(&["a.vit", "-o"]), "missing path after -o/--output");
    assert_eq!(error(&["-v", "a.vit"]), "unknown option: -v");
    assert_eq!(error(&["a.vit", "b.vit"]), "unexpected extra input: b.vit");
    assert_eq!(error(&["check", "compile", "x"]), "unexpected extra input: x");
}

#[test]
fn paths_after_the_command() {
    assert_eq!(parse_paths(&args(&["in.vit"])), Ok(("in.vit".to_string(), None)));
    assert_eq!(
        parse_paths(&args(&["-o", "out.tex", "in.vit", "--output", "last.tex"])),
        Ok(("in.vit".to_string(), Some("last.tex".to_string())))
    );
    assert_eq!(parse_paths(&args(&[])), Err("missing input .vit file".to_string()));
}
