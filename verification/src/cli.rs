//! The command line: which command to run, on which input, writing where.
//!
//! Reading and writing files is left to the program around the library; what
//! the arguments ask for is decided here.
use vstd::prelude::*;

use crate::text::{chars_of, is, push_all, push_str, string_of};

verus! {

/// What the compiler is asked to do with its input.
#[derive(Debug, Clone, Copy, PartialEq, Eq)]
pub enum Command {
    /// Parse and emit in memory, report success.
    Check,
    /// Write the LaTeX next to the input, or where `-o` says.
    Compile,
    /// Print the LaTeX.
    Emit,
}

/// What the arguments ask for.
#[derive(Debug)]
pub enum Invocation {
    /// Print the usage text.
    Help,
    /// Run `command` on `input`, writing to `output` if one was given.
    Run { command: Command, input: String, output: Option<String> },
}

/// The model of an invocation, over character sequences.
pub enum InvocationModel {
    Help,
    Run { command: Command, input: Seq<char>, output: Option<Seq<char>> },
}

/// The texts of the arguments.
pub open spec fn texts(args: Seq<String>) -> Seq<Seq<char>> {
    args.map_values(|a: String| a@)
}

pub open spec fn opt_text(o: Option<String>) -> Option<Seq<char>> {
    match o {
        Some(s) => Some(s@),
        None => None,
    }
}

pub open spec fn paths_model(r: Result<(String, Option<String>), String>) -> Result<
    (Seq<char>, Option<Seq<char>>),
    Seq<char>,
> {
    match r {
        Ok((i, o)) => Ok((i@, opt_text(o))),
        Err(e) => Err(e@),
    }
}

pub open spec fn invocation_model(r: Result<Invocation, String>) -> Result<
    InvocationModel,
    Seq<char>,
> {
    match r {
        Ok(Invocation::Help) => Ok(InvocationModel::Help),
        Ok(Invocation::Run { command, input, output }) => Ok(
            InvocationModel::Run { command, input: input@, output: opt_text(output) },
        ),
        Err(e) => Err(e@),
    }
}

pub open spec fn is_output_flag(a: Seq<char>) -> bool {
    a == "-o"@ || a == "--output"@
}

pub open spec fn is_help_flag(a: Seq<char>) -> bool {
    a == "-h"@ || a == "--help"@
}

pub open spec fn is_option(a: Seq<char>) -> bool {
    a.len() > 0 && a[0] == '-'
}

/// The input and output paths named by `args[i..]`, given those already seen.
pub open spec fn paths_from(
    args: Seq<Seq<char>>,
    i: int,
    input: Option<Seq<char>>,
    output: Option<Seq<char>>,
) -> Result<(Seq<char>, Option<Seq<char>>), Seq<char>>
    decreases args.len() - i,
{
    if i < 0 || i >= args.len() {
        match input {
            Some(path) => Ok((path, output)),
            None => Err("missing input .vit file"@),
        }
    } else if is_output_flag(args[i]) {
        if i + 1 < args.len() {
            paths_from(args, i + 2, input, Some(args[i + 1]))
        } else {
            Err("missing path after -o/--output"@)
        }
    } else if is_option(args[i]) {
        Err("unknown option: "@ + args[i])
    } else if input is Some {
        Err("unexpected extra input: "@ + args[i])
    } else {
        paths_from(args, i + 1, Some(args[i]), output)
    }
}

/// The input path and the optional output path that the arguments name, or
/// why they do not.
pub open spec fn spec_parse_paths(args: Seq<Seq<char>>) -> Result<
    (Seq<char>, Option<Seq<char>>),
    Seq<char>,
> {
    paths_from(args, 0, None, None)
}

/// The command that a first argument names.
pub open spec fn spec_command(a: Seq<char>) -> Option<Command> {
    if a == "check"@ {
        Some(Command::Check)
    } else if a == "compile"@ {
        Some(Command::Compile)
    } else if a == "emit"@ {
        Some(Command::Emit)
    } else {
        None
    }
}

/// What a whole argument list asks for: the usage text when it is empty or
/// holds `-h` or `--help` anywhere; else a command (`compile` when the first
/// argument names none) and the paths named by the arguments after it.
pub open spec fn spec_parse_arguments(args: Seq<Seq<char>>) -> Result<InvocationModel, Seq<char>> {
    if args.len() == 0 || exists|k: int| 0 <= k < args.len() && is_help_flag(#[trigger] args[k]) {
        Ok(InvocationModel::Help)
    } else {
        let (command, rest) = match spec_command(args[0]) {
            Some(c) => (c, args.drop_first()),
            None => (Command::Compile, args),
        };
        match spec_parse_paths(rest) {
            Ok((input, output)) => Ok(InvocationModel::Run { command, input, output }),
            Err(e) => Err(e),
        }
    }
}

fn message_with(prefix: &str, value: &Vec<char>) -> (r: String)
    ensures
        r@ == prefix@ + value@,
{
    let mut text: Vec<char> = Vec::new();
    push_str(&mut text, prefix);
    push_all(&mut text, value);
    string_of(&text)
}

fn message(text: &str) -> (r: String)
    ensures
        r@ == text@,
{
    string_of(&chars_of(text))
}

/// Reads the input path and the optional `-o`/`--output` path from the
/// arguments that follow the command.
pub fn parse_paths(args: &[String]) -> (r: Result<(String, Option<String>), String>)
    ensures
        paths_model(r) == spec_parse_paths(texts(args@)),
{
    let ghost all = texts(args@);
    let mut input: Option<String> = None;
    let mut output: Option<String> = None;
    let mut index: usize = 0;
    while index < args.len()
        invariant
            index <= args.len(),
            all == texts(args@),
            spec_parse_paths(all) == paths_from(all, index as int, opt_text(input), opt_text(output)),
        decreases args.len() - index,
    {
        let value = chars_of(args[index].as_str());
        assert(value@ == all[index as int]);
        if is(&value, "-o") || is(&value, "--output") {
            index += 1;
            if index >= args.len() {
                return Err(message("missing path after -o/--output"));
            }
            output = Some(args[index].clone());
        } else if value.len() > 0 && value[0] == '-' {
            return Err(message_with("unknown option: ", &value));
        } else {
            if input.is_some() {
                return Err(message_with("unexpected extra input: ", &value));
            }
            input = Some(args[index].clone());
        }
        index += 1;
    }
    match input {
        Some(path) => Ok((path, output)),
        None => Err(message("missing input .vit file")),
    }
}

/// Decides what the arguments ask for.
pub fn parse_arguments(args: &[String]) -> (r: Result<Invocation, String>)
    ensures
        invocation_model(r) == spec_parse_arguments(texts(args@)),
{
    let ghost all = texts(args@);
    let mut k: usize = 0;
    let mut help = false;
    while k < args.len()
        invariant
            k <= args.len(),
            all == texts(args@),
            help == exists|j: int| 0 <= j < k && is_help_flag(#[trigger] all[j]),
        decreases args.len() - k,
    {
        let value = chars_of(args[k].as_str());
        assert(value@ == all[k as int]);
        if is(&value, "-h") || is(&value, "--help") {
            help = true;
        }
        k += 1;
    }
    if args.len() == 0 || help {
        return Ok(Invocation::Help);
    }
    let first = chars_of(args[0].as_str());
    let named = if is(&first, "check") {
        Some(Command::Check)
    } else if is(&first, "compile") {
        Some(Command::Compile)
    } else if is(&first, "emit") {
        Some(Command::Emit)
    } else {
        None
    };
    let (command, rest) = match named {
        Some(c) => (c, vstd::slice::slice_subrange(args, 1, args.len())),
        None => (Command::Compile, args),
    };
    proof {
        if named is Some {
            assert(texts(rest@) =~= all.drop_first());
        }
    }
    match parse_paths(rest) {
        Ok((input, output)) => Ok(Invocation::Run { command, input, output }),
        Err(e) => Err(e),
    }
}

} // verus!
