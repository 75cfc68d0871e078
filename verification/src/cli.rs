//! The arguments of the command line.

use crate::text::same_text;
use vstd::prelude::*;

verus! {

/// What the program was asked to do.
#[derive(Debug, Clone)]
pub enum ParsedArgs {
    /// Run the input method.
    Run {
        /// Whether the large character table is used.
        use_big_char: bool,
        /// The front end asked for, `console` or `gui`, if any.
        mode: Option<String>,
    },
    /// Show the help.
    Help,
    /// Complain about this argument, which is not known.
    Unknown(String),
}

/// The outcome of the command line as sequences of characters.
pub enum ParsedArgsView {
    Run { use_big_char: bool, mode: Option<Seq<char>> },
    Help,
    Unknown(Seq<char>),
}

impl View for ParsedArgs {
    type V = ParsedArgsView;

    open spec fn view(&self) -> ParsedArgsView {
        match self {
            ParsedArgs::Run { use_big_char, mode } => ParsedArgsView::Run {
                use_big_char: *use_big_char,
                mode: match mode {
                    Some(m) => Some(m@),
                    None => None,
                },
            },
            ParsedArgs::Help => ParsedArgsView::Help,
            ParsedArgs::Unknown(arg) => ParsedArgsView::Unknown(arg@),
        }
    }
}

/// The meaning of one argument.
pub enum ArgKind {
    /// `--big` or `-b`.
    Big,
    /// `--console` or `-c`.
    Console,
    /// `--gui` or `-g`.
    Gui,
    /// `--help` or `-h`.
    Help,
    /// Anything else.
    Unknown,
}

/// The meaning of the argument `arg`.
pub open spec fn arg_kind(arg: Seq<char>) -> ArgKind {
    if arg == "--big"@ || arg == "-b"@ {
        ArgKind::Big
    } else if arg == "--console"@ || arg == "-c"@ {
        ArgKind::Console
    } else if arg == "--gui"@ || arg == "-g"@ {
        ArgKind::Gui
    } else if arg == "--help"@ || arg == "-h"@ {
        ArgKind::Help
    } else {
        ArgKind::Unknown
    }
}

/// The outcome of the arguments from place `from` on, given what the
/// arguments before that place have set. The first request for help and
/// the first unknown argument end the reading; of two front ends the later
/// one counts.
pub open spec fn outcome_from(
    args: Seq<Seq<char>>,
    from: int,
    use_big_char: bool,
    mode: Option<Seq<char>>,
) -> ParsedArgsView
    decreases args.len() - from,
{
    if from < 0 || from >= args.len() {
        ParsedArgsView::Run { use_big_char, mode }
    } else {
        match arg_kind(args[from]) {
            ArgKind::Big => outcome_from(args, from + 1, true, mode),
            ArgKind::Console => outcome_from(args, from + 1, use_big_char, Some("console"@)),
            ArgKind::Gui => outcome_from(args, from + 1, use_big_char, Some("gui"@)),
            ArgKind::Help => ParsedArgsView::Help,
            ArgKind::Unknown => ParsedArgsView::Unknown(args[from]),
        }
    }
}

/// The outcome of a command line. Its first word is the name of the
/// program and is passed over.
pub open spec fn outcome_of(args: Seq<Seq<char>>) -> ParsedArgsView {
    outcome_from(args, 1, false, None)
}

/// The texts of the arguments.
pub open spec fn arg_texts(args: Seq<String>) -> Seq<Seq<char>> {
    args.map_values(|a: String| a@)
}

/// Reads the command line.
pub fn parse_args(args: &[String]) -> (parsed: ParsedArgs)
    ensures
        parsed@ == outcome_of(arg_texts(args@)),
{
    let mut use_big_char = false;
    let mut mode: Option<String> = None;
    let mut i: usize = 1;
    while i < args.len()
        invariant
            1 <= i,
            outcome_of(arg_texts(args@)) == outcome_from(
                arg_texts(args@),
                i as int,
                use_big_char,
                match mode {
                    Some(m) => Some(m@),
                    None => None,
                },
            ),
        decreases args@.len() - i,
    {
        let arg = args[i].as_str();
        assert(arg@ == arg_texts(args@)[i as int]);
        if same_text(arg, "--big") || same_text(arg, "-b") {
            use_big_char = true;
        } else if same_text(arg, "--console") || same_text(arg, "-c") {
            mode = Some("console".to_owned());
        } else if same_text(arg, "--gui") || same_text(arg, "-g") {
            mode = Some("gui".to_owned());
        } else if same_text(arg, "--help") || same_text(arg, "-h") {
            return ParsedArgs::Help;
        } else {
            return ParsedArgs::Unknown(arg.to_owned());
        }
        i += 1;
    }
    ParsedArgs::Run { use_big_char, mode }
}

} // verus!
