//! The arguments of the command-line `run` subcommand: one action-script
//! path, an optional `--output <path>` and an optional `--open` flag.
use vstd::prelude::*;

use crate::text::str_equals;

verus! {

/// The parsed arguments of `run`.
#[derive(Debug, Clone, PartialEq)]
pub struct RunArgs {
    /// The action script to execute.
    pub script_path: String,
    /// Where to write the resulting JSON instead of printing it.
    pub output_path: Option<String>,
    /// Whether to open the result in the drafting window.
    pub open_gui: bool,
}

/// Why the arguments of `run` were refused.
#[derive(Debug, Clone, PartialEq)]
pub enum RunArgsError {
    /// `--output` was the last argument, with no path after it.
    MissingOutputPath,
    /// A second positional argument; only one script path is accepted.
    UnexpectedArgument(String),
    /// No script path was given.
    MissingScriptPath,
}

/// The refusals, as values.
pub enum RunArgsFailure {
    MissingOutputPath,
    UnexpectedArgument(Seq<char>),
    MissingScriptPath,
}

/// The parsed arguments, as values.
pub struct RunArgsView {
    pub script_path: Seq<char>,
    pub output_path: Option<Seq<char>>,
    pub open_gui: bool,
}

/// Scanning `args` from index `i` with what was collected so far: flags
/// are recognised, `--output` takes the following argument (a later one
/// replaces an earlier one), and the first other argument is the script
/// path.
pub open spec fn scan(
    args: Seq<Seq<char>>,
    i: int,
    script: Option<Seq<char>>,
    output: Option<Seq<char>>,
    open: bool,
) -> Result<(Option<Seq<char>>, Option<Seq<char>>, bool), RunArgsFailure>
    decreases args.len() - i,
{
    if i < 0 || i >= args.len() {
        Ok((script, output, open))
    } else if args[i] == "--output"@ {
        if i + 1 < args.len() {
            scan(args, i + 2, script, Some(args[i + 1]), open)
        } else {
            Err(RunArgsFailure::MissingOutputPath)
        }
    } else if args[i] == "--open"@ {
        scan(args, i + 1, script, output, true)
    } else if script is Some {
        Err(RunArgsFailure::UnexpectedArgument(args[i]))
    } else {
        scan(args, i + 1, Some(args[i]), output, open)
    }
}

/// The outcome of parsing `args`.
pub open spec fn run_args_of(args: Seq<Seq<char>>) -> Result<RunArgsView, RunArgsFailure> {
    match scan(args, 0, None, None, false) {
        Err(f) => Err(f),
        Ok((None, _, _)) => Err(RunArgsFailure::MissingScriptPath),
        Ok((Some(p), o, g)) => Ok(RunArgsView { script_path: p, output_path: o, open_gui: g }),
    }
}

/// The texts of the arguments.
pub open spec fn args_view(args: Seq<String>) -> Seq<Seq<char>> {
    args.map_values(|a: String| a@)
}

/// Parses the arguments that follow `run`. Scanning stops at the first
/// problem: a trailing `--output`, or a second positional argument; a
/// missing script path is reported once everything was read.
pub fn parse_run_args(args: &[String]) -> (r: Result<RunArgs, RunArgsError>)
    ensures
        match run_args_of(args_view(args@)) {
            Ok(v) => r matches Ok(a) && a.script_path@ == v.script_path && match (
                a.output_path,
                v.output_path,
            ) {
                (Some(x), Some(y)) => x@ == y,
                (None, None) => true,
                _ => false,
            } && a.open_gui == v.open_gui,
            Err(RunArgsFailure::MissingOutputPath) => r == Err::<RunArgs, RunArgsError>(
                RunArgsError::MissingOutputPath,
            ),
            Err(RunArgsFailure::UnexpectedArgument(s)) => r matches Err(
                RunArgsError::UnexpectedArgument(t),
            ) && t@ == s,
            Err(RunArgsFailure::MissingScriptPath) => r == Err::<RunArgs, RunArgsError>(
                RunArgsError::MissingScriptPath,
            ),
        },
{
    let ghost av = args_view(args@);
    let mut script_path: Option<String> = None;
    let mut output_path: Option<String> = None;
    let mut open_gui = false;
    let mut i: usize = 0;
    while i < args.len()
        invariant
            av == args_view(args@),
            i <= args@.len(),
            scan(av, 0, None, None, false) == scan(
                av,
                i as int,
                match script_path {
                    Some(s) => Some(s@),
                    None => None,
                },
                match output_path {
                    Some(s) => Some(s@),
                    None => None,
                },
                open_gui,
            ),
        decreases args@.len() - i,
    {
        assert(av[i as int] == args@[i as int]@);
        if str_equals(args[i].as_str(), "--output") {
            if i + 1 < args.len() {
                assert(av[i + 1] == args@[i + 1]@);
                output_path = Some(args[i + 1].clone());
                i = i + 2;
            } else {
                return Err(RunArgsError::MissingOutputPath);
            }
        } else if str_equals(args[i].as_str(), "--open") {
            open_gui = true;
            i = i + 1;
        } else {
            if script_path.is_some() {
                return Err(RunArgsError::UnexpectedArgument(args[i].clone()));
            }
            script_path = Some(args[i].clone());
            i = i + 1;
        }
    }
    match script_path {
        Some(p) => Ok(RunArgs { script_path: p, output_path, open_gui }),
        None => Err(RunArgsError::MissingScriptPath),
    }
}


/// A scan outcome with the open flag set.
pub open spec fn with_open(
    r: Result<(Option<Seq<char>>, Option<Seq<char>>, bool), RunArgsFailure>,
) -> Result<(Option<Seq<char>>, Option<Seq<char>>, bool), RunArgsFailure> {
    match r {
        Ok((s, o, _)) => Ok((s, o, true)),
        Err(f) => Err(f),
    }
}

/// Scanning with the open flag already set gives the same outcome with
/// the flag set.
proof fn lemma_scan_open(
    args: Seq<Seq<char>>,
    j: int,
    script: Option<Seq<char>>,
    output: Option<Seq<char>>,
    open: bool,
)
    ensures
        scan(args, j, script, output, true) == with_open(scan(args, j, script, output, open)),
    decreases args.len() - j,
{
    if 0 <= j < args.len() {
        if args[j] == "--output"@ {
            if j + 1 < args.len() {
                lemma_scan_open(args, j + 2, script, Some(args[j + 1]), open);
            }
        } else if args[j] == "--open"@ {
            lemma_scan_open(args, j + 1, script, output, true);
        } else if script is None {
            lemma_scan_open(args, j + 1, Some(args[j]), output, open);
        }
    }
}

/// Past an inserted argument, scanning sees the original arguments.
proof fn lemma_scan_shift(
    args: Seq<Seq<char>>,
    i: int,
    v: Seq<char>,
    j: int,
    script: Option<Seq<char>>,
    output: Option<Seq<char>>,
    open: bool,
)
    requires
        0 <= i <= j,
        i <= args.len(),
    ensures
        scan(args.insert(i, v), j + 1, script, output, open) == scan(args, j, script, output, open),
    decreases args.len() - j,
{
    let ins = args.insert(i, v);
    if 0 <= j < args.len() {
        assert(ins[j + 1] == args[j]);
        if args[j] == "--output"@ {
            if j + 1 < args.len() {
                assert(ins[j + 2] == args[j + 1]);
                lemma_scan_shift(args, i, v, j + 2, script, Some(args[j + 1]), open);
            }
        } else if args[j] == "--open"@ {
            lemma_scan_shift(args, i, v, j + 1, script, output, true);
        } else if script is None {
            lemma_scan_shift(args, i, v, j + 1, Some(args[j]), output, open);
        }
    }
}

/// Inserting `--open` at a position the scan reaches sets the flag and
/// changes nothing else.
proof fn lemma_scan_insert_open(
    args: Seq<Seq<char>>,
    i: int,
    j: int,
    script: Option<Seq<char>>,
    output: Option<Seq<char>>,
    open: bool,
)
    requires
        0 <= j <= i <= args.len(),
        i == 0 || args[i - 1] != "--output"@,
    ensures
        scan(args.insert(i, "--open"@), j, script, output, open) == with_open(
            scan(args, j, script, output, open),
        ),
    decreases i - j,
{
    let ins = args.insert(i, "--open"@);
    if j == i {
        assert(ins[i] == "--open"@);
        reveal_strlit("--open");
        reveal_strlit("--output");
        assert("--open"@.len() != "--output"@.len());
        lemma_scan_shift(args, i, "--open"@, i, script, output, true);
        lemma_scan_open(args, i, script, output, open);
    } else {
        assert(ins[j] == args[j]);
        if args[j] == "--output"@ {
            assert(j + 1 < i);
            assert(ins[j + 1] == args[j + 1]);
            lemma_scan_insert_open(args, i, j + 2, script, Some(args[j + 1]), open);
        } else if args[j] == "--open"@ {
            lemma_scan_insert_open(args, i, j + 1, script, output, true);
        } else if script is None {
            lemma_scan_insert_open(args, i, j + 1, Some(args[j]), output, open);
        }
    }
}

/// `--open` is recognised wherever it stands, before or after the script
/// path and the other flags: inserting it at any position that is not
/// the value of a `--output` gives the outcome without it, with the
/// window requested; a refusal stays the same refusal.
pub proof fn law_open_flag_anywhere(args: Seq<Seq<char>>, i: int)
    requires
        0 <= i <= args.len(),
        i == 0 || args[i - 1] != "--output"@,
    ensures
        match run_args_of(args) {
            Ok(v) => run_args_of(args.insert(i, "--open"@)) == Ok::<RunArgsView, RunArgsFailure>(
                RunArgsView { script_path: v.script_path, output_path: v.output_path, open_gui: true },
            ),
            Err(f) => run_args_of(args.insert(i, "--open"@)) == Err::<RunArgsView, RunArgsFailure>(f),
        },
{
    lemma_scan_insert_open(args, i, 0, None, None, false);
}


/// A scan outcome with the output path set to `path`.
pub open spec fn with_output(
    r: Result<(Option<Seq<char>>, Option<Seq<char>>, bool), RunArgsFailure>,
    path: Seq<char>,
) -> Result<(Option<Seq<char>>, Option<Seq<char>>, bool), RunArgsFailure> {
    match r {
        Ok((s, _, g)) => Ok((s, Some(path), g)),
        Err(f) => Err(f),
    }
}

/// No argument from index `j` on is `--output`.
pub open spec fn no_output_flag_from(args: Seq<Seq<char>>, j: int) -> bool {
    forall|k: int| j <= k < args.len() ==> args[k] != "--output"@
}

/// Without a later `--output`, an output path already collected is the
/// one the scan ends with.
proof fn lemma_scan_output_kept(
    args: Seq<Seq<char>>,
    j: int,
    script: Option<Seq<char>>,
    output: Option<Seq<char>>,
    open: bool,
    path: Seq<char>,
)
    requires
        no_output_flag_from(args, j),
    ensures
        scan(args, j, script, Some(path), open) == with_output(
            scan(args, j, script, output, open),
            path,
        ),
    decreases args.len() - j,
{
    if 0 <= j < args.len() {
        if args[j] == "--open"@ {
            lemma_scan_output_kept(args, j + 1, script, output, true, path);
        } else if script is None {
            lemma_scan_output_kept(args, j + 1, Some(args[j]), output, open, path);
        }
    }
}

/// Past two inserted arguments, scanning sees the original arguments.
proof fn lemma_scan_shift_two(
    args: Seq<Seq<char>>,
    i: int,
    a: Seq<char>,
    b: Seq<char>,
    j: int,
    script: Option<Seq<char>>,
    output: Option<Seq<char>>,
    open: bool,
)
    requires
        0 <= i <= j,
        i <= args.len(),
    ensures
        scan(args.insert(i, a).insert(i + 1, b), j + 2, script, output, open) == scan(
            args,
            j,
            script,
            output,
            open,
        ),
    decreases args.len() - j,
{
    let ins = args.insert(i, a).insert(i + 1, b);
    if 0 <= j < args.len() {
        assert(ins[j + 2] == args[j]);
        if args[j] == "--output"@ {
            if j + 1 < args.len() {
                assert(ins[j + 3] == args[j + 1]);
                lemma_scan_shift_two(args, i, a, b, j + 2, script, Some(args[j + 1]), open);
            }
        } else if args[j] == "--open"@ {
            lemma_scan_shift_two(args, i, a, b, j + 1, script, output, true);
        } else if script is None {
            lemma_scan_shift_two(args, i, a, b, j + 1, Some(args[j]), output, open);
        }
    }
}

/// Inserting `--output path` at a position the scan reaches, in
/// arguments without another `--output`, sets the output path and changes
/// nothing else.
proof fn lemma_scan_insert_output(
    args: Seq<Seq<char>>,
    i: int,
    path: Seq<char>,
    j: int,
    script: Option<Seq<char>>,
    output: Option<Seq<char>>,
    open: bool,
)
    requires
        0 <= j <= i <= args.len(),
        no_output_flag_from(args, 0),
    ensures
        scan(args.insert(i, "--output"@).insert(i + 1, path), j, script, output, open) == with_output(
            scan(args, j, script, output, open),
            path,
        ),
    decreases i - j,
{
    let ins = args.insert(i, "--output"@).insert(i + 1, path);
    if j == i {
        assert(ins[i] == "--output"@);
        assert(ins[i + 1] == path);
        lemma_scan_shift_two(args, i, "--output"@, path, i, script, Some(path), open);
        lemma_scan_output_kept(args, i, script, output, open, path);
    } else {
        assert(ins[j] == args[j]);
        assert(args[j] != "--output"@);
        if args[j] == "--open"@ {
            lemma_scan_insert_output(args, i, path, j + 1, script, output, true);
        } else if script is None {
            lemma_scan_insert_output(args, i, path, j + 1, Some(args[j]), output, open);
        }
    }
}

/// `--output <path>` is recognised wherever it stands: in arguments that
/// do not already name an output, inserting it at any position gives the
/// outcome without it, with that output path; a refusal stays the same
/// refusal.
pub proof fn law_output_flag_anywhere(args: Seq<Seq<char>>, i: int, path: Seq<char>)
    requires
        0 <= i <= args.len(),
        forall|k: int| 0 <= k < args.len() ==> args[k] != "--output"@,
    ensures
        match run_args_of(args) {
            Ok(v) => run_args_of(args.insert(i, "--output"@).insert(i + 1, path)) == Ok::<
                RunArgsView,
                RunArgsFailure,
            >(RunArgsView { script_path: v.script_path, output_path: Some(path), open_gui: v.open_gui }),
            Err(f) => run_args_of(args.insert(i, "--output"@).insert(i + 1, path)) == Err::<
                RunArgsView,
                RunArgsFailure,
            >(f),
        },
{
    lemma_scan_insert_output(args, i, path, 0, None, None, false);
}

} // verus!
