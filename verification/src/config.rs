//! Launch configuration read from the command-line arguments.
use vstd::prelude::*;
use vstd::string::*;
use crate::error::AppError;
use crate::text::{debug_quoted, debug_text, parse_u64, parse_u64_spec, str_eq};

verus! {

/// How the program runs.
#[derive(Debug, PartialEq, Eq)]
pub enum LaunchMode {
    /// A window with an interactive camera.
    Interactive,
    /// Render without a window for `delay_ms` milliseconds, then write a PNG.
    HeadlessCapture { output_path: String, delay_ms: u64 },
}

#[derive(Debug, PartialEq, Eq)]
pub struct RuntimeConfig {
    pub launch_mode: LaunchMode,
}

/// A launch mode as plain values: `None` for interactive, else the output path
/// and the delay of a headless capture.
pub open spec fn launch_mode_view(mode: LaunchMode) -> Option<(Seq<char>, u64)> {
    match mode {
        LaunchMode::Interactive => None,
        LaunchMode::HeadlessCapture { output_path, delay_ms } => Some((output_path@, delay_ms)),
    }
}

pub open spec fn headless_flag() -> Seq<char> {
    "--headless-png"@
}

pub open spec fn delay_flag() -> Seq<char> {
    "--delay-ms"@
}

pub open spec fn missing_path_message() -> Seq<char> {
    "expected a file path after --headless-png"@
}

pub open spec fn missing_delay_value_message() -> Seq<char> {
    "expected a millisecond value after --delay-ms"@
}

pub open spec fn invalid_delay_message(raw: Seq<char>) -> Seq<char> {
    "invalid --delay-ms value "@ + debug_text(raw) + "; expected a non-negative integer"@
}

pub open spec fn unrecognized_argument_message(arg: Seq<char>) -> Seq<char> {
    "unrecognized launch argument "@ + debug_text(arg)
}

pub open spec fn delay_required_message() -> Seq<char> {
    "--delay-ms is required when using --headless-png"@
}

pub open spec fn path_required_message() -> Seq<char> {
    "--headless-png is required when using --delay-ms"@
}

/// The options gathered from `args[i..]`, starting from `path` and `delay`,
/// or the message of the first argument that is refused. A later occurrence of
/// an option replaces an earlier one.
pub open spec fn scan_launch_args(
    args: Seq<Seq<char>>,
    i: int,
    path: Option<Seq<char>>,
    delay: Option<u64>,
) -> Result<(Option<Seq<char>>, Option<u64>), Seq<char>>
    decreases args.len() - i,
{
    if i >= args.len() {
        Ok((path, delay))
    } else if args[i] == headless_flag() {
        if i + 1 >= args.len() {
            Err(missing_path_message())
        } else {
            scan_launch_args(args, i + 2, Some(args[i + 1]), delay)
        }
    } else if args[i] == delay_flag() {
        if i + 1 >= args.len() {
            Err(missing_delay_value_message())
        } else {
            match parse_u64_spec(args[i + 1]) {
                Some(ms) => scan_launch_args(args, i + 2, path, Some(ms)),
                None => Err(invalid_delay_message(args[i + 1])),
            }
        }
    } else {
        Err(unrecognized_argument_message(args[i]))
    }
}

/// The launch mode that `args` select, or the message of the error.
pub open spec fn launch_outcome(args: Seq<Seq<char>>) -> Result<Option<(Seq<char>, u64)>, Seq<char>> {
    match scan_launch_args(args, 0, None, None) {
        Err(message) => Err(message),
        Ok((None, None)) => Ok(None),
        Ok((Some(path), Some(delay))) => Ok(Some((path, delay))),
        Ok((Some(_), None)) => Err(delay_required_message()),
        Ok((None, Some(_))) => Err(path_required_message()),
    }
}

/// Reads the launch mode from the program arguments (without the program
/// name): none selects the interactive mode, `--headless-png PATH` together
/// with `--delay-ms MS` selects a headless capture.
pub fn parse_runtime_config(args: Vec<String>) -> (r: Result<RuntimeConfig, AppError>)
    ensures
        match r {
            Ok(config) => launch_outcome(args.deep_view()) == Ok::<
                Option<(Seq<char>, u64)>,
                Seq<char>,
            >(launch_mode_view(config.launch_mode)),
            Err(error) => launch_outcome(args.deep_view()) == Err::<
                Option<(Seq<char>, u64)>,
                Seq<char>,
            >(error.message()),
        },
{
    let ghost view = args.deep_view();
    let mut output_path: Option<String> = None;
    let mut delay: Option<u64> = None;
    let n = args.len();
    let mut i: usize = 0;
    while i < n
        invariant
            n == args.len(),
            view == args.deep_view(),
            i <= n,
            scan_launch_args(view, 0, None, None) == scan_launch_args(
                view,
                i as int,
                output_path.deep_view(),
                delay,
            ),
        decreases n - i,
    {
        let arg = args[i].as_str();
        assert(arg@ == view[i as int]);
        if str_eq(arg, "--headless-png") {
            if i + 1 >= n {
                return Err(AppError::Message(String::from_str("expected a file path after --headless-png")));
            }
            let path = args[i + 1].clone();
            assert(path@ == view[i + 1]);
            output_path = Some(path);
            i = i + 2;
        } else if str_eq(arg, "--delay-ms") {
            if i + 1 >= n {
                return Err(AppError::Message(String::from_str("expected a millisecond value after --delay-ms")));
            }
            let raw_delay = args[i + 1].as_str();
            assert(raw_delay@ == view[i + 1]);
            match parse_u64(raw_delay) {
                Some(ms) => {
                    delay = Some(ms);
                    i = i + 2;
                },
                None => {
                    let message = String::from_str("invalid --delay-ms value ").concat(
                        debug_quoted(raw_delay).as_str(),
                    ).concat("; expected a non-negative integer");
                    return Err(AppError::Message(message));
                },
            }
        } else {
            let message = String::from_str("unrecognized launch argument ").concat(
                debug_quoted(arg).as_str(),
            );
            return Err(AppError::Message(message));
        }
    }
    match (output_path, delay) {
        (None, None) => Ok(RuntimeConfig { launch_mode: LaunchMode::Interactive }),
        (Some(output_path), Some(delay_ms)) => Ok(
            RuntimeConfig { launch_mode: LaunchMode::HeadlessCapture { output_path, delay_ms } },
        ),
        (Some(_), None) => Err(
            AppError::Message(String::from_str("--delay-ms is required when using --headless-png")),
        ),
        (None, Some(_)) => Err(
            AppError::Message(String::from_str("--headless-png is required when using --delay-ms")),
        ),
    }
}

/// Whether a headless capture has rendered long enough: `elapsed_ms` whole
/// milliseconds have passed since capture began, against the requested delay.
pub fn capture_delay_elapsed(elapsed_ms: u128, delay_ms: u64) -> (r: bool)
    ensures
        r == (elapsed_ms >= delay_ms),
{
    elapsed_ms >= delay_ms as u128
}

proof fn lemma_flags_differ()
    ensures
        "--headless-png"@ != "--delay-ms"@,
{
    reveal_strlit("--headless-png");
    reveal_strlit("--delay-ms");
    assert("--headless-png"@.len() != "--delay-ms"@.len());
}

/// `--headless-png PATH --delay-ms DELAY`, in either order, selects a headless
/// capture of PATH after exactly the delay that DELAY parses to as a `u64`
/// (zero included): no other check refuses it.
pub proof fn lemma_headless_arguments_accepted(path: Seq<char>, delay: Seq<char>, ms: u64)
    requires
        parse_u64_spec(delay) == Some(ms),
    ensures
        launch_outcome(seq!["--headless-png"@, path, "--delay-ms"@, delay]) == Ok::<
            Option<(Seq<char>, u64)>,
            Seq<char>,
        >(Some((path, ms))),
        launch_outcome(seq!["--delay-ms"@, delay, "--headless-png"@, path]) == Ok::<
            Option<(Seq<char>, u64)>,
            Seq<char>,
        >(Some((path, ms))),
{
    lemma_flags_differ();
    let a = seq!["--headless-png"@, path, "--delay-ms"@, delay];
    assert(scan_launch_args(a, 4, Some(path), Some(ms)) == Ok::<
        (Option<Seq<char>>, Option<u64>),
        Seq<char>,
    >((Some(path), Some(ms))));
    assert(scan_launch_args(a, 2, Some(path), None) == scan_launch_args(a, 4, Some(path), Some(ms)));
    assert(scan_launch_args(a, 0, None, None) == scan_launch_args(a, 2, Some(path), None));
    let b = seq!["--delay-ms"@, delay, "--headless-png"@, path];
    assert(scan_launch_args(b, 2, None, Some(ms)) == scan_launch_args(b, 4, Some(path), Some(ms)));
    assert(scan_launch_args(b, 0, None, None) == scan_launch_args(b, 2, None, Some(ms)));
}

/// Without arguments the program runs interactively.
pub proof fn lemma_no_arguments_is_interactive()
    ensures
        launch_outcome(Seq::<Seq<char>>::empty()) == Ok::<Option<(Seq<char>, u64)>, Seq<char>>(None),
{
}

} // verus!
