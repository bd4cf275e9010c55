//! Command-line arguments of the player.
use vstd::prelude::*;
use vstd::string::StrSliceExecFns;

verus! {

/// How many times the file is played.
#[derive(Clone, Copy, Debug, PartialEq, Eq, Structural)]
pub enum Runs {
    /// This many times.
    Times(u32),
    /// Again and again until the user stops the player (`--repeat 0`).
    Forever,
}

/// A refused command line.
#[derive(Clone, Copy, Debug, PartialEq, Eq, Structural)]
pub enum ArgError {
    /// Nothing was given: the usage text is shown.
    NoArguments,
    /// `--repeat` (`short == false`) or `-r` (`short == true`) was not
    /// followed by a number of runs.
    ExpectCount { short: bool },
    /// `--rotate` was not followed by an angle.
    ExpectAngle,
    /// A second file name, or an unknown flag: the usage text is shown.
    Unknown,
    /// No file to play was named.
    NoFile,
}

impl ArgError {
    /// The message the player prints (nothing but the usage text when no
    /// argument was given).
    pub fn message(&self) -> (m: &'static str)
        ensures
            m@ == (match self {
                ArgError::NoArguments => ""@,
                ArgError::ExpectCount { short } => if *short {
                    "Invalid argument. Expect a positive integer after -r flag"@
                } else {
                    "Invalid argument. Expect a positive integer after --repeat flag"@
                },
                ArgError::ExpectAngle => "Invalid argument. Expect a value after --rotate flag"@,
                ArgError::Unknown => "Invalid argument. Unknown argument"@,
                ArgError::NoFile => "Invalid argument. Expect a file to open."@,
            }),
    {
        match self {
            ArgError::NoArguments => "",
            ArgError::ExpectCount { short } => {
                if *short {
                    "Invalid argument. Expect a positive integer after -r flag"
                } else {
                    "Invalid argument. Expect a positive integer after --repeat flag"
                }
            },
            ArgError::ExpectAngle => "Invalid argument. Expect a value after --rotate flag",
            ArgError::Unknown => "Invalid argument. Unknown argument",
            ArgError::NoFile => "Invalid argument. Expect a file to open.",
        }
    }

    /// Whether the usage text is shown with the error.
    pub fn shows_usage(&self) -> (u: bool)
        ensures
            u == (*self == ArgError::NoArguments || *self == ArgError::Unknown),
    {
        match self {
            ArgError::NoArguments | ArgError::Unknown => true,
            _ => false,
        }
    }
}

/// What to play and how.
#[derive(Debug)]
pub struct Options {
    /// The file to play.
    pub path: String,
    /// How many times to play the file.
    pub repeat: Runs,
    /// Play the audio only.
    pub no_window: bool,
    /// The last angle given to `--rotate` (in degrees), as written.
    pub rotate: Option<String>,
}

/// What the command line asks for.
#[derive(Debug)]
pub enum Command {
    /// Show the usage text and stop.
    Help,
    /// Play a file.
    Play(Options),
}

/// Abstract [`Options`].
pub struct OptionsView {
    pub path: Seq<char>,
    pub repeat: Runs,
    pub no_window: bool,
    pub rotate: Option<Seq<char>>,
}

/// Abstract [`Command`].
pub enum CommandView {
    Help,
    Play(OptionsView),
}

impl View for Options {
    type V = OptionsView;

    open spec fn view(&self) -> OptionsView {
        OptionsView {
            path: self.path@,
            repeat: self.repeat,
            no_window: self.no_window,
            rotate: match self.rotate {
                Some(r) => Some(r@),
                None => None,
            },
        }
    }
}

impl View for Command {
    type V = CommandView;

    open spec fn view(&self) -> CommandView {
        match self {
            Command::Help => CommandView::Help,
            Command::Play(o) => CommandView::Play(o@),
        }
    }
}

pub open spec fn is_digit(c: char) -> bool {
    '0' <= c <= '9'
}

/// The number that a string of decimal digits spells.
pub open spec fn digits_value(s: Seq<char>) -> int
    decreases s.len(),
{
    if s.len() == 0 {
        0
    } else {
        digits_value(s.drop_last()) * 10 + (s.last() as int - '0' as int)
    }
}

/// `s` without its leading `+`, if it has one.
pub open spec fn unsigned_body(s: Seq<char>) -> Seq<char> {
    if s.len() > 0 && s[0] == '+' { s.skip(1) } else { s }
}

/// Every character of `s` is a decimal digit.
pub open spec fn all_digits(s: Seq<char>) -> bool {
    forall|i: int| 0 <= i < s.len() ==> is_digit(#[trigger] s[i])
}

/// A `u32` written in decimal: an optional `+`, then one or more digits,
/// of value at most `u32::MAX` (leading zeros allowed).
pub open spec fn spec_parse_u32(s: Seq<char>) -> Option<u32> {
    let body = unsigned_body(s);
    if body.len() > 0 && all_digits(body) && digits_value(body) <= u32::MAX {
        Some(digits_value(body) as u32)
    } else {
        None
    }
}

/// Reads a `u32` written in decimal, as `str::parse::<u32>` does.
pub fn parse_u32(s: &str) -> (r: Option<u32>)
    ensures
        r == spec_parse_u32(s@),
{
    let n = s.unicode_len();
    let mut start: usize = 0;
    if n > 0 && s.get_char(0) == '+' {
        start = 1;
    }
    let ghost body = unsigned_body(s@);
    if start >= n {
        return None;
    }
    let cap: u64 = 4294967296;
    let mut acc: u64 = 0;
    let mut i = start;
    assert(body =~= s@.subrange(start as int, n as int));
    while i < n
        invariant
            n == s@.len(),
            start <= i <= n,
            start < n,
            body == s@.subrange(start as int, n as int),
            body == unsigned_body(s@),
            cap == u32::MAX + 1,
            acc == (if digits_value(body.subrange(0, i - start)) < cap {
                digits_value(body.subrange(0, i - start))
            } else {
                cap as int
            }),
            forall|k: int| 0 <= k < i - start ==> is_digit(#[trigger] body[k]),
        decreases n - i,
    {
        let c = s.get_char(i);
        let ghost j = i - start;
        assert(body[j] == c);
        if !('0' <= c && c <= '9') {
            assert(!is_digit(body[j]));
            return None;
        }
        let d = (c as u32 - 48) as u64;
        let ghost prefix = body.subrange(0, j + 1);
        assert(prefix.drop_last() =~= body.subrange(0, j));
        assert(prefix.last() == c);
        assert(digits_value(prefix) == digits_value(body.subrange(0, j)) * 10 + d);
        acc = acc * 10 + d;
        if acc > cap {
            acc = cap;
        }
        i = i + 1;
    }
    assert(body.subrange(0, n - start) =~= body);
    if acc > 4294967295 {
        None
    } else {
        Some(acc as u32)
    }
}

/// Whether two strings hold the same characters.
pub fn str_eq(a: &str, b: &str) -> (eq: bool)
    ensures
        eq == (a@ == b@),
{
    let n = a.unicode_len();
    if n != b.unicode_len() {
        return false;
    }
    let mut i: usize = 0;
    while i < n
        invariant
            n == a@.len(),
            n == b@.len(),
            i <= n,
            forall|k: int| 0 <= k < i ==> a@[k] == b@[k],
        decreases n - i,
    {
        if a.get_char(i) != b.get_char(i) {
            return false;
        }
        i = i + 1;
    }
    assert(a@ =~= b@);
    true
}

/// What has been read of the command line so far.
pub struct ScanState {
    pub path: Option<Seq<char>>,
    pub repeat: Runs,
    pub no_window: bool,
    pub rotate: Option<Seq<char>>,
}

/// Runs asked for by `--repeat n`: `n` times, or forever for 0.
pub open spec fn repeat_count(n: u32) -> Runs {
    if n == 0 { Runs::Forever } else { Runs::Times(n) }
}

/// The result of reading the arguments from `args[i]` on, in state `st`.
/// `angles[k]` tells whether `args[k]` reads as an angle.
pub open spec fn spec_scan(args: Seq<Seq<char>>, angles: Seq<bool>, i: int, st: ScanState) -> Result<CommandView, ArgError>
    decreases args.len() - i,
{
    if i < 0 || i >= args.len() {
        match st.path {
            None => Err(ArgError::NoFile),
            Some(p) => Ok(
                CommandView::Play(
                    OptionsView { path: p, repeat: st.repeat, no_window: st.no_window, rotate: st.rotate },
                ),
            ),
        }
    } else {
        let a = args[i];
        if a == "--help"@ || a == "-h"@ {
            Ok(CommandView::Help)
        } else if a == "--repeat"@ || a == "-r"@ {
            let err = ArgError::ExpectCount { short: a == "-r"@ };
            if i + 1 >= args.len() {
                Err(err)
            } else {
                match spec_parse_u32(args[i + 1]) {
                    None => Err(err),
                    Some(n) => spec_scan(args, angles, i + 2, ScanState { repeat: repeat_count(n), ..st }),
                }
            }
        } else if a == "--no-window"@ {
            spec_scan(args, angles, i + 1, ScanState { no_window: true, ..st })
        } else if a == "--rotate"@ {
            if i + 1 >= args.len() || !angles[i + 1] {
                Err(ArgError::ExpectAngle)
            } else {
                spec_scan(args, angles, i + 2, ScanState { rotate: Some(args[i + 1]), ..st })
            }
        } else if st.path is None {
            spec_scan(args, angles, i + 1, ScanState { path: Some(a), ..st })
        } else {
            Err(ArgError::Unknown)
        }
    }
}

/// The command a command line asks for. `args` are the arguments after the
/// program's name; `angles[k]` tells whether `args[k]` reads as an angle.
///
/// Arguments are read left to right and the first problem is reported:
/// `--help`/`-h` asks for the usage text; `--repeat n`/`-r n` plays the file
/// `n` times, forever for 0 (once by default); `--no-window` plays the audio only; `--rotate deg` sets the
/// rotation; the first other argument names the file and any further one is
/// refused. A later `--repeat` or `--rotate` overrides an earlier one.
pub open spec fn spec_parse_args(args: Seq<Seq<char>>, angles: Seq<bool>) -> Result<CommandView, ArgError> {
    if args.len() == 0 {
        Err(ArgError::NoArguments)
    } else {
        spec_scan(
            args,
            angles,
            0,
            ScanState { path: None, repeat: Runs::Times(1), no_window: false, rotate: None },
        )
    }
}

/// Reads the command line; see [`spec_parse_args`].
pub fn parse_args(args: &Vec<String>, angles: &Vec<bool>) -> (r: Result<Command, ArgError>)
    requires
        angles@.len() == args@.len(),
    ensures
        match r {
            Ok(c) => spec_parse_args(args@.map_values(|s: String| s@), angles@) == Ok::<
                CommandView,
                ArgError,
            >(c@),
            Err(e) => spec_parse_args(args@.map_values(|s: String| s@), angles@) == Err::<
                CommandView,
                ArgError,
            >(e),
        },
{
    let ghost av = args@.map_values(|s: String| s@);
    let n = args.len();
    if n == 0 {
        return Err(ArgError::NoArguments);
    }
    let mut path: Option<String> = None;
    let mut repeat = Runs::Times(1);
    let mut no_window = false;
    let mut rotate: Option<String> = None;
    let mut i: usize = 0;
    while i < n
        invariant
            n == args@.len(),
            n == angles@.len(),
            av == args@.map_values(|s: String| s@),
            i <= n,
            spec_parse_args(av, angles@) == spec_scan(
                av,
                angles@,
                i as int,
                ScanState {
                    path: match path {
                        Some(p) => Some(p@),
                        None => None,
                    },
                    repeat,
                    no_window,
                    rotate: match rotate {
                        Some(r) => Some(r@),
                        None => None,
                    },
                },
            ),
        decreases n - i,
    {
        let a = args[i].as_str();
        assert(a@ == av[i as int]);
        if str_eq(a, "--help") || str_eq(a, "-h") {
            return Ok(Command::Help);
        } else if str_eq(a, "--repeat") || str_eq(a, "-r") {
            let short = str_eq(a, "-r");
            if i + 1 >= n {
                return Err(ArgError::ExpectCount { short });
            }
            assert(args[i + 1 as usize]@ == av[i + 1]);
            match parse_u32(args[i + 1].as_str()) {
                None => {
                    return Err(ArgError::ExpectCount { short });
                },
                Some(count) => {
                    repeat = if count == 0 { Runs::Forever } else { Runs::Times(count) };
                },
            }
            i = i + 2;
        } else if str_eq(a, "--no-window") {
            no_window = true;
            i = i + 1;
        } else if str_eq(a, "--rotate") {
            if i + 1 >= n || !angles[i + 1] {
                return Err(ArgError::ExpectAngle);
            }
            assert(args[i + 1 as usize]@ == av[i + 1]);
            rotate = Some(args[i + 1].clone());
            i = i + 2;
        } else if path.is_none() {
            path = Some(args[i].clone());
            i = i + 1;
        } else {
            return Err(ArgError::Unknown);
        }
    }
    match path {
        None => Err(ArgError::NoFile),
        Some(p) => Ok(Command::Play(Options { path: p, repeat, no_window, rotate })),
    }
}

/// Whether `a` is one of the player's flags.
pub open spec fn is_flag(a: Seq<char>) -> bool {
    ||| a == "--help"@
    ||| a == "-h"@
    ||| a == "--repeat"@
    ||| a == "-r"@
    ||| a == "--no-window"@
    ||| a == "--rotate"@
}

/// `r` with its rotation set to `angle`, when it asks to play a file.
spec fn rotated_to(r: Result<CommandView, ArgError>, angle: Seq<char>) -> Result<CommandView, ArgError> {
    match r {
        Ok(CommandView::Play(o)) => Ok(CommandView::Play(OptionsView { rotate: Some(angle), ..o })),
        _ => r,
    }
}

proof fn lemma_flags_differ()
    ensures
        "--rotate"@.len() == 8,
        "--rotate"@[0] == '-',
        "--rotate"@ != "--help"@,
        "--rotate"@ != "-h"@,
        "--rotate"@ != "--repeat"@,
        "--rotate"@ != "-r"@,
        "--rotate"@ != "--no-window"@,
        spec_parse_u32("--rotate"@) is None,
{
    reveal_strlit("--rotate");
    reveal_strlit("--help");
    reveal_strlit("-h");
    reveal_strlit("--repeat");
    reveal_strlit("-r");
    reveal_strlit("--no-window");
    assert("--rotate"@[3] != "--repeat"@[3]);
    assert(unsigned_body("--rotate"@) == "--rotate"@);
    assert(!is_digit("--rotate"@[0]));
}

/// Reading from `i` on depends only on the arguments (and angle marks) from
/// `i` on.
proof fn lemma_scan_reads_only_the_rest(
    a1: Seq<Seq<char>>,
    g1: Seq<bool>,
    a2: Seq<Seq<char>>,
    g2: Seq<bool>,
    i: int,
    st: ScanState,
)
    requires
        0 <= i,
        a1.len() == a2.len(),
        g1.len() == a1.len(),
        g2.len() == a2.len(),
        forall|k: int| i <= k < a1.len() ==> a1[k] == a2[k] && g1[k] == g2[k],
    ensures
        spec_scan(a1, g1, i, st) == spec_scan(a2, g2, i, st),
    decreases a1.len() - i,
{
    if i < a1.len() {
        let a = a1[i];
        if i + 1 < a1.len() {
            if let Some(n) = spec_parse_u32(a1[i + 1]) {
                lemma_scan_reads_only_the_rest(a1, g1, a2, g2, i + 2, ScanState { repeat: repeat_count(n), ..st });
            }
            lemma_scan_reads_only_the_rest(a1, g1, a2, g2, i + 2, ScanState { rotate: Some(a1[i + 1]), ..st });
        }
        lemma_scan_reads_only_the_rest(a1, g1, a2, g2, i + 1, ScanState { no_window: true, ..st });
        lemma_scan_reads_only_the_rest(a1, g1, a2, g2, i + 1, ScanState { path: Some(a), ..st });
    }
}

/// Reading `args` followed by `--rotate angle` from `i` on gives what
/// reading `args` alone gives, with the rotation set to `angle`.
proof fn lemma_scan_with_rotate_appended(
    args: Seq<Seq<char>>,
    angles: Seq<bool>,
    angle: Seq<char>,
    i: int,
    st: ScanState,
)
    requires
        0 <= i <= args.len(),
        angles.len() == args.len(),
    ensures
        spec_scan(args + seq!["--rotate"@, angle], angles + seq![false, true], i, st) == rotated_to(
            spec_scan(args, angles, i, st),
            angle,
        ),
    decreases args.len() - i,
{
    let args2 = args + seq!["--rotate"@, angle];
    let angles2 = angles + seq![false, true];
    lemma_flags_differ();
    assert(args2[args.len() as int] == "--rotate"@);
    assert(args2[args.len() as int + 1] == angle);
    assert(angles2[args.len() as int] == false);
    assert(angles2[args.len() as int + 1] == true);
    if i < args.len() {
        assert(args2[i] == args[i]);
        let a = args[i];
        if i + 1 < args.len() {
            assert(args2[i + 1] == args[i + 1]);
            assert(angles2[i + 1] == angles[i + 1]);
            if let Some(n) = spec_parse_u32(args[i + 1]) {
                lemma_scan_with_rotate_appended(args, angles, angle, i + 2, ScanState { repeat: repeat_count(n), ..st });
            }
            lemma_scan_with_rotate_appended(args, angles, angle, i + 2, ScanState { rotate: Some(args[i + 1]), ..st });
        }
        lemma_scan_with_rotate_appended(args, angles, angle, i + 1, ScanState { no_window: true, ..st });
        lemma_scan_with_rotate_appended(args, angles, angle, i + 1, ScanState { path: Some(a), ..st });
    } else {
        let st2 = ScanState { rotate: Some(angle), ..st };
        assert(spec_scan(args2, angles2, i + 2, st2) == rotated_to(spec_scan(args, angles, i, st), angle));
    }
}

/// The last `--rotate` wins: adding `--rotate angle` at the end of any command
/// line sets the rotation to `angle` and changes nothing else it asks for (a
/// command line of that flag alone names no file).
pub proof fn lemma_last_rotate_wins(args: Seq<Seq<char>>, angles: Seq<bool>, angle: Seq<char>)
    requires
        angles.len() == args.len(),
    ensures
        args.len() > 0 ==> spec_parse_args(args + seq!["--rotate"@, angle], angles + seq![false, true])
            == (match spec_parse_args(args, angles) {
            Ok(CommandView::Play(o)) => Ok(CommandView::Play(OptionsView { rotate: Some(angle), ..o })),
            r => r,
        }),
        args.len() == 0 ==> spec_parse_args(args + seq!["--rotate"@, angle], angles + seq![false, true])
            == Err::<CommandView, ArgError>(ArgError::NoFile),
{
    let st = ScanState { path: None, repeat: Runs::Times(1), no_window: false, rotate: None };
    lemma_scan_with_rotate_appended(args, angles, angle, 0, st);
    let args2 = args + seq!["--rotate"@, angle];
    let angles2 = angles + seq![false, true];
    assert(args2.len() > 0);
    assert(spec_parse_args(args2, angles2) == spec_scan(args2, angles2, 0, st));
    if args.len() == 0 {
        assert(spec_scan(args, angles, 0, st) == Err::<CommandView, ArgError>(ArgError::NoFile));
    } else {
        assert(spec_parse_args(args, angles) == spec_scan(args, angles, 0, st));
    }
}

/// `--rotate angle` means the same before the file name as after it, whatever
/// follows; `--rotate angle file` plays `file` once, with a window, rotated by
/// `angle`.
pub proof fn lemma_rotate_before_or_after_the_file(
    file: Seq<char>,
    angle: Seq<char>,
    rest: Seq<Seq<char>>,
    rest_angles: Seq<bool>,
)
    requires
        !is_flag(file),
        rest_angles.len() == rest.len(),
    ensures
        spec_parse_args(seq!["--rotate"@, angle, file] + rest, seq![false, true, false] + rest_angles)
            == spec_parse_args(seq![file, "--rotate"@, angle] + rest, seq![false, false, true] + rest_angles),
        spec_parse_args(seq!["--rotate"@, angle, file], seq![false, true, false]) == Ok::<CommandView, ArgError>(
            CommandView::Play(
                OptionsView { path: file, repeat: Runs::Times(1), no_window: false, rotate: Some(angle) },
            ),
        ),
{
    lemma_flags_differ();
    let a1 = seq!["--rotate"@, angle, file] + rest;
    let g1 = seq![false, true, false] + rest_angles;
    let a2 = seq![file, "--rotate"@, angle] + rest;
    let g2 = seq![false, false, true] + rest_angles;
    let st0 = ScanState { path: None, repeat: Runs::Times(1), no_window: false, rotate: None };
    let st = ScanState { path: Some(file), repeat: Runs::Times(1), no_window: false, rotate: Some(angle) };
    assert(a1[0] == "--rotate"@ && a1[1] == angle && a1[2] == file && g1[1]);
    assert(a2[0] == file && a2[1] == "--rotate"@ && a2[2] == angle && g2[2]);
    let st_r = ScanState { rotate: Some(angle), ..st0 };
    let st_p = ScanState { path: Some(file), ..st0 };
    assert(ScanState { path: Some(file), ..st_r } == st);
    assert(ScanState { rotate: Some(angle), ..st_p } == st);
    assert(spec_scan(a1, g1, 0, st0) == spec_scan(a1, g1, 2, st_r));
    assert(spec_scan(a1, g1, 2, st_r) == spec_scan(a1, g1, 3, st));
    assert(spec_scan(a2, g2, 0, st0) == spec_scan(a2, g2, 1, st_p));
    assert(spec_scan(a2, g2, 1, st_p) == spec_scan(a2, g2, 3, st));
    assert forall|k: int| 3 <= k < a1.len() implies a1[k] == a2[k] && g1[k] == g2[k] by {
        assert(a1[k] == rest[k - 3]);
        assert(a2[k] == rest[k - 3]);
        assert(g1[k] == rest_angles[k - 3]);
        assert(g2[k] == rest_angles[k - 3]);
    }
    lemma_scan_reads_only_the_rest(a1, g1, a2, g2, 3, st);
    let b = seq!["--rotate"@, angle, file];
    let gb = seq![false, true, false];
    assert(b[0] == "--rotate"@ && b[1] == angle && b[2] == file && gb[1]);
    assert(spec_scan(b, gb, 0, st0) == spec_scan(b, gb, 2, st_r));
    assert(spec_scan(b, gb, 2, st_r) == spec_scan(b, gb, 3, st));
}

} // verus!
