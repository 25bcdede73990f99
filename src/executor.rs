//! The spawn-per-request strategy's decisions: the interpreter's command
//! line, where to look for the interpreter, and what a finished process
//! means for the caller.

use crate::config::PhpConfig;
use crate::text::{decimal_seq, lossy_of, utf8_lossy, with_decimal};
use vstd::prelude::*;

verus! {

/// Why an execution gave no response.
pub enum ExecError {
    /// The selected strategy did not start.
    Unavailable(String),
    /// The deadline, in seconds, passed.
    Timeout(u64),
    /// The operating system could not start the process.
    SpawnFailure(String),
    /// A message on the wire could not be read.
    ProtocolError(String),
    /// The script failed with no usable output; the diagnostic text.
    ScriptFailure(String),
    /// No worker is idle and the queue is full.
    PoolExhausted,
}

/// How a spawned interpreter ended.
pub enum ProcessOutcome {
    /// The deadline passed first.
    TimedOut,
    /// The process could not be started.
    SpawnFailed(String),
    /// The process exited.
    Finished { success: bool, stdout: Vec<u8>, stderr: Vec<u8> },
}

/// What the caller gets from a spawned interpreter: its output, unless it
/// timed out, could not start, or failed without writing anything.
pub fn process_result(outcome: ProcessOutcome, timeout_secs: u64) -> (r: Result<String, ExecError>)
    ensures
        match outcome {
            ProcessOutcome::TimedOut => r matches Err(ExecError::Timeout(t)) && t == timeout_secs,
            ProcessOutcome::SpawnFailed(m) => r matches Err(ExecError::SpawnFailure(e)) && e == m,
            ProcessOutcome::Finished { success, stdout, stderr } => if !success && stdout@.len()
                == 0 {
                r matches Err(ExecError::ScriptFailure(e)) && e@ == lossy_of(stderr@)
            } else {
                r matches Ok(out) && out@ == lossy_of(stdout@)
            },
        },
{
    match outcome {
        ProcessOutcome::TimedOut => Err(ExecError::Timeout(timeout_secs)),
        ProcessOutcome::SpawnFailed(m) => Err(ExecError::SpawnFailure(m)),
        ProcessOutcome::Finished { success, stdout, stderr } => {
            if !success && stdout.len() == 0 {
                Err(ExecError::ScriptFailure(utf8_lossy(stderr.as_slice())))
            } else {
                Ok(utf8_lossy(stdout.as_slice()))
            }
        },
    }
}

/// `-d` and `setting`, for each of `settings`.
pub open spec fn define_args(settings: Seq<Seq<char>>) -> Seq<Seq<char>>
    decreases settings.len(),
{
    if settings.len() == 0 {
        Seq::empty()
    } else {
        define_args(settings.subrange(0, settings.len() - 1)) + seq![
            "-d"@,
            settings[settings.len() - 1],
        ]
    }
}

/// The interpreter's arguments: the memory and time limits, no version
/// banner, errors displayed as configured, errors logged, the operator's
/// settings, then the script.
pub open spec fn command_args(
    memory_limit: Seq<char>,
    max_execution_time: u64,
    display_errors: bool,
    ini_settings: Seq<Seq<char>>,
    script_path: Seq<char>,
) -> Seq<Seq<char>> {
    seq![
        "-d"@,
        "memory_limit="@ + memory_limit,
        "-d"@,
        "max_execution_time="@ + decimal_seq(max_execution_time as nat),
        "-d"@,
        "expose_php=Off"@,
        "-d"@,
        if display_errors {
            "display_errors=On"@
        } else {
            "display_errors=Off"@
        },
        "-d"@,
        "log_errors=On"@,
    ] + define_args(ini_settings) + seq![script_path]
}

pub open spec fn strings_view(v: Seq<String>) -> Seq<Seq<char>> {
    v.map_values(|s: String| s@)
}

fn lit(s: &str) -> (r: String)
    ensures
        r@ == s@,
{
    String::from_str(s)
}

/// The command line of one spawned interpreter.
pub fn php_command_args(config: &PhpConfig, script_path: &str) -> (r: Vec<String>)
    ensures
        strings_view(r@) == command_args(
            config.memory_limit@,
            config.max_execution_time,
            config.display_errors,
            strings_view(config.ini_settings@),
            script_path@,
        ),
{
    let mut r: Vec<String> = Vec::new();
    r.push(lit("-d"));
    let mut m = String::from_str("memory_limit=");
    m.append(config.memory_limit.as_str());
    r.push(m);
    r.push(lit("-d"));
    r.push(with_decimal("max_execution_time=", config.max_execution_time));
    r.push(lit("-d"));
    r.push(lit("expose_php=Off"));
    r.push(lit("-d"));
    if config.display_errors {
        r.push(lit("display_errors=On"));
    } else {
        r.push(lit("display_errors=Off"));
    }
    r.push(lit("-d"));
    r.push(lit("log_errors=On"));
    let ghost fixed = strings_view(r@);
    assert(fixed =~= seq![
        "-d"@,
        "memory_limit="@ + config.memory_limit@,
        "-d"@,
        "max_execution_time="@ + decimal_seq(config.max_execution_time as nat),
        "-d"@,
        "expose_php=Off"@,
        "-d"@,
        if config.display_errors {
            "display_errors=On"@
        } else {
            "display_errors=Off"@
        },
        "-d"@,
        "log_errors=On"@,
    ]);
    let ghost settings = strings_view(config.ini_settings@);
    let mut i: usize = 0;
    while i < config.ini_settings.len()
        invariant
            i <= config.ini_settings@.len(),
            settings == strings_view(config.ini_settings@),
            strings_view(r@) == fixed + define_args(settings.subrange(0, i as int)),
        decreases config.ini_settings@.len() - i,
    {
        let ghost prev = r@;
        r.push(lit("-d"));
        r.push(config.ini_settings[i].clone());
        proof {
            let s = settings.subrange(0, i + 1);
            assert(s.subrange(0, s.len() - 1) =~= settings.subrange(0, i as int));
            assert(strings_view(r@) =~= strings_view(prev) + seq!["-d"@, settings[i as int]]);
        }
        i = i + 1;
    }
    assert(settings.subrange(0, i as int) =~= settings);
    r.push(lit(script_path));
    assert(strings_view(r@) =~= command_args(
        config.memory_limit@,
        config.max_execution_time,
        config.display_errors,
        settings,
        script_path@,
    ));
    r
}

/// `s` without its `.` characters.
pub open spec fn without_dots(s: Seq<char>) -> Seq<char> {
    s.filter(|c: char| c != '.')
}

/// Where to look for the interpreter, in order: the preferred version's
/// binaries, then the common locations.
pub open spec fn binary_candidates(version: Seq<char>) -> Seq<Seq<char>> {
    seq![
        "/usr/bin/php"@ + version,
        "/usr/local/bin/php"@ + version,
        "/usr/bin/php"@ + without_dots(version),
        "/usr/bin/php"@,
        "/usr/local/bin/php"@,
        "/opt/php/bin/php"@,
        "/opt/homebrew/bin/php"@,
    ]
}

fn concat2(a: &str, b: &str) -> (r: String)
    ensures
        r@ == a@ + b@,
{
    let mut r = String::from_str(a);
    r.append(b);
    r
}

/// `s` without its `.` characters.
fn strip_dots(s: &str) -> (r: String)
    ensures
        r@ == without_dots(s@),
{
    let v = crate::text::chars_of(s);
    let mut w: Vec<char> = Vec::new();
    let mut i: usize = 0;
    while i < v.len()
        invariant
            i <= v@.len(),
            v@ == s@,
            w@ == v@.subrange(0, i as int).filter(|c: char| c != '.'),
        decreases v@.len() - i,
    {
        proof {
            assert(v@.subrange(0, i + 1) =~= v@.subrange(0, i as int).push(v@[i as int]));
            v@.subrange(0, i as int).lemma_filter_push(v@[i as int], |c: char| c != '.');
        }
        if v[i] != '.' {
            w.push(v[i]);
        }
        i = i + 1;
    }
    assert(v@.subrange(0, i as int) =~= v@);
    crate::text::string_of(w.as_slice())
}

/// The places where the interpreter of `preferred_version` may be, in the
/// order in which they are tried.
pub fn php_binary_candidates(preferred_version: &str) -> (r: Vec<String>)
    ensures
        strings_view(r@) == binary_candidates(preferred_version@),
{
    let mut r: Vec<String> = Vec::new();
    r.push(concat2("/usr/bin/php", preferred_version));
    r.push(concat2("/usr/local/bin/php", preferred_version));
    r.push(concat2("/usr/bin/php", strip_dots(preferred_version).as_str()));
    r.push(lit("/usr/bin/php"));
    r.push(lit("/usr/local/bin/php"));
    r.push(lit("/opt/php/bin/php"));
    r.push(lit("/opt/homebrew/bin/php"));
    assert(strings_view(r@) =~= binary_candidates(preferred_version@));
    r
}

/// The first candidate that exists, else `fallback`. `exists[i]` tells
/// whether `candidates[i]` is there.
pub fn first_existing(candidates: &Vec<String>, exists: &Vec<bool>, fallback: &str) -> (r: String)
    requires
        exists@.len() == candidates@.len(),
    ensures
        (exists|i: int|
            0 <= i < candidates@.len() && exists@[i] && r@ == candidates@[i]@ && forall|j: int|
                0 <= j < i ==> !#[trigger] exists@[j]) || (r@ == fallback@ && forall|j: int|
            0 <= j < candidates@.len() ==> !#[trigger] exists@[j]),
{
    let mut i: usize = 0;
    while i < candidates.len()
        invariant
            exists@.len() == candidates@.len(),
            i <= candidates@.len(),
            forall|j: int| 0 <= j < i ==> !#[trigger] exists@[j],
        decreases candidates@.len() - i,
    {
        if exists[i] {
            return candidates[i].clone();
        }
        i = i + 1;
    }
    lit(fallback)
}

} // verus!
