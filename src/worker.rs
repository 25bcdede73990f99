//! Settings of the persistent worker binary and where it looks for the
//! interpreter.

use crate::executor::strings_view;
use crate::protocol::PhpResponse;
use crate::text::{decimal_seq, lossy_of, utf8_lossy, with_decimal};
use vstd::prelude::*;

verus! {

/// Socket that the worker listens on unless told otherwise.
pub const DEFAULT_SOCKET: &'static str = "/run/veloserve/php.sock";

/// Workers started unless told otherwise.
pub const DEFAULT_WORKERS: usize = 8;

/// Settings of the worker binary.
pub struct Config {
    /// Unix socket path or TCP address.
    pub socket: String,
    /// User to run as.
    pub user: Option<String>,
    /// Number of workers.
    pub workers: usize,
    /// Interpreter memory limit.
    pub memory_limit: String,
    /// Maximum execution time in seconds.
    pub max_execution_time: u32,
    /// Interpreter settings file.
    pub php_ini: Option<String>,
    /// Explicit interpreter binary.
    pub php_binary: Option<String>,
    /// Run in the background.
    pub daemon: bool,
    /// File to write the process id to.
    pub pid_file: Option<String>,
    /// Log each request.
    pub verbose: bool,
}

impl Default for Config {
    fn default() -> (r: Config)
        ensures
            r.socket@ == DEFAULT_SOCKET@,
            r.user is None,
            r.workers == DEFAULT_WORKERS,
            r.memory_limit@ == "256M"@,
            r.max_execution_time == 30,
            r.php_ini is None,
            r.php_binary is None,
            !r.daemon,
            r.pid_file is None,
            !r.verbose,
    {
        Config {
            socket: String::from_str(DEFAULT_SOCKET),
            user: None,
            workers: DEFAULT_WORKERS,
            memory_limit: String::from_str("256M"),
            max_execution_time: 30,
            php_ini: None,
            php_binary: None,
            daemon: false,
            pid_file: None,
            verbose: false,
        }
    }
}

/// Interpreter versions tried, newest first.
pub open spec fn versions() -> Seq<Seq<char>> {
    seq!["84"@, "83"@, "82"@, "81"@, "80"@, "74"@]
}

/// Where the worker looks for the interpreter, in order: the explicit
/// binary, the cPanel builds, the CloudLinux builds, then the system ones.
pub open spec fn worker_candidates(explicit: Option<Seq<char>>) -> Seq<Seq<char>> {
    let first = match explicit {
        Some(p) => seq![p],
        None => Seq::empty(),
    };
    first + versions().map_values(|v: Seq<char>| "/opt/cpanel/ea-php"@ + v + "/root/usr/bin/php-cgi"@)
        + versions().map_values(|v: Seq<char>| "/opt/alt/php"@ + v + "/usr/bin/php-cgi"@) + seq![
        "/usr/bin/php-cgi"@,
        "/usr/bin/php"@,
        "/usr/local/bin/php-cgi"@,
    ]
}

fn concat3(a: &str, b: &str, c: &str) -> (r: String)
    ensures
        r@ == a@ + b@ + c@,
{
    let mut r = String::from_str(a);
    r.append(b);
    r.append(c);
    r
}

impl Config {
    /// The places where the interpreter may be, in the order in which they
    /// are tried; `php-cgi` on the search path is the fallback.
    pub fn php_binary_candidates(&self) -> (r: Vec<String>)
        ensures
            strings_view(r@) == worker_candidates(
                match self.php_binary {
                    Some(p) => Some(p@),
                    None => None,
                },
            ),
    {
        let mut r: Vec<String> = Vec::new();
        match &self.php_binary {
            Some(p) => r.push(p.clone()),
            None => {},
        }
        let ghost first = strings_view(r@);
        let vs: [&str; 6] = ["84", "83", "82", "81", "80", "74"];
        r.push(concat3("/opt/cpanel/ea-php", vs[0], "/root/usr/bin/php-cgi"));
        r.push(concat3("/opt/cpanel/ea-php", vs[1], "/root/usr/bin/php-cgi"));
        r.push(concat3("/opt/cpanel/ea-php", vs[2], "/root/usr/bin/php-cgi"));
        r.push(concat3("/opt/cpanel/ea-php", vs[3], "/root/usr/bin/php-cgi"));
        r.push(concat3("/opt/cpanel/ea-php", vs[4], "/root/usr/bin/php-cgi"));
        r.push(concat3("/opt/cpanel/ea-php", vs[5], "/root/usr/bin/php-cgi"));
        r.push(concat3("/opt/alt/php", vs[0], "/usr/bin/php-cgi"));
        r.push(concat3("/opt/alt/php", vs[1], "/usr/bin/php-cgi"));
        r.push(concat3("/opt/alt/php", vs[2], "/usr/bin/php-cgi"));
        r.push(concat3("/opt/alt/php", vs[3], "/usr/bin/php-cgi"));
        r.push(concat3("/opt/alt/php", vs[4], "/usr/bin/php-cgi"));
        r.push(concat3("/opt/alt/php", vs[5], "/usr/bin/php-cgi"));
        r.push(String::from_str("/usr/bin/php-cgi"));
        r.push(String::from_str("/usr/bin/php"));
        r.push(String::from_str("/usr/local/bin/php-cgi"));
        assert(strings_view(r@) =~= worker_candidates(
            match self.php_binary {
                Some(p) => Some(p@),
                None => None,
            },
        ));
        r
    }
}

/// The arguments of a worker's long-lived interpreter process: the settings
/// file if any, the memory and time limits, and quiet mode.
pub open spec fn process_args(
    php_ini: Option<Seq<char>>,
    memory_limit: Seq<char>,
    max_execution_time: u32,
) -> Seq<Seq<char>> {
    (match php_ini {
        Some(p) => seq!["-c"@, p],
        None => Seq::empty(),
    }) + seq![
        "-d"@,
        "memory_limit="@ + memory_limit,
        "-d"@,
        "max_execution_time="@ + decimal_seq(max_execution_time as nat),
        "-q"@,
    ]
}

/// How an exit code reads in a message: `Some(n)` or `None`.
pub open spec fn exit_code_text(code: Option<i32>) -> Seq<char> {
    match code {
        Some(n) => "Some("@ + (if n < 0 {
            "-"@ + decimal_seq((-n) as nat)
        } else {
            decimal_seq(n as nat)
        }) + ")"@,
        None => "None"@,
    }
}

fn exit_code_string(code: Option<i32>) -> (r: String)
    ensures
        r@ == exit_code_text(code),
{
    match code {
        Some(n) => {
            proof {
                reveal_strlit("");
            }
            let mut r = String::from_str("Some(");
            let digits = if n < 0 {
                r.append("-");
                let m: u64 = (-(n as i64)) as u64;
                with_decimal("", m)
            } else {
                with_decimal("", n as u64)
            };
            assert(digits@ =~= decimal_seq(if n < 0 { (-n) as nat } else { n as nat }));
            r.append(digits.as_str());
            r.append(")");
            r
        },
        None => String::from_str("None"),
    }
}

impl Config {
    /// The arguments of a worker's long-lived interpreter process.
    pub fn process_args(&self) -> (r: Vec<String>)
        ensures
            strings_view(r@) == process_args(
                match self.php_ini {
                    Some(p) => Some(p@),
                    None => None,
                },
                self.memory_limit@,
                self.max_execution_time,
            ),
    {
        let mut r: Vec<String> = Vec::new();
        match &self.php_ini {
            Some(p) => {
                r.push(String::from_str("-c"));
                r.push(p.clone());
            },
            None => {},
        }
        r.push(String::from_str("-d"));
        let mut m = String::from_str("memory_limit=");
        m.append(self.memory_limit.as_str());
        r.push(m);
        r.push(String::from_str("-d"));
        r.push(with_decimal("max_execution_time=", self.max_execution_time as u64));
        r.push(String::from_str("-q"));
        assert(strings_view(r@) =~= process_args(
            match self.php_ini {
                Some(p) => Some(p@),
                None => None,
            },
            self.memory_limit@,
            self.max_execution_time,
        ));
        r
    }
}

/// The worker's response to a run that its process reports: its output, unless the run
/// failed without writing any, which gives an error that names the exit
/// code and carries the diagnostics.
pub fn run_response(success: bool, code: Option<i32>, stdout: &[u8], stderr: &[u8]) -> (r:
    PhpResponse)
    ensures
        r.wf(),
        (success || stdout@.len() > 0) ==> r.success && r.status_code == 200 && r.body@ == lossy_of(
            stdout@,
        ) && r.stderr@ == lossy_of(stderr@) && r.error is None,
        (!success && stdout@.len() == 0) ==> !r.success && r.status_code == 500 && r.body@.len() == 0 && (r.error matches Some(
            e,
        ) && e@ == "PHP exit code "@ + exit_code_text(code) + ": "@ + lossy_of(stderr@)),
        !r.queued,
{
    let err = utf8_lossy(stderr);
    if success || stdout.len() > 0 {
        let out = utf8_lossy(stdout);
        PhpResponse::ok(out.as_str(), err.as_str())
    } else {
        let mut m = String::from_str("PHP exit code ");
        m.append(exit_code_string(code).as_str());
        m.append(": ");
        m.append(err.as_str());
        PhpResponse::error(m.as_str())
    }
}

} // verus!
