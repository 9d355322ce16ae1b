//! The shell tools: what each one runs, what a finished run is reported
//! as, and what is written to the log about it.
//!
//! A tool call goes in three steps. A plan says which program runs, with
//! which arguments, in which directory, with what on its standard input and
//! under which time limit, and under which label the run is logged. The
//! caller runs it and hands back what became of the process. The report of
//! that outcome gives the reply to the tool call and the log entry.

use crate::log::{LogEntry, LogRecord, LogStore};
use crate::text::{
    decimal, decimal_i32, decimal_u64, decode_lossy, join_words, joined, lossy_utf8, push_words,
    signed_decimal, texts, words, lemma_words_of_plain_text,
};
use vstd::prelude::*;

verus! {

/// A request to run one shell command.
pub struct CommandRequest {
    pub command: String,
    pub cwd: Option<String>,
}

/// A request to run a multi-line shell script.
pub struct ScriptRequest {
    pub script: String,
    pub cwd: Option<String>,
}

/// A request to run a snippet of source code, with a time limit in seconds.
pub struct CodeRequest {
    pub code: String,
    pub cwd: Option<String>,
    pub timeout: Option<u64>,
}

/// A request naming packages.
pub struct PkgRequest {
    pub packages: Vec<String>,
}

/// A request to search packages by keyword.
pub struct PkgSearchRequest {
    pub keyword: String,
}

/// How a process is run and its output collected.
#[derive(PartialEq, Eq, Structural)]
pub enum RunMode {
    /// Run to completion and collect the output in one step; any failure
    /// of that step is a [`ProcessOutcome::CollectFailed`].
    Output,
    /// Spawn with piped output (and piped input when there is some to
    /// send), then wait; a failure to spawn is a
    /// [`ProcessOutcome::SpawnFailed`].
    Spawn,
}

/// A program to run.
pub struct Invocation {
    pub program: String,
    pub args: Vec<String>,
    pub cwd: Option<String>,
    /// Text written to the process's standard input, which is then closed.
    pub stdin: Option<String>,
    /// The time limit in seconds, if any.
    pub timeout_secs: Option<u64>,
    pub mode: RunMode,
}

/// What a tool runs, and the label under which the run is logged.
pub struct Plan {
    pub invocation: Invocation,
    pub label: String,
}

/// The reply to a tool call: a text, marked as an error or not.
pub struct ToolReply {
    pub is_error: bool,
    pub text: String,
}

/// What became of a process.
pub enum ProcessOutcome {
    /// It ran to the end; `code` is its exit code, absent when a signal
    /// ended it.
    Exited { stdout: Vec<u8>, stderr: Vec<u8>, code: Option<i32> },
    /// It could not be started.
    SpawnFailed { message: String },
    /// It could not be run to completion or its output not collected.
    CollectFailed { message: String },
    /// It did not end within the time limit.
    TimedOut { seconds: u64 },
}

/// A finished run: its exit code, its output as text, and the reply.
pub struct RunReport {
    pub exit_code: i32,
    pub stdout: String,
    pub stderr: String,
    pub reply: ToolReply,
}

/// The exit code reported when the process could not be started.
pub const SPAWN_FAILED_CODE: i32 = -3;

/// The exit code reported when the run or the collection of its output
/// failed.
pub const COLLECT_FAILED_CODE: i32 = -2;

/// The exit code reported when the time limit ran out.
pub const TIMED_OUT_CODE: i32 = -4;

/// The exit code reported when a signal ended the process.
pub const NO_EXIT_CODE: i32 = -1;

/// The time limit of a code snippet when the request gives none.
pub const DEFAULT_CODE_TIMEOUT_SECS: u64 = 30;

/// The longest time limit a code snippet may ask for.
pub const MAX_CODE_TIMEOUT_SECS: u64 = 120;

/// The time limit of `apk add`.
pub const APK_INSTALL_TIMEOUT_SECS: u64 = 300;

/// The time limit of `apk del`.
pub const APK_REMOVE_TIMEOUT_SECS: u64 = 120;

/// The time limit of `apk search` and `apk info`.
pub const APK_QUERY_TIMEOUT_SECS: u64 = 30;

/// The time limit of `apk update`.
pub const APK_UPDATE_TIMEOUT_SECS: u64 = 120;

/// `inv` runs `program` with `args` in `cwd`, feeding it `stdin`, under the
/// time limit `timeout_secs`, in `mode`.
pub open spec fn runs(
    inv: Invocation,
    program: Seq<char>,
    args: Seq<Seq<char>>,
    cwd: Option<String>,
    stdin: Option<String>,
    timeout_secs: Option<u64>,
    mode: RunMode,
) -> bool {
    &&& inv.program@ == program
    &&& texts(inv.args@) == args
    &&& inv.cwd == cwd
    &&& inv.stdin == stdin
    &&& inv.timeout_secs == timeout_secs
    &&& inv.mode == mode
}

/// The time limit of a code snippet: the one asked for, 30 seconds when
/// none is, and never more than 120.
pub open spec fn clamp_timeout(timeout: Option<u64>) -> u64 {
    let asked = match timeout {
        Some(t) => t,
        None => DEFAULT_CODE_TIMEOUT_SECS,
    };
    if asked < MAX_CODE_TIMEOUT_SECS {
        asked
    } else {
        MAX_CODE_TIMEOUT_SECS
    }
}

/// The number that names a temporary source file: the process id times a
/// million plus the microseconds counted (cut to 64 bits).
pub open spec fn temp_stamp(pid: u32, micros: u128) -> int {
    pid * 1_000_000 + (micros as u64)
}

/// The text of a finished run: standard output, then the standard error
/// under a `[stderr]` line when there is any (on a line of its own when
/// there was output), then the exit code on a last line.
pub open spec fn output_text(stdout: Seq<char>, stderr: Seq<char>, code: int) -> Seq<char> {
    let shown = if stderr.len() == 0 {
        stdout
    } else if stdout.len() == 0 {
        "[stderr]\n"@ + stderr
    } else {
        stdout + "\n"@ + "[stderr]\n"@ + stderr
    };
    shown + "\n[exit code: "@ + signed_decimal(code) + "]"@
}

/// The exit code reported for a process that exited with `code`.
pub open spec fn exit_code_of(code: Option<i32>) -> i32 {
    match code {
        Some(c) => c,
        None => NO_EXIT_CODE,
    }
}

/// The message of a run that ran out of time.
pub open spec fn timeout_message(seconds: u64) -> Seq<char> {
    "timeout after "@ + decimal(seconds as nat) + "s"@
}

impl RunReport {
    /// The report of a run that failed with `message` before it printed
    /// anything: the message is the standard error and the error reply.
    pub open spec fn is_failure(self, code: i32, message: Seq<char>) -> bool {
        &&& self.exit_code == code
        &&& self.stdout@ == Seq::<char>::empty()
        &&& self.stderr@ == message
        &&& self.reply.is_error
        &&& self.reply.text@ == message
    }

    /// The report of a process that exited with `code` after printing
    /// `stdout` and `stderr`: the reply is an error unless the exit code is
    /// 0.
    pub open spec fn is_exit(self, stdout: Seq<char>, stderr: Seq<char>, code: Option<i32>) -> bool {
        &&& self.exit_code == exit_code_of(code)
        &&& self.stdout@ == stdout
        &&& self.stderr@ == stderr
        &&& self.reply.is_error == (code != Some(0i32))
        &&& self.reply.text@ == output_text(stdout, stderr, exit_code_of(code) as int)
    }
}

/// `r` is the report of `outcome`: the output decoded as UTF-8 (invalid
/// sequences replaced) for a process that exited; code -3, -2 or -4, with
/// the message as standard error and error reply, when it could not be
/// started, run and collected, or finished in time.
pub open spec fn reports(outcome: ProcessOutcome, r: RunReport) -> bool {
    match outcome {
        ProcessOutcome::Exited { stdout, stderr, code } => r.is_exit(
            lossy_utf8(stdout@),
            lossy_utf8(stderr@),
            code,
        ),
        ProcessOutcome::SpawnFailed { message } => r.is_failure(SPAWN_FAILED_CODE, message@),
        ProcessOutcome::CollectFailed { message } => r.is_failure(COLLECT_FAILED_CODE, message@),
        ProcessOutcome::TimedOut { seconds } => r.is_failure(
            TIMED_OUT_CODE,
            timeout_message(seconds),
        ),
    }
}

/// The log record of a run: the label as the command, the output, the exit
/// code and the duration (cut to 64 bits); its id is set by the store.
pub open spec fn run_record(
    time: Seq<char>,
    label: Seq<char>,
    report: RunReport,
    elapsed_ms: u128,
) -> LogRecord {
    LogRecord {
        id: 0,
        time,
        command: label,
        stdout: report.stdout@,
        stderr: report.stderr@,
        exit_code: report.exit_code,
        duration_ms: elapsed_ms as u64,
    }
}

fn owned(s: &str) -> (r: String)
    ensures
        r@ == s@,
{
    String::from_str(s)
}

fn copy_option(o: &Option<String>) -> (r: Option<String>)
    ensures
        r == *o,
{
    match o {
        Some(s) => Some(s.clone()),
        None => None,
    }
}

/// `first` followed by copies of `rest`.
fn args_then(first: Vec<String>, rest: &Vec<String>) -> (r: Vec<String>)
    ensures
        texts(r@) == texts(first@) + texts(rest@),
{
    let mut r = first;
    let ghost start = r@;
    let mut i: usize = 0;
    while i < rest.len()
        invariant
            i <= rest.len(),
            r@ == start + rest@.take(i as int),
        decreases rest.len() - i,
    {
        r.push(rest[i].clone());
        proof {
            assert(rest@.take(i + 1) =~= rest@.take(i as int).push(rest@[i as int]));
        }
        i = i + 1;
    }
    proof {
        assert(rest@.take(rest.len() as int) =~= rest@);
        assert(texts(start + rest@) =~= texts(start) + texts(rest@));
    }
    r
}

/// The plan of `execute_command`: `/bin/sh -c <command>` in the requested
/// directory, run and collected in one step, with no time limit, logged
/// under the command itself.
pub fn execute_command_plan(req: &CommandRequest) -> (p: Plan)
    ensures
        runs(
            p.invocation,
            "/bin/sh"@,
            seq!["-c"@, req.command@],
            req.cwd,
            None,
            None,
            RunMode::Output,
        ),
        p.label@ == req.command@,
{
    let args = vec![owned("-c"), req.command.clone()];
    proof {
        assert(texts(args@) =~= seq!["-c"@, req.command@]);
    }
    Plan {
        invocation: Invocation {
            program: owned("/bin/sh"),
            args,
            cwd: copy_option(&req.cwd),
            stdin: None,
            timeout_secs: None,
            mode: RunMode::Output,
        },
        label: req.command.clone(),
    }
}

/// The plan of `execute_script`: `/bin/sh` in the requested directory with
/// the script on its standard input, with no time limit, logged under the
/// script itself.
pub fn execute_script_plan(req: &ScriptRequest) -> (p: Plan)
    ensures
        runs(
            p.invocation,
            "/bin/sh"@,
            Seq::<Seq<char>>::empty(),
            req.cwd,
            Some(req.script),
            None,
            RunMode::Spawn,
        ),
        p.label@ == req.script@,
{
    let args: Vec<String> = Vec::new();
    proof {
        assert(texts(args@) =~= Seq::<Seq<char>>::empty());
    }
    Plan {
        invocation: Invocation {
            program: owned("/bin/sh"),
            args,
            cwd: copy_option(&req.cwd),
            stdin: Some(req.script.clone()),
            timeout_secs: None,
            mode: RunMode::Spawn,
        },
        label: req.script.clone(),
    }
}

/// The time limit of a code snippet: the requested one, 30 seconds by
/// default, at most 120.
pub fn code_timeout(timeout: Option<u64>) -> (secs: u64)
    ensures
        secs == clamp_timeout(timeout),
        secs <= MAX_CODE_TIMEOUT_SECS,
{
    let asked = match timeout {
        Some(t) => t,
        None => DEFAULT_CODE_TIMEOUT_SECS,
    };
    if asked < MAX_CODE_TIMEOUT_SECS {
        asked
    } else {
        MAX_CODE_TIMEOUT_SECS
    }
}

fn temp_path(prefix: &str, suffix: &str, pid: u32, micros: u128) -> (path: String)
    requires
        temp_stamp(pid, micros) <= u64::MAX,
    ensures
        path@ == prefix@ + decimal(temp_stamp(pid, micros) as nat) + suffix@,
{
    let low: u64 = #[verifier::truncate] (micros as u64);
    let stamp: u64 = pid as u64 * 1_000_000 + low;
    let mut path = owned(prefix);
    let digits = decimal_u64(stamp);
    path.append(digits.as_str());
    path.append(suffix);
    path
}

/// The temporary file that `run_python` writes the snippet to.
pub fn python_temp_path(pid: u32, micros: u128) -> (path: String)
    requires
        temp_stamp(pid, micros) <= u64::MAX,
    ensures
        path@ == "/tmp/mcp_py_"@ + decimal(temp_stamp(pid, micros) as nat) + ".py"@,
{
    temp_path("/tmp/mcp_py_", ".py", pid, micros)
}

/// The temporary file that `run_node` writes the snippet to.
pub fn node_temp_path(pid: u32, micros: u128) -> (path: String)
    requires
        temp_stamp(pid, micros) <= u64::MAX,
    ensures
        path@ == "/tmp/mcp_js_"@ + decimal(temp_stamp(pid, micros) as nat) + ".mjs"@,
{
    temp_path("/tmp/mcp_js_", ".mjs", pid, micros)
}

/// The reply when the snippet could not be written to its temporary file;
/// such a call is not logged.
pub fn write_failure_reply(message: &str) -> (r: ToolReply)
    ensures
        r.is_error,
        r.text@ == "failed to write temp file: "@ + message@,
{
    let mut text = owned("failed to write temp file: ");
    text.append(message);
    ToolReply { is_error: true, text }
}

/// The plan of `run_python`: `python3 -u <path>` in the requested
/// directory under the snippet's time limit, logged as `[python]` and the
/// code on the next lines.
pub fn run_python_plan(req: &CodeRequest, path: &str) -> (p: Plan)
    ensures
        runs(
            p.invocation,
            "python3"@,
            seq!["-u"@, path@],
            req.cwd,
            None,
            Some(clamp_timeout(req.timeout)),
            RunMode::Spawn,
        ),
        p.label@ == "[python]\n"@ + req.code@,
{
    let args = vec![owned("-u"), owned(path)];
    proof {
        assert(texts(args@) =~= seq!["-u"@, path@]);
    }
    let mut label = owned("[python]\n");
    label.append(req.code.as_str());
    Plan {
        invocation: Invocation {
            program: owned("python3"),
            args,
            cwd: copy_option(&req.cwd),
            stdin: None,
            timeout_secs: Some(code_timeout(req.timeout)),
            mode: RunMode::Spawn,
        },
        label,
    }
}

/// The plan of `run_node`: `node <path>` in the requested directory under
/// the snippet's time limit, logged as `[node]` and the code on the next
/// lines.
pub fn run_node_plan(req: &CodeRequest, path: &str) -> (p: Plan)
    ensures
        runs(
            p.invocation,
            "node"@,
            seq![path@],
            req.cwd,
            None,
            Some(clamp_timeout(req.timeout)),
            RunMode::Spawn,
        ),
        p.label@ == "[node]\n"@ + req.code@,
{
    let args = vec![owned(path)];
    proof {
        assert(texts(args@) =~= seq![path@]);
    }
    let mut label = owned("[node]\n");
    label.append(req.code.as_str());
    Plan {
        invocation: Invocation {
            program: owned("node"),
            args,
            cwd: copy_option(&req.cwd),
            stdin: None,
            timeout_secs: Some(code_timeout(req.timeout)),
            mode: RunMode::Spawn,
        },
        label,
    }
}

/// The reply to a package request that names no package.
pub open spec fn is_empty_packages_reply(r: ToolReply) -> bool {
    r.is_error && r.text@ == "packages list is empty"@
}

fn empty_packages_reply() -> (r: ToolReply)
    ensures
        is_empty_packages_reply(r),
{
    ToolReply { is_error: true, text: owned("packages list is empty") }
}

/// The package names of a request: each element split into its words at
/// blanks, so that `"curl git"` and `["curl", "git"]` name the same two
/// packages.
pub open spec fn package_names(packages: Seq<Seq<char>>) -> Seq<Seq<char>>
    decreases packages.len(),
{
    if packages.len() == 0 {
        seq![]
    } else {
        package_names(packages.drop_last()) + words(packages.last())
    }
}

/// Splits each element of `packages` into its words (see
/// [`package_names`]).
pub fn split_package_names(packages: &Vec<String>) -> (names: Vec<String>)
    ensures
        texts(names@) == package_names(texts(packages@)),
{
    let mut names: Vec<String> = Vec::new();
    let ghost all = texts(packages@);
    let mut i: usize = 0;
    proof {
        assert(texts(names@) =~= Seq::<Seq<char>>::empty());
        assert(all.take(0) =~= Seq::<Seq<char>>::empty());
    }
    while i < packages.len()
        invariant
            i <= packages.len(),
            all == texts(packages@),
            texts(names@) == package_names(all.take(i as int)),
        decreases packages.len() - i,
    {
        push_words(packages[i].as_str(), &mut names);
        proof {
            assert(all.take(i + 1).drop_last() =~= all.take(i as int));
        }
        i = i + 1;
    }
    proof {
        assert(all.take(packages.len() as int) =~= all);
    }
    names
}

/// An `apk <flags...> <names...>` plan under `timeout` over the package
/// names of the request, logged as `<tag> ` followed by the request's
/// elements as given, joined by spaces; refused when the request names no
/// package.
fn apk_packages_plan(flags: Vec<String>, tag: &str, timeout: u64, req: &PkgRequest) -> (res:
    Result<Plan, ToolReply>)
    ensures
        package_names(texts(req.packages@)).len() == 0 <==> res is Err,
        res matches Err(r) ==> is_empty_packages_reply(r),
        res matches Ok(p) ==> {
            &&& runs(
                p.invocation,
                "apk"@,
                texts(flags@) + package_names(texts(req.packages@)),
                None,
                None,
                Some(timeout),
                RunMode::Spawn,
            )
            &&& p.label@ == tag@ + " "@ + joined(texts(req.packages@), " "@)
        },
{
    let names = split_package_names(&req.packages);
    if names.len() == 0 {
        return Err(empty_packages_reply());
    }
    let args = args_then(flags, &names);
    let mut label = owned(tag);
    label.append(" ");
    let joined_names = join_words(&req.packages, " ");
    label.append(joined_names.as_str());
    Ok(
        Plan {
            invocation: Invocation {
                program: owned("apk"),
                args,
                cwd: None,
                stdin: None,
                timeout_secs: Some(timeout),
                mode: RunMode::Spawn,
            },
            label,
        },
    )
}

/// The plan of `apk_install`: `apk add --update-cache <names...>`, which
/// refreshes the repository index before installing, with a 300 second
/// limit, logged as `[apk install]` and the request's elements joined by
/// spaces; refused with an error reply, and not logged, when the request
/// names no package.
pub fn apk_install_plan(req: &PkgRequest) -> (res: Result<Plan, ToolReply>)
    ensures
        package_names(texts(req.packages@)).len() == 0 <==> res is Err,
        res matches Err(r) ==> is_empty_packages_reply(r),
        res matches Ok(p) ==> {
            &&& runs(
                p.invocation,
                "apk"@,
                seq!["add"@, "--update-cache"@] + package_names(texts(req.packages@)),
                None,
                None,
                Some(APK_INSTALL_TIMEOUT_SECS),
                RunMode::Spawn,
            )
            &&& p.label@ == "[apk install]"@ + " "@ + joined(texts(req.packages@), " "@)
        },
{
    let flags = vec![owned("add"), owned("--update-cache")];
    proof {
        assert(texts(flags@) =~= seq!["add"@, "--update-cache"@]);
    }
    apk_packages_plan(flags, "[apk install]", APK_INSTALL_TIMEOUT_SECS, req)
}

/// The plan of `apk_remove`: `apk del <names...>` with a 120 second limit,
/// logged as `[apk remove]` and the request's elements joined by spaces;
/// refused with an error reply, and not logged, when the request names no
/// package.
pub fn apk_remove_plan(req: &PkgRequest) -> (res: Result<Plan, ToolReply>)
    ensures
        package_names(texts(req.packages@)).len() == 0 <==> res is Err,
        res matches Err(r) ==> is_empty_packages_reply(r),
        res matches Ok(p) ==> {
            &&& runs(
                p.invocation,
                "apk"@,
                seq!["del"@] + package_names(texts(req.packages@)),
                None,
                None,
                Some(APK_REMOVE_TIMEOUT_SECS),
                RunMode::Spawn,
            )
            &&& p.label@ == "[apk remove]"@ + " "@ + joined(texts(req.packages@), " "@)
        },
{
    let flags = vec![owned("del")];
    proof {
        assert(texts(flags@) =~= seq!["del"@]);
    }
    apk_packages_plan(flags, "[apk remove]", APK_REMOVE_TIMEOUT_SECS, req)
}

/// The plan of `apk_search`: `apk search -v <keyword>` with a 30 second
/// limit, logged as `[apk search]` and the keyword.
pub fn apk_search_plan(req: &PkgSearchRequest) -> (p: Plan)
    ensures
        runs(
            p.invocation,
            "apk"@,
            seq!["search"@, "-v"@, req.keyword@],
            None,
            None,
            Some(APK_QUERY_TIMEOUT_SECS),
            RunMode::Spawn,
        ),
        p.label@ == "[apk search] "@ + req.keyword@,
{
    let args = vec![owned("search"), owned("-v"), req.keyword.clone()];
    proof {
        assert(texts(args@) =~= seq!["search"@, "-v"@, req.keyword@]);
    }
    let mut label = owned("[apk search] ");
    label.append(req.keyword.as_str());
    Plan {
        invocation: Invocation {
            program: owned("apk"),
            args,
            cwd: None,
            stdin: None,
            timeout_secs: Some(APK_QUERY_TIMEOUT_SECS),
            mode: RunMode::Spawn,
        },
        label,
    }
}

/// The plan of `apk_list_installed`: `apk info -v` with a 30 second limit,
/// logged as `[apk list-installed]`.
pub fn apk_list_installed_plan() -> (p: Plan)
    ensures
        runs(
            p.invocation,
            "apk"@,
            seq!["info"@, "-v"@],
            None,
            None,
            Some(APK_QUERY_TIMEOUT_SECS),
            RunMode::Spawn,
        ),
        p.label@ == "[apk list-installed]"@,
{
    let args = vec![owned("info"), owned("-v")];
    proof {
        assert(texts(args@) =~= seq!["info"@, "-v"@]);
    }
    Plan {
        invocation: Invocation {
            program: owned("apk"),
            args,
            cwd: None,
            stdin: None,
            timeout_secs: Some(APK_QUERY_TIMEOUT_SECS),
            mode: RunMode::Spawn,
        },
        label: owned("[apk list-installed]"),
    }
}

/// The plan of `apk_update`: `apk update` with a 120 second limit, logged
/// as `[apk update]`.
pub fn apk_update_plan() -> (p: Plan)
    ensures
        runs(
            p.invocation,
            "apk"@,
            seq!["update"@],
            None,
            None,
            Some(APK_UPDATE_TIMEOUT_SECS),
            RunMode::Spawn,
        ),
        p.label@ == "[apk update]"@,
{
    let args = vec![owned("update")];
    proof {
        assert(texts(args@) =~= seq!["update"@]);
    }
    Plan {
        invocation: Invocation {
            program: owned("apk"),
            args,
            cwd: None,
            stdin: None,
            timeout_secs: Some(APK_UPDATE_TIMEOUT_SECS),
            mode: RunMode::Spawn,
        },
        label: owned("[apk update]"),
    }
}

/// The text of a finished run: the output, the standard error under a
/// `[stderr]` line when there is any, and the exit code on a last line.
pub fn summarize_output(stdout: &str, stderr: &str, code: i32) -> (text: String)
    ensures
        text@ == output_text(stdout@, stderr@, code as int),
{
    let mut text = owned(stdout);
    if !stderr.is_empty() {
        if !stdout.is_empty() {
            text.append("\n");
        }
        text.append("[stderr]\n");
        text.append(stderr);
        proof {
            if stdout@.len() == 0 {
                assert(stdout@ + "[stderr]\n"@ + stderr@ =~= "[stderr]\n"@ + stderr@);
            }
        }
    }
    text.append("\n[exit code: ");
    let digits = decimal_i32(code);
    text.append(digits.as_str());
    text.append("]");
    text
}

/// The report of a process that exited: exit code -1 when a signal ended
/// it, the reply an error unless the exit code is 0.
pub fn exited_report(stdout: String, stderr: String, code: Option<i32>) -> (r: RunReport)
    ensures
        r.is_exit(stdout@, stderr@, code),
{
    let exit_code = match code {
        Some(c) => c,
        None => NO_EXIT_CODE,
    };
    let success = match code {
        Some(c) => c == 0,
        None => false,
    };
    let text = summarize_output(stdout.as_str(), stderr.as_str(), exit_code);
    RunReport { exit_code, stdout, stderr, reply: ToolReply { is_error: !success, text } }
}

fn failure_report(code: i32, message: String) -> (r: RunReport)
    ensures
        r.is_failure(code, message@),
{
    RunReport {
        exit_code: code,
        stdout: String::new(),
        stderr: message.clone(),
        reply: ToolReply { is_error: true, text: message },
    }
}

/// The message of a run that ran out of time after `seconds`.
pub fn timeout_text(seconds: u64) -> (msg: String)
    ensures
        msg@ == timeout_message(seconds),
{
    let mut msg = owned("timeout after ");
    let digits = decimal_u64(seconds);
    msg.append(digits.as_str());
    msg.append("s");
    msg
}

/// The report of what became of a process (see [`reports`]).
pub fn run_report(outcome: ProcessOutcome) -> (r: RunReport)
    ensures
        reports(outcome, r),
{
    match outcome {
        ProcessOutcome::Exited { stdout, stderr, code } => {
            let out = decode_lossy(stdout.as_slice());
            let err = decode_lossy(stderr.as_slice());
            exited_report(out, err, code)
        },
        ProcessOutcome::SpawnFailed { message } => failure_report(SPAWN_FAILED_CODE, message),
        ProcessOutcome::CollectFailed { message } => failure_report(COLLECT_FAILED_CODE, message),
        ProcessOutcome::TimedOut { seconds } => failure_report(
            TIMED_OUT_CODE,
            timeout_text(seconds),
        ),
    }
}

/// The log entry of a run (its id is set when it is pushed).
pub fn run_entry(time: String, label: String, report: RunReport, elapsed_ms: u128) -> (res: (
    LogEntry,
    ToolReply,
))
    ensures
        res.0@ == run_record(time@, label@, report, elapsed_ms),
        res.1 == report.reply,
{
    let duration_ms: u64 = #[verifier::truncate] (elapsed_ms as u64);
    let RunReport { exit_code, stdout, stderr, reply } = report;
    let entry = LogEntry { id: 0, time, command: label, stdout, stderr, exit_code, duration_ms };
    (entry, reply)
}

/// Logs a run that ended at `time` and gives back its reply.
pub fn record_run_at(
    store: &mut LogStore,
    time: String,
    label: String,
    report: RunReport,
    elapsed_ms: u128,
) -> (reply: ToolReply)
    ensures
        final(store)@ == old(store)@.pushed(run_record(time@, label@, report, elapsed_ms)),
        reply == report.reply,
{
    let (entry, reply) = run_entry(time, label, report, elapsed_ms);
    store.push(entry);
    reply
}

/// How a tool call ended.
pub enum CallEnd {
    /// The request was refused before anything ran (a package request
    /// naming no package); `reply` says why.
    Refused { reply: ToolReply },
    /// The snippet could not be written to its temporary file.
    WriteFailed { message: String },
    /// The program ran; `time` is when the run was logged, in RFC 3339
    /// form, and `elapsed_ms` how long the call took.
    Ran { time: String, label: String, outcome: ProcessOutcome, elapsed_ms: u128 },
}

/// The last step of every tool call: a run is reported and logged, and its
/// reply given back; a refused request or a failed write is answered with
/// an error reply and logs nothing.
pub fn finish_call(store: &mut LogStore, end: CallEnd) -> (reply: ToolReply)
    ensures
        match end {
            CallEnd::Refused { reply: r } => final(store)@ == old(store)@ && reply == r,
            CallEnd::WriteFailed { message } => {
                &&& final(store)@ == old(store)@
                &&& reply.is_error
                &&& reply.text@ == "failed to write temp file: "@ + message@
            },
            CallEnd::Ran { time, label, outcome, elapsed_ms } => exists|r: RunReport|
                {
                    &&& #[trigger] reports(outcome, r)
                    &&& final(store)@ == old(store)@.pushed(
                        run_record(time@, label@, r, elapsed_ms),
                    )
                    &&& reply == r.reply
                },
        },
{
    match end {
        CallEnd::Refused { reply } => reply,
        CallEnd::WriteFailed { message } => write_failure_reply(message.as_str()),
        CallEnd::Ran { time, label, outcome, elapsed_ms } => {
            let report = run_report(outcome);
            let ghost r = report;
            let reply = record_run_at(store, time, label, report, elapsed_ms);
            proof {
                assert(reports(outcome, r));
            }
            reply
        },
    }
}

/// Whatever became of a process, its reply is an error exactly when the
/// exit code reported is not 0; a process that could not be run to its end
/// is reported with a negative code.
pub proof fn lemma_error_iff_nonzero_exit(outcome: ProcessOutcome, r: RunReport)
    requires
        reports(outcome, r),
    ensures
        r.reply.is_error <==> r.exit_code != 0,
        !(outcome is Exited) ==> r.exit_code < 0,
{
}

/// The text of a finished run starts with everything the process printed
/// on its standard output, whatever its exit code; it ends with the line
/// `[exit code: <code>]`; what stands before that line ends with the
/// standard error; and with nothing on standard error, the output and the
/// exit code line are all there is.
pub proof fn lemma_output_text_shape(stdout: Seq<char>, stderr: Seq<char>, code: int)
    ensures
        ({
            let t = output_text(stdout, stderr, code);
            let last_line = "\n[exit code: "@ + signed_decimal(code) + "]"@;
            let body = t.take(t.len() - last_line.len());
            &&& t.len() >= stdout.len() + stderr.len() + last_line.len()
            &&& t.take(stdout.len() as int) == stdout
            &&& t.skip(t.len() - last_line.len()) == last_line
            &&& body.skip(body.len() - stderr.len()) == stderr
            &&& stderr.len() == 0 ==> t == stdout + last_line
        }),
{
    let t = output_text(stdout, stderr, code);
    let last_line = "\n[exit code: "@ + signed_decimal(code) + "]"@;
    let shown = t.take(t.len() - last_line.len());
    assert(t =~= shown + last_line);
    assert(t.skip(t.len() - last_line.len()) =~= last_line);
    let body = t.take(t.len() - last_line.len());
    assert(body =~= shown);
    assert(shown.skip(shown.len() - stderr.len()) =~= stderr);
    assert(shown.take(stdout.len() as int) =~= stdout);
    assert(t.take(stdout.len() as int) =~= shown.take(stdout.len() as int));
}

/// A report of an exited process keeps its decoded output and standard
/// error whatever the exit code, and its reply text starts with that
/// output.
pub proof fn lemma_exit_report_keeps_output(
    stdout: Vec<u8>,
    stderr: Vec<u8>,
    code: Option<i32>,
    r: RunReport,
)
    requires
        reports(ProcessOutcome::Exited { stdout, stderr, code }, r),
    ensures
        r.stdout@ == lossy_utf8(stdout@),
        r.stderr@ == lossy_utf8(stderr@),
        r.reply.text@.take(r.stdout@.len() as int) == r.stdout@,
        code == Some(0i32) ==> r.exit_code == 0 && !r.reply.is_error,
        code is None ==> r.exit_code == -1 && r.reply.is_error,
        forall|c: i32| code == Some(c) && c != 0 ==> r.exit_code == c && r.reply.is_error,
{
    lemma_output_text_shape(r.stdout@, r.stderr@, r.exit_code as int);
}

/// The log record of a run holds the run as reported: its label as the
/// command, the time given, the output and standard error unchanged for
/// every exit code, the exit code, and the duration cut to 64 bits.
pub proof fn lemma_run_record_keeps_the_run(
    time: Seq<char>,
    label: Seq<char>,
    report: RunReport,
    elapsed_ms: u128,
)
    ensures
        run_record(time, label, report, elapsed_ms).time == time,
        run_record(time, label, report, elapsed_ms).command == label,
        run_record(time, label, report, elapsed_ms).stdout == report.stdout@,
        run_record(time, label, report, elapsed_ms).stderr == report.stderr@,
        run_record(time, label, report, elapsed_ms).exit_code == report.exit_code,
        run_record(time, label, report, elapsed_ms).duration_ms as int == elapsed_ms as int
            % 0x1_0000_0000_0000_0000,
{
    assert(run_record(time, label, report, elapsed_ms).duration_ms == elapsed_ms as u64);
    assert((elapsed_ms as u64) as int == elapsed_ms as int % 0x1_0000_0000_0000_0000)
        by (bit_vector);
}

/// The time limit of a snippet is the one asked for when it is at most 120
/// seconds, 120 seconds when more is asked, and 30 seconds when none is.
pub proof fn lemma_code_timeout_clamps(t: u64)
    ensures
        t <= 120 ==> clamp_timeout(Some(t)) == t,
        t > 120 ==> clamp_timeout(Some(t)) == 120,
        clamp_timeout(None) == 30,
{
}

/// Package names that hold no space, tab, line feed, carriage return or
/// form feed reach apk exactly as given, one argument each.
pub proof fn lemma_plain_package_names_unchanged(packages: Seq<Seq<char>>)
    requires
        forall|k: int| 0 <= k < packages.len() ==> #[trigger] packages[k].len() > 0,
        forall|k: int, i: int|
            0 <= k < packages.len() && 0 <= i < packages[k].len() ==> #[trigger] packages[k][i]
                != ' ' && packages[k][i] != '\t' && packages[k][i] != '\n' && packages[k][i]
                != '\r' && packages[k][i] != '\x0C',
    ensures
        package_names(packages) == packages,
    decreases packages.len(),
{
    if packages.len() > 0 {
        let rest = packages.drop_last();
        assert forall|k: int| 0 <= k < rest.len() implies #[trigger] rest[k].len() > 0 by {
            assert(rest[k] == packages[k]);
        }
        assert forall|k: int, i: int| 0 <= k < rest.len() && 0 <= i < rest[k].len() implies #[trigger] rest[k][i]
            != ' ' && rest[k][i] != '\t' && rest[k][i] != '\n' && rest[k][i] != '\r' && rest[k][i]
            != '\x0C' by {
            assert(rest[k] == packages[k]);
        }
        lemma_plain_package_names_unchanged(rest);
        let last = packages.last();
        assert forall|i: int| 0 <= i < last.len() implies #[trigger] last[i] != ' ' && last[i]
            != '\t' && last[i] != '\n' && last[i] != '\r' && last[i] != '\x0C' by {
            assert(last[i] == packages[packages.len() - 1][i]);
        }
        lemma_words_of_plain_text(last);
        assert(rest + seq![last] =~= packages);
    }
}

/// A process that could not be started is reported with exit code -3, one
/// whose run or output collection failed with -2, one that ran out of time
/// with -4 and the message `timeout after <seconds>s`; each time with no
/// output, the message as standard error, and the message as an error reply.
pub proof fn lemma_failure_reports(outcome: ProcessOutcome, r: RunReport)
    requires
        reports(outcome, r),
    ensures
        outcome matches ProcessOutcome::SpawnFailed { message } ==> {
            &&& r.exit_code == -3
            &&& r.stdout@.len() == 0
            &&& r.stderr@ == message@
            &&& r.reply.is_error
            &&& r.reply.text@ == message@
        },
        outcome matches ProcessOutcome::CollectFailed { message } ==> {
            &&& r.exit_code == -2
            &&& r.stdout@.len() == 0
            &&& r.stderr@ == message@
            &&& r.reply.is_error
            &&& r.reply.text@ == message@
        },
        outcome matches ProcessOutcome::TimedOut { seconds } ==> {
            &&& r.exit_code == -4
            &&& r.stdout@.len() == 0
            &&& r.stderr@ == "timeout after "@ + decimal(seconds as nat) + "s"@
            &&& r.reply.is_error
            &&& r.reply.text@ == r.stderr@
        },
{
}

} // verus!
