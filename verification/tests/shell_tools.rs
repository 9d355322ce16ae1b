use mcp_alpine::log::LogStore;
use mcp_alpine::shell::{
    apk_install_plan, apk_list_installed_plan, apk_remove_plan, apk_search_plan,
    apk_update_plan, code_timeout, execute_command_plan, execute_script_plan, exited_report,
    finish_call, node_temp_path, python_temp_path, record_run_at, run_node_plan,
    run_python_plan, run_report, split_package_names, summarize_output, timeout_text,
    write_failure_reply, CallEnd, CodeRequest, CommandRequest, PkgRequest, PkgSearchRequest,
    ProcessOutcome, RunMode, ScriptRequest, ToolReply,
};

fn strings(v: &[&str]) -> Vec<String> {
    v.iter().map(|s| s.to_string()).collect()
}

#[test]
fn command_plan_runs_sh_dash_c() {
    let req = CommandRequest { command: "ls -la".to_string(), cwd: Some("/tmp".to_string()) };
    let plan = execute_command_plan(&req);
    assert_eq!(plan.invocation.program, "/bin/sh");
    assert_eq!(plan.invocation.args, strings(&["-c", "ls -la"]));
    assert_eq!(plan.invocation.cwd, Some("/tmp".to_string()));
    assert_eq!(plan.invocation.stdin, None);
    assert_eq!(plan.invocation.timeout_secs, None);
    assert!(plan.invocation.mode == RunMode::Output);
    assert_eq!(plan.label, "ls -la");
}

#[test]
fn script_plan_feeds_the_script_on_stdin() {
    let req = ScriptRequest { script: "echo a\necho b\n".to_string(), cwd: None };
    let plan = execute_script_plan(&req);
    assert_eq!(plan.invocation.program, "/bin/sh");
    assert!(plan.invocation.args.is_empty());
    assert_eq!(plan.invocation.cwd, None);
    assert_eq!(plan.invocation.stdin, Some("echo a\necho b\n".to_string()));
    assert_eq!(plan.invocation.timeout_secs, None);
    assert!(plan.invocation.mode == RunMode::Spawn);
    assert_eq!(plan.label, "echo a\necho b\n");
}

#[test]
fn code_timeout_defaults_and_caps() {
    assert_eq!(code_timeout(None), 30);
    assert_eq!(code_timeout(Some(5)), 5);
    assert_eq!(code_timeout(Some(120)), 120);
    assert_eq!(code_timeout(Some(121)), 120);
    assert_eq!(code_timeout(Some(u64::MAX)), 120);
}

#[test]
fn temp_paths_name_pid_and_stamp() {
    assert_eq!(python_temp_path(42, 17), "/tmp/mcp_py_42000017.py");
    assert_eq!(node_temp_path(7, 0), "/tmp/mcp_js_7000000.mjs");
    assert_eq!(python_temp_path(0, 5), "/tmp/mcp_py_5.py");
}

#[test]
fn python_plan_runs_unbuffered_python() {
    let req = CodeRequest { code: "print(1)".to_string(), cwd: None, timeout: Some(500) };
    let plan = run_python_plan(&req, "/tmp/mcp_py_1.py");
    assert_eq!(plan.invocation.program, "python3");
    assert_eq!(plan.invocation.args, strings(&["-u", "/tmp/mcp_py_1.py"]));
    assert_eq!(plan.invocation.timeout_secs, Some(120));
    assert!(plan.invocation.mode == RunMode::Spawn);
    assert_eq!(plan.label, "[python]\nprint(1)");
}

#[test]
fn node_plan_runs_node() {
    let req = CodeRequest {
        code: "console.log(1)".to_string(),
        cwd: Some("/srv".to_string()),
        timeout: None,
    };
    let plan = run_node_plan(&req, "/tmp/mcp_js_1.mjs");
    assert_eq!(plan.invocation.program, "node");
    assert_eq!(plan.invocation.args, strings(&["/tmp/mcp_js_1.mjs"]));
    assert_eq!(plan.invocation.cwd, Some("/srv".to_string()));
    assert_eq!(plan.invocation.timeout_secs, Some(30));
    assert_eq!(plan.label, "[node]\nconsole.log(1)");
}

#[test]
fn write_failure_is_an_error_reply() {
    let r = write_failure_reply("disk full");
    assert!(r.is_error);
    assert_eq!(r.text, "failed to write temp file: disk full");
}

#[test]
fn apk_install_refuses_an_empty_list() {
    let r = apk_install_plan(&PkgRequest { packages: vec![] });
    match r {
        Err(reply) => {
            assert!(reply.is_error);
            assert_eq!(reply.text, "packages list is empty");
        }
        Ok(_) => panic!("an empty package list must be refused"),
    }
    assert!(apk_remove_plan(&PkgRequest { packages: vec![] }).is_err());
    assert!(apk_install_plan(&PkgRequest { packages: strings(&["  ", "\t\n"]) }).is_err());
}

#[test]
fn apk_install_plan_adds_the_packages() {
    let plan = apk_install_plan(&PkgRequest { packages: strings(&["curl", "git"]) }).ok().unwrap();
    assert_eq!(plan.invocation.program, "apk");
    assert_eq!(plan.invocation.args, strings(&["add", "--update-cache", "curl", "git"]));
    assert_eq!(plan.invocation.timeout_secs, Some(300));
    assert_eq!(plan.label, "[apk install] curl git");
}

#[test]
fn apk_install_splits_space_separated_names() {
    let plan =
        apk_install_plan(&PkgRequest { packages: strings(&["curl git", " vim\tjq ", "htop"]) })
            .ok()
            .unwrap();
    assert_eq!(
        plan.invocation.args,
        strings(&["add", "--update-cache", "curl", "git", "vim", "jq", "htop"])
    );
    assert_eq!(plan.label, "[apk install] curl git  vim\tjq  htop");
}

#[test]
fn package_names_split_at_blanks() {
    assert_eq!(split_package_names(&strings(&["curl git"])), strings(&["curl", "git"]));
    assert_eq!(split_package_names(&strings(&["  a  b  ", "", "c"])), strings(&["a", "b", "c"]));
    assert_eq!(split_package_names(&strings(&["py3-pip"])), strings(&["py3-pip"]));
    assert!(split_package_names(&strings(&[" \r\n\x0c "])).is_empty());
    assert_eq!(split_package_names(&strings(&["héllo wörld"])), strings(&["héllo", "wörld"]));
}

#[test]
fn apk_remove_plan_deletes_the_packages() {
    let plan = apk_remove_plan(&PkgRequest { packages: strings(&["vim nano"]) }).ok().unwrap();
    assert_eq!(plan.invocation.args, strings(&["del", "vim", "nano"]));
    assert_eq!(plan.invocation.timeout_secs, Some(120));
    assert_eq!(plan.label, "[apk remove] vim nano");
    let spaced = apk_remove_plan(&PkgRequest { packages: strings(&["curl", "", "git"]) }).ok().unwrap();
    assert_eq!(spaced.invocation.args, strings(&["del", "curl", "git"]));
    assert_eq!(spaced.label, "[apk remove] curl  git");
}

#[test]
fn apk_query_plans() {
    let search = apk_search_plan(&PkgSearchRequest { keyword: "python3".to_string() });
    assert_eq!(search.invocation.args, strings(&["search", "-v", "python3"]));
    assert_eq!(search.invocation.timeout_secs, Some(30));
    assert_eq!(search.label, "[apk search] python3");

    let list = apk_list_installed_plan();
    assert_eq!(list.invocation.args, strings(&["info", "-v"]));
    assert_eq!(list.invocation.timeout_secs, Some(30));
    assert_eq!(list.label, "[apk list-installed]");

    let update = apk_update_plan();
    assert_eq!(update.invocation.args, strings(&["update"]));
    assert_eq!(update.invocation.timeout_secs, Some(120));
    assert_eq!(update.label, "[apk update]");
}

#[test]
fn summary_shapes() {
    assert_eq!(summarize_output("hi\n", "", 0), "hi\n\n[exit code: 0]");
    assert_eq!(summarize_output("", "oops", 2), "[stderr]\noops\n[exit code: 2]");
    assert_eq!(summarize_output("a", "b", -1), "a\n[stderr]\nb\n[exit code: -1]");
    assert_eq!(summarize_output("", "", 0), "\n[exit code: 0]");
}

#[test]
fn exit_zero_is_success_and_other_codes_are_errors() {
    let ok = exited_report("x".to_string(), String::new(), Some(0));
    assert!(!ok.reply.is_error);
    assert_eq!(ok.exit_code, 0);
    let bad = exited_report(String::new(), "e".to_string(), Some(3));
    assert!(bad.reply.is_error);
    assert_eq!(bad.exit_code, 3);
    let killed = exited_report(String::new(), String::new(), None);
    assert!(killed.reply.is_error);
    assert_eq!(killed.exit_code, -1);
    assert_eq!(killed.reply.text, "\n[exit code: -1]");
}

#[test]
fn report_decodes_output_lossily() {
    let r = run_report(ProcessOutcome::Exited {
        stdout: "héllo".as_bytes().to_vec(),
        stderr: vec![0x66, 0xff, 0x67],
        code: Some(0),
    });
    assert_eq!(r.stdout, "héllo");
    assert_eq!(r.stderr, "f\u{FFFD}g");
    assert_eq!(r.exit_code, 0);
    assert!(!r.reply.is_error);
    assert_eq!(r.reply.text, "héllo\n[stderr]\nf\u{FFFD}g\n[exit code: 0]");
}

#[test]
fn report_failure_codes() {
    let spawn = run_report(ProcessOutcome::SpawnFailed { message: "no such file".to_string() });
    assert_eq!(spawn.exit_code, -3);
    assert_eq!(spawn.stdout, "");
    assert_eq!(spawn.stderr, "no such file");
    assert!(spawn.reply.is_error);
    assert_eq!(spawn.reply.text, "no such file");

    let collect = run_report(ProcessOutcome::CollectFailed { message: "broken".to_string() });
    assert_eq!(collect.exit_code, -2);
    assert_eq!(collect.stderr, "broken");
    assert!(collect.reply.is_error);

    let late = run_report(ProcessOutcome::TimedOut { seconds: 30 });
    assert_eq!(late.exit_code, -4);
    assert_eq!(late.stderr, "timeout after 30s");
    assert_eq!(late.reply.text, "timeout after 30s");
    assert!(late.reply.is_error);
}

#[test]
fn error_flag_follows_the_exit_code() {
    let outcomes = vec![
        ProcessOutcome::Exited { stdout: vec![], stderr: vec![], code: Some(0) },
        ProcessOutcome::Exited { stdout: vec![], stderr: vec![], code: Some(1) },
        ProcessOutcome::Exited { stdout: vec![], stderr: vec![], code: None },
        ProcessOutcome::SpawnFailed { message: "m".to_string() },
        ProcessOutcome::CollectFailed { message: "m".to_string() },
        ProcessOutcome::TimedOut { seconds: 1 },
    ];
    for o in outcomes {
        let r = run_report(o);
        assert_eq!(r.reply.is_error, r.exit_code != 0);
    }
}

#[test]
fn timeout_text_renders_seconds() {
    assert_eq!(timeout_text(120), "timeout after 120s");
}

#[test]
fn recording_at_a_time_logs_the_run() {
    let mut store = LogStore::new();
    let report = exited_report("out".to_string(), "err".to_string(), Some(1));
    let reply = record_run_at(
        &mut store,
        "2024-05-01T10:00:00+00:00".to_string(),
        "[apk update]".to_string(),
        report,
        1234,
    );
    assert!(reply.is_error);
    assert_eq!(reply.text, "out\n[stderr]\nerr\n[exit code: 1]");
    let all = store.all();
    assert_eq!(all.len(), 1);
    assert_eq!(all[0].id, 1);
    assert_eq!(all[0].time, "2024-05-01T10:00:00+00:00");
    assert_eq!(all[0].command, "[apk update]");
    assert_eq!(all[0].stdout, "out");
    assert_eq!(all[0].stderr, "err");
    assert_eq!(all[0].exit_code, 1);
    assert_eq!(all[0].duration_ms, 1234);
}

#[test]
fn recording_cuts_the_duration_to_64_bits() {
    let mut store = LogStore::new();
    let report = run_report(ProcessOutcome::TimedOut { seconds: 2 });
    record_run_at(&mut store, String::new(), "x".to_string(), report, (1u128 << 64) + 9);
    assert_eq!(store.all()[0].duration_ms, 9);
}

#[test]
fn finishing_a_run_logs_it() {
    let mut store = LogStore::new();
    let reply = finish_call(
        &mut store,
        CallEnd::Ran {
            time: "2024-05-01T10:00:00+00:00".to_string(),
            label: "[apk list-installed]".to_string(),
            outcome: ProcessOutcome::SpawnFailed { message: "gone".to_string() },
            elapsed_ms: 7,
        },
    );
    assert!(reply.is_error);
    assert_eq!(reply.text, "gone");
    let all = store.all();
    assert_eq!(all.len(), 1);
    assert_eq!(all[0].time, "2024-05-01T10:00:00+00:00");
    assert_eq!(all[0].command, "[apk list-installed]");
    assert_eq!(all[0].exit_code, -3);
    assert_eq!(all[0].stderr, "gone");
    assert_eq!(all[0].duration_ms, 7);
}

#[test]
fn refused_calls_and_failed_writes_log_nothing() {
    let mut store = LogStore::new();
    let refused = apk_install_plan(&PkgRequest { packages: vec![] }).err().unwrap();
    let reply = finish_call(&mut store, CallEnd::Refused { reply: refused });
    assert!(reply.is_error);
    assert_eq!(reply.text, "packages list is empty");
    let reply = finish_call(&mut store, CallEnd::WriteFailed { message: "read-only".to_string() });
    assert!(reply.is_error);
    assert_eq!(reply.text, "failed to write temp file: read-only");
    let reply = finish_call(
        &mut store,
        CallEnd::Refused { reply: ToolReply { is_error: false, text: "fine".to_string() } },
    );
    assert!(!reply.is_error);
    assert_eq!(reply.text, "fine");
    assert!(store.all().is_empty());
}
