use phpcs_lsp_server::command::{
    build_tool_command, diagnostics_of_run, is_config_rejected, looks_like_file, phpcbf_arguments, phpcbf_output,
    phpcs_arguments, phpcs_output, run_next, standard_to_use, RunAction, RunEvent, ToolError,
    ToolOutcome,
};
use phpcs_lsp_server::config::{
    choose_root, config_file_names, find_config, find_fallback, is_project_config,
};
use phpcs_lsp_server::json::parse_json;
use phpcs_lsp_server::tools::PhpTool;

fn finished(exit_code: Option<i32>, stdout: &[u8]) -> ToolOutcome {
    ToolOutcome::Finished {
        exit_code,
        stdout: stdout.to_vec(),
    }
}

#[test]
fn linting_has_its_arguments() {
    assert_eq!(
        phpcs_arguments(Some("PSR12"), Some("/p/a.php")),
        vec![
            "--report=json",
            "--no-colors",
            "-q",
            "--standard=PSR12",
            "--stdin-path=/p/a.php",
            "-"
        ]
    );
    assert_eq!(
        phpcs_arguments(None, None),
        vec!["--report=json", "--no-colors", "-q", "-"]
    );
}

#[test]
fn fixing_has_its_arguments() {
    assert_eq!(
        phpcbf_arguments(Some("PSR12"), Some("A.B.C"), Some("/p/a.php")),
        vec![
            "--no-colors",
            "-q",
            "--standard=PSR12",
            "--sniffs=A.B.C",
            "--stdin-path=/p/a.php",
            "-"
        ]
    );
    assert_eq!(phpcbf_arguments(None, None, None), vec!["--no-colors", "-q", "-"]);
}

#[test]
fn missing_files_are_no_standard() {
    assert!(looks_like_file("/etc/phpcs"));
    assert!(looks_like_file("./rules"));
    assert!(looks_like_file("rules.xml"));
    assert!(!looks_like_file("PSR12,Squiz"));
    assert!(!looks_like_file(""));
    assert_eq!(standard_to_use(Some("rules.xml"), false), None);
    assert_eq!(standard_to_use(Some("rules.xml"), true), Some("rules.xml"));
    assert_eq!(standard_to_use(Some("PSR12"), false), Some("PSR12"));
    assert_eq!(standard_to_use(None, false), None);
}

#[test]
fn commands_run_the_tool_with_its_arguments() {
    let args = vec!["-q".to_string(), "-".to_string()];
    let unix = build_tool_command("/bin/phpcs", false, args.clone());
    assert_eq!(unix.program, "/bin/phpcs");
    assert_eq!(unix.args, vec!["-q", "-"]);
    let windows = build_tool_command(r"C:\p\vendor\bin\phpcs", true, args);
    assert_eq!(windows.program, "php");
    assert_eq!(windows.args, vec![r"C:\p\vendor\bin\phpcs", "-q", "-"]);
}

#[test]
fn lint_runs_take_their_course() {
    assert!(matches!(
        run_next(PhpTool::Phpcs, RunEvent::Started(true)),
        RunAction::Write(Some(5))
    ));
    assert!(matches!(
        run_next(PhpTool::Phpcs, RunEvent::Written),
        RunAction::Wait(10)
    ));
    assert!(matches!(
        run_next(PhpTool::Phpcs, RunEvent::Finished { exit_code: Some(2), stdout: vec![7] }),
        RunAction::End(ToolOutcome::Finished { exit_code: Some(2), stdout }) if stdout == vec![7]
    ));
    assert!(matches!(
        run_next(PhpTool::Phpcs, RunEvent::Started(false)),
        RunAction::End(ToolOutcome::NotStarted)
    ));
    assert!(matches!(
        run_next(PhpTool::Phpcs, RunEvent::WriteFailed),
        RunAction::Kill(ToolOutcome::NotWritten)
    ));
    assert!(matches!(
        run_next(PhpTool::Phpcs, RunEvent::WriteTimedOut),
        RunAction::Kill(ToolOutcome::WriteTimedOut)
    ));
    assert!(matches!(
        run_next(PhpTool::Phpcs, RunEvent::WaitFailed),
        RunAction::End(ToolOutcome::Failed)
    ));
    assert!(matches!(
        run_next(PhpTool::Phpcs, RunEvent::WaitTimedOut),
        RunAction::Kill(ToolOutcome::TimedOut)
    ));
}

#[test]
fn fix_runs_have_more_time() {
    assert!(matches!(
        run_next(PhpTool::Phpcbf, RunEvent::Started(true)),
        RunAction::Write(None)
    ));
    assert!(matches!(
        run_next(PhpTool::Phpcbf, RunEvent::Written),
        RunAction::Wait(30)
    ));
}

#[test]
fn lint_output_is_read_whatever_the_exit_code() {
    assert_eq!(phpcs_output(&finished(Some(2), b"ok")), Ok("ok".to_string()));
    assert_eq!(
        phpcs_output(&finished(None, &[0x61, 0xff, 0x62])),
        Ok("a\u{fffd}b".to_string())
    );
    assert_eq!(phpcs_output(&ToolOutcome::NotStarted), Err(ToolError::NotStarted));
    assert_eq!(phpcs_output(&ToolOutcome::NotWritten), Err(ToolError::NotWritten));
    assert_eq!(
        phpcs_output(&ToolOutcome::WriteTimedOut),
        Err(ToolError::WriteTimedOut)
    );
    assert_eq!(phpcs_output(&ToolOutcome::Failed), Err(ToolError::Failed));
    assert_eq!(phpcs_output(&ToolOutcome::TimedOut), Err(ToolError::TimedOut));
}

#[test]
fn fix_output_goes_by_the_exit_code() {
    for code in [Some(0), Some(1), Some(2), None] {
        assert_eq!(phpcbf_output(finished(code, b"x")), Ok("x".to_string()));
    }
    assert_eq!(
        phpcbf_output(finished(Some(3), b"x")),
        Err(ToolError::ExitCode(3))
    );
    assert_eq!(
        phpcbf_output(finished(Some(0), &[0xff])),
        Err(ToolError::InvalidUtf8)
    );
    assert_eq!(phpcbf_output(ToolOutcome::TimedOut), Err(ToolError::TimedOut));
    assert_eq!(phpcbf_output(ToolOutcome::NotStarted), Err(ToolError::NotStarted));
    assert_eq!(phpcbf_output(ToolOutcome::NotWritten), Err(ToolError::NotWritten));
    assert_eq!(
        phpcbf_output(ToolOutcome::WriteTimedOut),
        Err(ToolError::WriteTimedOut)
    );
    assert_eq!(phpcbf_output(ToolOutcome::Failed), Err(ToolError::Failed));
}

#[test]
fn runs_without_a_result_have_no_findings() {
    assert_eq!(
        diagnostics_of_run(&ToolOutcome::TimedOut, None, "u").map(|v| v.len()),
        Err(ToolError::TimedOut)
    );
    assert_eq!(
        diagnostics_of_run(&finished(Some(0), b""), None, "u").map(|v| v.len()),
        Ok(0)
    );
}

#[test]
fn configuration_errors_are_told_from_reports() {
    let report = parse_json(r#"{"totals": {}, "files": {}}"#);
    let error = "ERROR: the \"Nope\" coding standard is not installed.";
    assert!(is_config_rejected(Some(3), error, &None));
    assert!(is_config_rejected(Some(16), error, &parse_json("[]")));
    assert!(!is_config_rejected(Some(3), error, &report));
    assert!(!is_config_rejected(Some(2), error, &None));
    assert!(!is_config_rejected(None, error, &None));
    assert!(!is_config_rejected(Some(255), "PHP Fatal error:  out of memory", &None));
    assert!(!is_config_rejected(Some(255), "", &None));
}

#[test]
fn fallbacks_count_less() {
    let paths = vec![Some("a".to_string()), None, Some("b".to_string())];
    assert_eq!(find_fallback(&paths, "x").as_deref(), Some("a"));
    assert_eq!(find_fallback(&paths, "a").as_deref(), Some("b"));
    assert_eq!(find_fallback(&paths, "b"), None);
}

#[test]
fn configuration_files_are_known_by_name() {
    for (root, path) in [
        ("/p", "/p/.phpcs.xml"),
        ("/p/", "/p/phpcs.xml"),
        (r"C:\p", r"C:\p\phpcs.xml.dist"),
        ("/p", "/p/.phpcs.xml.dist"),
    ] {
        assert!(is_project_config(Some(root), path), "{path}");
        assert!(!is_project_config(None, path), "{path}");
    }
    for path in ["PSR12", "/p/my-phpcs.xml", "/etc/phpcs.xml", "/p/q/phpcs.xml", "/pphpcs.xml", ""] {
        assert!(!is_project_config(Some("/p"), path), "{path}");
    }
}

#[test]
fn root_follows_the_folders() {
    let p = vec!["file:///p".to_string()];
    let q = vec!["file:///q".to_string(), "file:///r".to_string()];
    let none: Vec<String> = Vec::new();
    assert_eq!(choose_root(Some("file:///p"), &p, &q).as_deref(), Some("file:///q"));
    assert_eq!(choose_root(Some("file:///p"), &none, &q).as_deref(), Some("file:///p"));
    assert_eq!(choose_root(Some("file:///p"), &p, &none), None);
    assert_eq!(choose_root(None, &none, &q).as_deref(), Some("file:///q"));
}

#[test]
fn first_config_file_counts() {
    assert_eq!(
        config_file_names(),
        vec![".phpcs.xml", "phpcs.xml", ".phpcs.xml.dist", "phpcs.xml.dist"]
    );
    let paths = vec![None, Some("/p/phpcs.xml".to_string()), Some("/p/x".to_string())];
    assert_eq!(find_config(&paths), Some("/p/phpcs.xml".to_string()));
    assert_eq!(find_config(&vec![None, None]), None);
}
