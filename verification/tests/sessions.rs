use phpcs_lsp_server::actions::{
    is_fix_all_request, offer_actions, plan_runs, ActionKind, CursorDiagnostic, DiagnosticCode,
    FixRun,
};
use phpcs_lsp_server::command::{ToolError, ToolOutcome};
use phpcs_lsp_server::document::CompressedDocument;
use phpcs_lsp_server::json::parse_json;
use phpcs_lsp_server::range::make_range;
use phpcs_lsp_server::server::{
    ActionStep, ClientOptions, DiagnosticStep, InitializationOptions, PhpcsLanguageServer,
    PhpcsSettings, Report,
};
use phpcs_lsp_server::tools::{DetectStep, PhpTool, Place, Places};

const A: &str = "file:///p/a.php";
const B: &str = "file:///p/b.php";

const REPORT: &str = r#"{"files": {"a.php": {"messages": [
    {"message": "Expected 1 space", "source": "Squiz.A.B.C", "severity": 5,
     "fixable": true, "type": "ERROR", "line": 2, "column": 1}]}}}"#;

fn report() -> ToolOutcome {
    ToolOutcome::Finished {
        exit_code: Some(1),
        stdout: REPORT.as_bytes().to_vec(),
    }
}

fn size(text: &str) -> usize {
    CompressedDocument::compress_document(text).compressed_size()
}

fn checksum(text: &str) -> String {
    CompressedDocument::compress_document(text).checksum().to_string()
}

fn nowhere() -> Places<'static> {
    Places {
        vendor_bin: None,
        environment: None,
        system: None,
        bundled: None,
    }
}

fn linted(text: &str) -> PhpcsLanguageServer {
    let mut server = PhpcsLanguageServer::new();
    server.did_open(A, text);
    server.diagnostic_linted(A, &checksum(text), &report());
    server
}

fn cursor(code: Option<DiagnosticCode>, source: &str, fixable: bool) -> CursorDiagnostic {
    CursorDiagnostic {
        range: make_range(1, 0, 1),
        source: Some(source.to_string()),
        code,
        data: parse_json(if fixable {
            r#"{"fixable": true}"#
        } else {
            r#"{"fixable": false}"#
        }),
    }
}

fn code(s: &str) -> Option<DiagnosticCode> {
    Some(DiagnosticCode::Text(s.to_string()))
}

#[test]
fn texts_are_read_back_and_counted() {
    let mut server = PhpcsLanguageServer::new();
    assert_eq!(server.memory_usage(), 0);
    server.did_open(A, "<?php\n");
    server.did_open(B, "other");
    assert_eq!(server.document_content(A), Some("<?php\n".to_string()));
    assert_eq!(server.memory_usage(), size("<?php\n") + size("other"));
    server.did_change(A, &vec!["<?php 1;".to_string(), "ignored".to_string()]);
    assert_eq!(server.document_content(A), Some("<?php 1;".to_string()));
    assert_eq!(server.document_content(B), Some("other".to_string()));
    assert_eq!(server.memory_usage(), size("<?php 1;") + size("other"));
    server.did_change(A, &vec![]);
    assert_eq!(server.document_content(A), Some("<?php 1;".to_string()));
    server.did_close(A);
    assert_eq!(server.document_content(A), None);
    assert_eq!(server.memory_usage(), size("other"));
    server.did_close(A);
    assert_eq!(server.memory_usage(), size("other"));
    server.shutdown();
    assert_eq!(server.memory_usage(), 0);
    assert_eq!(server.document_content(B), None);
}

#[test]
fn open_documents_are_linted_once() {
    let mut server = PhpcsLanguageServer::new();
    server.did_open(A, "<?php\nx\n");
    let DiagnosticStep::Lint { content, result_id } = server.diagnostic(A, true, None) else {
        panic!("not linted");
    };
    assert_eq!(content, "<?php\nx\n");
    assert_eq!(result_id, checksum("<?php\nx\n"));
    let Report::Full { result_id: told, items } = server.diagnostic_linted(A, &result_id, &report())
    else {
        panic!("no report");
    };
    assert_eq!(told, Some(result_id.clone()));
    assert_eq!(items.len(), 1);
    assert_eq!(items[0].range.start.line, 1);
    assert_eq!(items[0].range.end.character, 1);
    assert!(matches!(
        server.diagnostic(A, true, Some(&result_id)),
        DiagnosticStep::Reply(Report::Unchanged(id)) if id == result_id
    ));
    assert!(matches!(
        server.diagnostic(A, true, Some("other")),
        DiagnosticStep::Reply(Report::Full { result_id: Some(id), items })
            if id == result_id && items.len() == 1
    ));
}

#[test]
fn findings_are_forgotten_with_the_text() {
    let mut changed = linted("<?php\nx\n");
    changed.did_change(A, &vec!["<?php\ny\n".to_string()]);
    assert!(matches!(
        changed.diagnostic(A, true, Some(&checksum("<?php\nx\n"))),
        DiagnosticStep::Lint { .. }
    ));
    let mut opened = linted("<?php\nx\n");
    opened.did_open(A, "<?php\nx\n");
    assert!(matches!(opened.diagnostic(A, true, None), DiagnosticStep::Lint { .. }));
    let mut closed = linted("<?php\nx\n");
    closed.did_close(A);
    assert!(matches!(closed.diagnostic(A, true, None), DiagnosticStep::ReadFile));
    let mut moved = linted("<?php\nx\n");
    moved.did_change_workspace_folders(&vec![]);
    assert!(matches!(moved.diagnostic(A, true, None), DiagnosticStep::Lint { .. }));
    let mut configured = linted("<?php\nx\n");
    configured.did_change_configuration(&parse_json("{}").unwrap(), &None);
    assert!(matches!(configured.diagnostic(A, true, None), DiagnosticStep::Lint { .. }));
}

#[test]
fn closed_documents_are_read_from_disk() {
    let mut server = PhpcsLanguageServer::new();
    assert!(matches!(server.diagnostic(A, true, None), DiagnosticStep::ReadFile));
    assert!(matches!(
        server.diagnostic_loaded(A, None),
        DiagnosticStep::Reply(Report::Full { result_id: None, items }) if items.is_empty()
    ));
    assert!(matches!(
        server.diagnostic_loaded(A, Some("text")),
        DiagnosticStep::Lint { content, result_id }
            if content == "text" && result_id == checksum("text")
    ));
    assert_eq!(server.document_content(A), Some("text".to_string()));
    assert_eq!(server.memory_usage(), size("text"));
}

#[test]
fn failed_runs_and_other_documents_have_no_findings() {
    let mut server = PhpcsLanguageServer::new();
    server.did_open(A, "x");
    assert!(matches!(
        server.diagnostic(A, false, None),
        DiagnosticStep::Reply(Report::Full { result_id: None, items }) if items.is_empty()
    ));
    assert!(matches!(
        server.diagnostic_linted(A, "id", &ToolOutcome::TimedOut),
        Report::Full { result_id: None, items } if items.is_empty()
    ));
    assert!(matches!(server.diagnostic(A, true, Some("id")), DiagnosticStep::Lint { .. }));
}

#[test]
fn messages_are_placed_in_the_open_document() {
    let mut server = PhpcsLanguageServer::new();
    server.did_open(A, "<?php\n  name();\n");
    let m = parse_json(
        r#"{"message": "m", "source": "", "fixable": false, "type": "ERROR", "line": 2, "column": 4}"#,
    )
    .unwrap();
    let here = server.convert_message_to_diagnostic(&m, A).unwrap();
    assert_eq!((here.range.start.character, here.range.end.character), (2, 6));
    let elsewhere = server.convert_message_to_diagnostic(&m, B).unwrap();
    assert_eq!((elsewhere.range.start.character, elsewhere.range.end.character), (3, 4));
    assert_eq!(server.parse_phpcs_output(REPORT, A).len(), 1);
}

#[test]
fn clients_start_the_server() {
    let config = vec![None, Some("/p/phpcs.xml".to_string()), None, None];
    let mut absent = PhpcsLanguageServer::new();
    absent.initialize(Some("/p"), &ClientOptions::Absent, &config);
    assert_eq!(absent.workspace_root(), Some("/p"));
    assert_eq!(absent.standard(), Some("/p/phpcs.xml"));
    let mut invalid = PhpcsLanguageServer::new();
    invalid.initialize(Some("/p"), &ClientOptions::Invalid, &config);
    assert_eq!(invalid.workspace_root(), Some("/p"));
    assert_eq!(invalid.standard(), None);
    let mut given = PhpcsLanguageServer::new();
    assert_eq!(given.workspace_root(), None);
    given.initialize(
        None,
        &ClientOptions::Given(InitializationOptions {
            standard: Some("PSR12".to_string()),
            phpcs_path: Some("/my/phpcs".to_string()),
            phpcbf_path: None,
        }),
        &config,
    );
    assert_eq!(given.standard(), Some("PSR12"));
    assert!(matches!(given.search_tool(PhpTool::Phpcs), DetectStep::Found(p) if p == "/my/phpcs"));
    assert!(matches!(
        given.search_tool(PhpTool::Phpcbf),
        DetectStep::Look(Place::VendorBin)
    ));
}

#[test]
fn tools_are_searched_once() {
    let mut server = PhpcsLanguageServer::new();
    let places = Places {
        vendor_bin: Some("/p/vendor/bin/phpcs"),
        ..nowhere()
    };
    assert_eq!(server.get_tool_path(PhpTool::Phpcs, &places), "/p/vendor/bin/phpcs");
    assert_eq!(server.get_tool_path(PhpTool::Phpcs, &nowhere()), "/p/vendor/bin/phpcs");
    assert_eq!(server.get_tool_path(PhpTool::Phpcbf, &nowhere()), "phpcbf");
    server.store_tool_path(PhpTool::Phpcbf, "/b");
    assert_eq!(server.get_tool_path(PhpTool::Phpcbf, &places), "/b");
    server.did_change_workspace_folders(&vec![]);
    assert_eq!(server.get_tool_path(PhpTool::Phpcs, &nowhere()), "phpcs");
    assert_eq!(server.get_tool_path(PhpTool::Phpcbf, &nowhere()), "phpcbf");
}

#[test]
fn switching_projects_rediscovers_the_configuration() {
    let mut server = PhpcsLanguageServer::new();
    server.initialize(
        Some("/p"),
        &ClientOptions::Given(InitializationOptions {
            standard: Some("/p/phpcs.xml".to_string()),
            phpcs_path: Some("/my/phpcs".to_string()),
            phpcbf_path: None,
        }),
        &vec![],
    );
    server.did_open(A, "x");
    server.did_change_workspace_folders(&vec![None, Some("/q/phpcs.xml".to_string()), None, None]);
    assert_eq!(server.standard(), Some("/q/phpcs.xml"));
    let lint = server.prepare_lint("phpcs", false, true, &vec![], Some("/q/a.php"));
    assert_eq!(lint.command.args[3], "--standard=/q/phpcs.xml");
    assert_eq!(lint.standard.as_deref(), Some("/q/phpcs.xml"));
    assert_eq!(server.document_content(A), Some("x".to_string()));
    assert!(matches!(server.search_tool(PhpTool::Phpcs), DetectStep::Found(p) if p == "/my/phpcs"));
    server.did_change_workspace_folders(&vec![None, None, None, None]);
    assert_eq!(server.standard(), None);
}

#[test]
fn standards_of_the_user_outlast_a_project() {
    let mut server = PhpcsLanguageServer::new();
    server.initialize(
        Some("/p"),
        &ClientOptions::Given(InitializationOptions {
            standard: Some("PSR12".to_string()),
            phpcs_path: None,
            phpcbf_path: None,
        }),
        &vec![],
    );
    server.did_change_workspace_folders(&vec![Some("/q/.phpcs.xml".to_string())]);
    assert_eq!(server.standard(), Some("/q/.phpcs.xml"));
    server.did_change_workspace_folders(&vec![]);
    assert_eq!(server.standard(), Some("PSR12"));
    server.did_change_configuration(&parse_json(r#"{"standard": "Squiz"}"#).unwrap(), &None);
    server.did_change_workspace_folders(&vec![]);
    assert_eq!(server.standard(), Some("Squiz"));
}

#[test]
fn files_outside_the_project_belong_to_the_user() {
    let mut server = PhpcsLanguageServer::new();
    server.initialize(
        Some("/p"),
        &ClientOptions::Given(InitializationOptions {
            standard: Some("/etc/phpcs.xml".to_string()),
            phpcs_path: None,
            phpcbf_path: None,
        }),
        &vec![],
    );
    server.did_change_workspace_folders(&vec![None, None, None, None]);
    assert_eq!(server.standard(), Some("/etc/phpcs.xml"));
}

#[test]
fn root_follows_the_client() {
    let mut server = PhpcsLanguageServer::new();
    server.initialize(Some("/p"), &ClientOptions::Absent, &vec![]);
    server.did_open(A, "x");
    server.change_folders(&vec![], &vec!["/q".to_string()]);
    assert_eq!(server.workspace_root(), Some("/p"));
    server.change_folders(&vec!["/p".to_string()], &vec!["/q".to_string()]);
    assert_eq!(server.workspace_root(), Some("/q"));
    server.change_folders(&vec!["/q".to_string()], &vec![]);
    assert_eq!(server.workspace_root(), None);
    assert_eq!(server.document_content(A), Some("x".to_string()));
    server.initialize(None, &ClientOptions::Invalid, &vec![]);
    assert_eq!(server.workspace_root(), None);
}

#[test]
fn crashes_keep_the_standard() {
    let crashed = ToolOutcome::Finished {
        exit_code: Some(255),
        stdout: b"PHP Fatal error:  Allowed memory size exhausted".to_vec(),
    };
    let mut server = PhpcsLanguageServer::new();
    server.did_change_configuration(&parse_json(r#"{"standard": "PSR12"}"#).unwrap(), &None);
    assert!(!server.recover_configuration(Some("PSR12"), &crashed, &vec![]));
    assert_eq!(server.standard(), Some("PSR12"));
}

#[test]
fn failing_standards_give_way() {
    let config = vec![
        Some("/p/.phpcs.xml".to_string()),
        None,
        None,
        Some("/p/phpcs.xml.dist".to_string()),
    ];
    let failed = ToolOutcome::Finished {
        exit_code: Some(3),
        stdout: b"ERROR: the coding standard is not installed".to_vec(),
    };
    let mut server = PhpcsLanguageServer::new();
    server.did_change_configuration(&parse_json(r#"{"standard": "Nope"}"#).unwrap(), &None);
    assert!(!server.recover_configuration(Some("Nope"), &report(), &config));
    assert!(!server.recover_configuration(Some("Nope"), &ToolOutcome::TimedOut, &config));
    assert!(!server.recover_configuration(Some("Other"), &failed, &config));
    assert!(!server.recover_configuration(None, &failed, &config));
    assert_eq!(server.standard(), Some("Nope"));
    assert!(server.recover_configuration(Some("Nope"), &failed, &config));
    assert_eq!(server.standard(), Some("/p/.phpcs.xml"));
    assert!(server.recover_configuration(Some("/p/.phpcs.xml"), &failed, &config));
    assert_eq!(server.standard(), Some("/p/phpcs.xml.dist"));
    assert!(server.recover_configuration(Some("/p/phpcs.xml.dist"), &failed, &config));
    assert_eq!(server.standard(), None);
}

#[test]
fn new_settings_apply_at_once() {
    let mut server = PhpcsLanguageServer::new();
    server.get_tool_path(PhpTool::Phpcs, &nowhere());
    server.get_tool_path(PhpTool::Phpcbf, &nowhere());
    let settings = parse_json(r#"{"standard": "PSR12", "phpcs_path": 3}"#).unwrap();
    let section = Some(PhpcsSettings {
        standard: Some("Squiz".to_string()),
        phpcs_path: None,
        phpcbf_path: Some("/new/phpcbf".to_string()),
    });
    server.did_change_configuration(&settings, &section);
    assert_eq!(server.standard(), Some("PSR12"));
    assert!(matches!(
        server.search_tool(PhpTool::Phpcbf),
        DetectStep::Found(p) if p == "/new/phpcbf"
    ));
    assert!(matches!(
        server.search_tool(PhpTool::Phpcs),
        DetectStep::Look(Place::VendorBin)
    ));
    server.did_change_configuration(
        &parse_json(r#"{"phpcs_path": "/new/phpcs"}"#).unwrap(),
        &None,
    );
    assert!(matches!(
        server.search_tool(PhpTool::Phpcs),
        DetectStep::Found(p) if p == "/new/phpcs"
    ));
    assert_eq!(server.standard(), Some("PSR12"));
    server.store_tool_path(PhpTool::Phpcs, "/found");
    server.did_change_configuration(
        &parse_json(r#"{"phpcs_path": "/new/phpcs"}"#).unwrap(),
        &None,
    );
    assert!(matches!(server.search_tool(PhpTool::Phpcs), DetectStep::Found(p) if p == "/found"));
}

#[test]
fn missing_standards_are_rediscovered() {
    let mut server = PhpcsLanguageServer::new();
    server.discover_standard(&vec![Some("/p/phpcs.xml".to_string())]);
    assert_eq!(server.standard_file(), Some("/p/phpcs.xml"));
    let there = server.prepare_lint("phpcs", false, true, &vec![], Some("/p/a.php"));
    assert_eq!(there.command.program, "phpcs");
    assert_eq!(there.command.args[3], "--standard=/p/phpcs.xml");
    let gone = server.prepare_lint(
        "phpcs",
        false,
        false,
        &vec![None, Some("/p/phpcs.xml.dist.xml".to_string())],
        None,
    );
    assert_eq!(gone.command.args, vec!["--report=json", "--no-colors", "-q", "-"]);
    assert_eq!(gone.standard, None);
    assert_eq!(server.standard(), Some("/p/phpcs.xml.dist.xml"));
    let fix = server.prepare_fix("phpcbf", false, false, Some("A.B.C"), None);
    assert_eq!(fix.args, vec!["--no-colors", "-q", "--sniffs=A.B.C", "-"]);
    server.prepare_lint("phpcs", false, false, &vec![], None);
    assert_eq!(server.standard(), None);
    assert_eq!(server.standard_file(), None);
}

#[test]
fn fix_all_is_asked_for_by_name() {
    let kinds = |names: &[&str]| Some(names.iter().map(|s| s.to_string()).collect());
    assert!(is_fix_all_request(&kinds(&["quickfix", "source.fixAll"])));
    assert!(is_fix_all_request(&kinds(&["source.fixAll.phpcs"])));
    assert!(!is_fix_all_request(&kinds(&["", "source", "source.fixAll.eslint"])));
    assert!(!is_fix_all_request(&None));
}

#[test]
fn fix_all_cools_down_after_an_edit() {
    let second: u64 = 1_000_000_000;
    let kinds = Some(vec!["source.fixAll.phpcs".to_string()]);
    let mut server = PhpcsLanguageServer::new();
    assert!(matches!(server.code_action(A, &kinds, &vec![], 0), ActionStep::Done));
    server.did_open(A, "a\n");
    server.did_open(B, "b\n");
    assert!(matches!(
        server.code_action(A, &kinds, &vec![], 0),
        ActionStep::FixAll { content } if content == "a\n"
    ));
    assert_eq!(server.fix_all_done(A, "a\n", &Ok("a\n".to_string()), second).len(), 0);
    assert_eq!(server.fix_all_done(A, "a\n", &Err(ToolError::TimedOut), second).len(), 0);
    assert!(matches!(server.code_action(A, &kinds, &vec![], second), ActionStep::FixAll { .. }));
    let offered = server.fix_all_done(A, "a\n", &Ok("A\n".to_string()), second);
    assert_eq!(offered.len(), 1);
    assert_eq!(offered[0].title, "Fix all PHPCS issues");
    assert_eq!(offered[0].kind.name(), "source.fixAll.phpcs");
    assert!(offered[0].is_preferred);
    assert_eq!(offered[0].edits[0].new_text, "A\n");
    assert!(matches!(server.code_action(A, &kinds, &vec![], second), ActionStep::Done));
    assert!(matches!(
        server.code_action(A, &kinds, &vec![], 6 * second - 1),
        ActionStep::Done
    ));
    assert!(matches!(
        server.code_action(A, &kinds, &vec![], 6 * second),
        ActionStep::FixAll { .. }
    ));
    assert!(matches!(
        server.code_action(B, &kinds, &vec![], second),
        ActionStep::FixAll { .. }
    ));
}

#[test]
fn fixes_are_offered_where_something_is_fixable() {
    let mut server = linted("<?php\nx\n");
    let found = vec![cursor(code("Squiz.A.B.C"), "phpcs", true)];
    let ActionStep::Offer { content, runs } = server.code_action(A, &None, &found, 0) else {
        panic!("nothing offered");
    };
    assert_eq!(content, "<?php\nx\n");
    assert_eq!(runs.len(), 3);
    server.did_change(A, &vec!["y".to_string()]);
    assert!(matches!(server.code_action(A, &None, &found, 0), ActionStep::Done));
    assert!(!server.file_has_fixable(A));
}

#[test]
fn each_sniff_runs_once() {
    let found = vec![
        cursor(code("Squiz.A.B.C"), "phpcs", true),
        cursor(code("Squiz.A.B.D"), "phpcs", true),
        cursor(code("PSR12.X.Y.Z"), "eslint", true),
        cursor(code("PSR12.X.Y.Z"), "phpcs", false),
        cursor(code("Short.Code"), "phpcs", true),
        cursor(Some(DiagnosticCode::Number(7)), "phpcs", true),
        cursor(None, "phpcs", true),
        cursor(code("PSR2.A.B"), "phpcs", true),
    ];
    let runs = plan_runs(&found);
    let filters: Vec<Option<&str>> = runs.iter().map(|r| r.sniff()).collect();
    assert_eq!(
        filters,
        vec![
            Some("Squiz.A.B"),
            Some("Squiz.A.B"),
            Some("PSR2.A.B"),
            Some("Squiz.A.B"),
            Some("PSR2.A.B"),
            None
        ]
    );
    assert!(matches!(
        runs[2],
        FixRun::Issue { index: 7, sniff: _, start_line: 1, end_line: 1 }
    ));
    assert!(matches!(runs[3], FixRun::Sniff(_)));
    assert!(matches!(runs[5], FixRun::All));
}

#[test]
fn actions_carry_their_edits() {
    let content = "a\nb\nc\n";
    let sniff = "Squiz.A.B".to_string();
    let issue = |line: u32| FixRun::Issue {
        index: 4,
        sniff: "Squiz.A.B".to_string(),
        start_line: line,
        end_line: line,
    };
    let outcomes = vec![
        (issue(1), Ok("a\nB\nC\n".to_string())),
        (issue(0), Ok("a\nB\nC\n".to_string())),
        (issue(1), Err(ToolError::NotStarted)),
        (FixRun::Sniff(sniff), Ok("a\nB\nC\n".to_string())),
        (FixRun::Sniff("X.Y.Z".to_string()), Ok(content.to_string())),
        (FixRun::All, Ok("A\nB\nC\n".to_string())),
    ];
    let actions = offer_actions(content, &outcomes);
    let titles: Vec<&str> = actions.iter().map(|a| a.title.as_str()).collect();
    assert_eq!(
        titles,
        vec![
            "\u{1f3af} Fix this Squiz.A.B issue",
            "\u{1f6e0}\u{fe0f} Fix all B issues",
            "\u{1f6e0}\u{fe0f} Fix all PHPCS issues (phpcbf)"
        ]
    );
    assert_eq!(actions[0].diagnostic, Some(4));
    assert_eq!(actions[0].edits.len(), 1);
    assert_eq!(actions[0].edits[0].new_text, "B");
    assert_eq!(actions[0].kind, ActionKind::QuickFix);
    assert_eq!(actions[0].kind.name(), "quickfix");
    assert!(!actions[0].is_preferred && !actions[1].is_preferred && actions[2].is_preferred);
    assert_eq!(actions[1].edits[0].new_text, "a\nB\nC\n");
    assert_eq!(actions[1].edits[0].range.end.line, 3);
    assert_eq!(actions[1].edits[0].range.end.character, 1);
    assert_eq!(actions[1].diagnostic, None);
}
