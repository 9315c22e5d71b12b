use phpcs_lsp_server::extension::{
    check_language_server, download_next, get_platform_binary_name,
    language_server_initialization_options, plan_binary_download, plan_phar_download,
    Architecture, ArchiveKind, BinaryStep, DownloadAction, DownloadEvent, Os, PhpcsLspServer,
};
use phpcs_lsp_server::json::{parse_json, Json};

fn settings(text: &str) -> Option<Json> {
    parse_json(text)
}

fn standard(text: &str, config: Option<&str>, environment: Option<&str>) -> Option<String> {
    language_server_initialization_options("phpcs", &settings(text), config, environment)
        .and_then(|o| o.standard)
}

#[test]
fn binaries_are_named_by_platform() {
    let name = get_platform_binary_name;
    assert_eq!(name(Os::Windows, Architecture::X8664), "phpcs-lsp-server-windows-x64.exe");
    assert_eq!(name(Os::Windows, Architecture::Aarch64), "phpcs-lsp-server-windows-arm64.exe");
    assert_eq!(name(Os::Windows, Architecture::X86), "phpcs-lsp-server.exe");
    assert_eq!(name(Os::Mac, Architecture::Aarch64), "phpcs-lsp-server-macos-arm64");
    assert_eq!(name(Os::Mac, Architecture::X8664), "phpcs-lsp-server-macos-x64");
    assert_eq!(name(Os::Mac, Architecture::X86), "phpcs-lsp-server");
    assert_eq!(name(Os::Linux, Architecture::X8664), "phpcs-lsp-server-linux-x64");
    assert_eq!(name(Os::Linux, Architecture::Aarch64), "phpcs-lsp-server-linux-arm64");
    assert_eq!(name(Os::Linux, Architecture::X86), "phpcs-lsp-server");
}

#[test]
fn downloads_come_from_the_release() {
    let windows = plan_binary_download("1.2.3", "server.exe", Os::Windows);
    assert_eq!(windows.version_dir, "phpcs-1.2.3");
    assert_eq!(windows.file_path, "phpcs-1.2.3/server.exe");
    assert_eq!(
        windows.url,
        "https://github.com/mike-bronner/zed-phpcs-lsp/releases/download/1.2.3/server.exe.zip"
    );
    assert_eq!(windows.archive, ArchiveKind::Zip);
    let phar = plan_phar_download("1.2.3", "phpcs.phar");
    assert_eq!(phar.file_path, "phpcs-1.2.3/phpcs.phar");
    assert_eq!(
        phar.url,
        "https://github.com/mike-bronner/zed-phpcs-lsp/releases/download/1.2.3/phpcs.phar.tar.gz"
    );
    assert_eq!(phar.archive, ArchiveKind::GzipTar);
    let linux = plan_binary_download("1.2.3", "server", Os::Linux);
    assert_eq!(linux.archive, ArchiveKind::GzipTar);
}

#[test]
fn downloads_take_their_course() {
    let plan = plan_binary_download("1.0", "server", Os::Mac);
    let done = "phpcs-1.0/server";
    assert!(matches!(
        download_next(&plan, &DownloadEvent::Looked(true)),
        DownloadAction::Finish(Ok(p)) if p == done
    ));
    assert!(matches!(
        download_next(&plan, &DownloadEvent::Looked(false)),
        DownloadAction::Fetch
    ));
    assert!(matches!(
        download_next(&plan, &DownloadEvent::Fetched(Ok(()))),
        DownloadAction::Look
    ));
    assert!(matches!(
        download_next(&plan, &DownloadEvent::Extracted(true)),
        DownloadAction::Permit
    ));
    assert!(matches!(
        download_next(&plan, &DownloadEvent::Permitted(Ok(()))),
        DownloadAction::Finish(Ok(p)) if p == done
    ));
}

#[test]
fn downloads_that_fail_say_why() {
    let binary = plan_binary_download("1.0", "server", Os::Mac);
    let phar = plan_phar_download("1.0", "phpcs.phar");
    let reason = |action: DownloadAction| match action {
        DownloadAction::Finish(Err(e)) => e,
        _ => panic!("no reason"),
    };
    assert_eq!(
        reason(download_next(&binary, &DownloadEvent::Fetched(Err("404".to_string())))),
        "Failed to download binary from release: 404. Please ensure the release 1.0 exists with assets."
    );
    assert_eq!(
        reason(download_next(&phar, &DownloadEvent::Fetched(Err("404".to_string())))),
        "Failed to download phpcs.phar from release: 404. Please ensure the release 1.0 exists with assets."
    );
    assert_eq!(
        reason(download_next(&binary, &DownloadEvent::Extracted(false))),
        "Binary not found after extraction. Expected at: phpcs-1.0/server"
    );
    assert_eq!(
        reason(download_next(&phar, &DownloadEvent::Extracted(false))),
        "phpcs.phar not found after extraction. Expected at: phpcs-1.0/phpcs.phar"
    );
    assert_eq!(
        reason(download_next(&binary, &DownloadEvent::Permitted(Err("no".to_string())))),
        "Failed to set binary permissions: no"
    );
    assert_eq!(
        reason(download_next(&phar, &DownloadEvent::Permitted(Err("no".to_string())))),
        "Failed to set phpcs.phar permissions: no"
    );
}

#[test]
fn binaries_are_found_once() {
    let mut server = PhpcsLspServer::new();
    assert!(matches!(
        server.language_server_binary_path(true, Os::Linux, Architecture::X8664),
        BinaryStep::LookUp(name) if name == "phpcs-lsp-server-linux-x64"
    ));
    assert!(matches!(server.binary_looked_up(None), BinaryStep::Download));
    assert_eq!(
        server.binary_downloaded(Err("no".to_string())),
        Err("no".to_string())
    );
    assert_eq!(server.cached_binary_path, None);
    assert_eq!(server.binary_downloaded(Ok("/d".to_string())), Ok("/d".to_string()));
    assert!(matches!(
        server.language_server_binary_path(true, Os::Linux, Architecture::X8664),
        BinaryStep::Use(p) if p == "/d"
    ));
    assert!(matches!(
        server.language_server_binary_path(false, Os::Linux, Architecture::X8664),
        BinaryStep::LookUp(_)
    ));
    assert!(matches!(server.binary_looked_up(Some("/w")), BinaryStep::Use(p) if p == "/w"));
    assert_eq!(server.cached_binary_path.as_deref(), Some("/w"));
}

#[test]
fn standards_come_by_priority() {
    let text = r#"{"standard": "PSR12"}"#;
    assert_eq!(standard(text, Some("/p/phpcs.xml"), Some("Zend")).as_deref(), Some("/p/phpcs.xml"));
    assert_eq!(standard(text, None, Some("Zend")).as_deref(), Some("PSR12"));
    assert_eq!(standard(r#"{"standard": " "}"#, None, Some("Zend")).as_deref(), Some("Zend"));
    assert_eq!(standard("{}", None, Some("  ")), None);
    assert_eq!(standard(r#"{"standard": 12}"#, None, None), None);
}

#[test]
fn several_standards_are_joined() {
    assert_eq!(
        standard(
            r#"{"standard": ["PSR12", "", "Squiz.Commenting", 3, "Generic.Files.LineLength"]}"#,
            None,
            Some("Zend")
        )
        .as_deref(),
        Some("PSR12,Squiz.Commenting,Generic.Files.LineLength")
    );
    assert_eq!(standard(r#"{"standard": [" ", 1]}"#, None, Some("Zend")).as_deref(), Some("Zend"));
}

#[test]
fn paths_are_passed_on_unless_blank() {
    let options = language_server_initialization_options(
        "phpcs",
        &settings(r#"{"phpcs_path": "/a", "phpcbf_path": " "}"#),
        None,
        None,
    )
    .unwrap();
    assert_eq!(options.phpcs_path.as_deref(), Some("/a"));
    assert_eq!(options.phpcbf_path, None);
    assert_eq!(options.standard, None);
    assert!(language_server_initialization_options("phpcs", &None, None, None).is_none());
    assert!(
        language_server_initialization_options("other", &None, Some("/p/phpcs.xml"), None).is_none()
    );
}

#[test]
fn other_servers_are_refused() {
    assert_eq!(check_language_server("phpcs"), Ok(()));
    assert_eq!(
        check_language_server("intelephense"),
        Err("unknown language server: intelephense".to_string())
    );
}
