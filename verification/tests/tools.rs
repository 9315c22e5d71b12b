use phpcs_lsp_server::tools::{
    detect_next, detect_start, detect_tool_path, plan_spawn, plan_spawn_by_extension, DetectStep,
    PhpTool, Place, Places, SpawnPlan,
};

fn direct(path: &str) -> SpawnPlan {
    SpawnPlan {
        program: path.to_string(),
        prefix_args: Vec::new(),
    }
}

fn via_cmd(path: &str) -> SpawnPlan {
    SpawnPlan {
        program: "cmd".to_string(),
        prefix_args: vec!["/C".to_string(), path.to_string()],
    }
}

fn via_php(path: &str) -> SpawnPlan {
    SpawnPlan {
        program: "php".to_string(),
        prefix_args: vec![path.to_string()],
    }
}

fn nowhere() -> Places<'static> {
    Places {
        vendor_bin: None,
        environment: None,
        system: None,
        bundled: None,
    }
}

#[test]
fn unix_always_launches_directly() {
    for path in [
        "vendor/bin/phpcs",
        "/usr/local/bin/phpcs.phar",
        "phpcs",
        "/some/phpcs.bat",
    ] {
        assert_eq!(plan_spawn(path, false), direct(path), "path: {path}");
    }
}

#[test]
fn windows_runs_exe_directly() {
    assert_eq!(
        plan_spawn(r"C:\tools\phpcs.exe", true),
        direct(r"C:\tools\phpcs.exe")
    );
}

#[test]
fn windows_routes_bat_and_cmd_through_cmd() {
    assert_eq!(
        plan_spawn(r"C:\proj\vendor\bin\phpcs.bat", true),
        via_cmd(r"C:\proj\vendor\bin\phpcs.bat")
    );
    assert_eq!(
        plan_spawn(r"C:\proj\vendor\bin\phpcs.cmd", true),
        via_cmd(r"C:\proj\vendor\bin\phpcs.cmd")
    );
}

#[test]
fn windows_runs_composer_proxy_through_php() {
    assert_eq!(
        plan_spawn(r"C:\proj\vendor/bin/phpcs", true),
        via_php(r"C:\proj\vendor/bin/phpcs")
    );
    assert_eq!(
        plan_spawn(r"C:\proj\vendor\bin\phpcs", true),
        via_php(r"C:\proj\vendor\bin\phpcs")
    );
}

#[test]
fn windows_runs_phar_through_php() {
    assert_eq!(
        plan_spawn(r"C:\Users\me\.phpcs\phpcs.phar", true),
        via_php(r"C:\Users\me\.phpcs\phpcs.phar")
    );
}

#[test]
fn windows_resolves_bare_command_through_cmd() {
    assert_eq!(plan_spawn("phpcs", true), via_cmd("phpcs"));
}

#[test]
fn windows_extension_matching_is_case_insensitive() {
    assert_eq!(plan_spawn(r"C:\t\phpcs.EXE", true), direct(r"C:\t\phpcs.EXE"));
    assert_eq!(plan_spawn(r"C:\t\phpcs.BAT", true), via_cmd(r"C:\t\phpcs.BAT"));
    assert_eq!(plan_spawn(r"C:\t\phpcs.Phar", true), via_php(r"C:\t\phpcs.Phar"));
}

#[test]
fn windows_runs_dotfiles_and_odd_names_by_their_extension() {
    assert_eq!(plan_spawn("/tools/.exe", true), via_php("/tools/.exe"));
    assert_eq!(plan_spawn("/tools/a.b.exe", true), direct("/tools/a.b.exe"));
    assert_eq!(plan_spawn("/tools.exe/phpcs", true), via_php("/tools.exe/phpcs"));
    assert_eq!(plan_spawn("phpcs.exe", true), direct("phpcs.exe"));
    assert_eq!(plan_spawn("/tools/phpcs.exe/", true), direct("/tools/phpcs.exe/"));
    assert_eq!(plan_spawn("/tools/phpcs.exe/.", true), direct("/tools/phpcs.exe/."));
    assert_eq!(plan_spawn("/tools/phpcs.exe/..", true), via_php("/tools/phpcs.exe/.."));
    assert_eq!(plan_spawn("phpcs.phar", true), via_cmd("phpcs.phar"));
}

#[test]
fn windows_runs_tools_on_shares_and_drives_by_their_extension() {
    for path in [r"\\server\share\bin\phpcs.exe", "//server/share/phpcs.Exe", "C:phpcs.exe"] {
        assert_eq!(plan_spawn(path, true), direct(path), "path: {path}");
    }
    assert_eq!(
        plan_spawn(r"\\server\share\phpcs.bat", true),
        via_cmd(r"\\server\share\phpcs.bat")
    );
    assert_eq!(
        plan_spawn(r"\\server\share\bin\phpcs", true),
        via_php(r"\\server\share\bin\phpcs")
    );
}

#[test]
fn case_never_changes_the_route() {
    for (a, b) in [
        (r"C:\T\PHPCS.EXE", r"c:\t\phpcs.exe"),
        ("/a/phpcs.Bat", "/A/PHPCS.bAT"),
        ("PHPCS", "phpcs"),
        ("/a/PHPCS", "/a/phpcs"),
        ("/a/PHPCS.EXE/", "/a/phpcs.exe/"),
        ("/a/PHPCS.Bat/./", "/a/phpcs.bat/./"),
        (r"C:\X\.EXE", r"c:\x\.exe"),
        ("C:.EXE", "c:.exe"),
        ("/A/..", "/a/.."),
        (r"\\SERVER\SHARE.EXE", r"\\server\share.exe"),
    ] {
        assert_eq!(
            plan_spawn(a, true).prefix_args.len(),
            plan_spawn(b, true).prefix_args.len()
        );
    }
}

#[test]
fn plan_goes_by_the_extension_it_is_given() {
    assert_eq!(plan_spawn_by_extension("x", Some("ExE"), true), direct("x"));
    assert_eq!(plan_spawn_by_extension("/x", Some("cmd"), true), via_cmd("/x"));
    assert_eq!(plan_spawn_by_extension("/x", Some("sh"), true), via_php("/x"));
    assert_eq!(plan_spawn_by_extension("x", None, true), via_cmd("x"));
    assert_eq!(plan_spawn_by_extension("x", Some("bat"), false), direct("x"));
}

#[test]
fn user_path_takes_precedence_over_vendor_bin() {
    let places = Places {
        vendor_bin: Some("/proj/vendor/bin/phpcs"),
        ..nowhere()
    };
    let resolved = detect_tool_path(PhpTool::Phpcs, Some(r"C:\custom\phpcs.bat"), &places);
    assert_eq!(resolved, r"C:\custom\phpcs.bat");
}

#[test]
fn vendor_bin_is_used_when_no_user_path() {
    let places = Places {
        vendor_bin: Some("/proj/vendor/bin/phpcs"),
        ..nowhere()
    };
    let resolved = detect_tool_path(PhpTool::Phpcs, None, &places);
    assert_eq!(resolved, "/proj/vendor/bin/phpcs");
}

#[test]
fn blank_user_path_is_ignored() {
    let places = Places {
        vendor_bin: Some("/proj/vendor/bin/phpcs"),
        ..nowhere()
    };
    let resolved = detect_tool_path(PhpTool::Phpcs, Some("   "), &places);
    assert_eq!(resolved, "/proj/vendor/bin/phpcs");
}

#[test]
fn places_are_tried_in_order() {
    let mut places = Places {
        vendor_bin: Some("v"),
        environment: Some("e"),
        system: Some("s"),
        bundled: Some("b"),
    };
    assert_eq!(detect_tool_path(PhpTool::Phpcbf, None, &places), "v");
    places.vendor_bin = None;
    assert_eq!(detect_tool_path(PhpTool::Phpcbf, None, &places), "e");
    places.environment = Some(" \t");
    assert_eq!(detect_tool_path(PhpTool::Phpcbf, None, &places), "phpcbf");
    places.system = None;
    assert_eq!(detect_tool_path(PhpTool::Phpcbf, None, &places), "b");
    places.bundled = None;
    assert_eq!(detect_tool_path(PhpTool::Phpcbf, None, &places), "phpcbf");
    assert_eq!(detect_tool_path(PhpTool::Phpcs, None, &places), "phpcs");
}

#[test]
fn search_stops_where_the_tool_is_found() {
    assert!(matches!(detect_start(Some("/p")), DetectStep::Found(p) if p == "/p"));
    assert!(matches!(detect_start(Some("\u{3000}")), DetectStep::Look(Place::VendorBin)));
    assert!(matches!(detect_start(None), DetectStep::Look(Place::VendorBin)));
    assert!(matches!(
        detect_next(PhpTool::Phpcs, Place::VendorBin, None),
        DetectStep::Look(Place::Environment)
    ));
    assert!(matches!(
        detect_next(PhpTool::Phpcs, Place::Environment, Some("")),
        DetectStep::Look(Place::System)
    ));
    assert!(matches!(
        detect_next(PhpTool::Phpcs, Place::System, None),
        DetectStep::Look(Place::Bundled)
    ));
    assert!(matches!(
        detect_next(PhpTool::Phpcs, Place::System, Some("/usr/bin/phpcs")),
        DetectStep::Found(p) if p == "phpcs"
    ));
    assert!(matches!(
        detect_next(PhpTool::Phpcs, Place::Bundled, Some("/x/phpcs.phar")),
        DetectStep::Found(p) if p == "/x/phpcs.phar"
    ));
}

#[test]
fn plans_are_copied_whole() {
    let plan = via_cmd("a.bat");
    assert_eq!(plan.clone(), plan);
}

#[test]
fn tools_have_their_names() {
    assert_eq!(PhpTool::Phpcs.name(), "phpcs");
    assert_eq!(PhpTool::Phpcbf.display_name(), "PHPCBF");
    assert_eq!(PhpTool::Phpcs.vendor_bin(), "vendor/bin/phpcs");
    assert_eq!(PhpTool::Phpcbf.phar_name(), "phpcbf.phar");
    assert_eq!(PhpTool::Phpcbf.env_var_name(), "PHPCBF_PATH");
}
