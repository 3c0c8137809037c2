//! Configuration decisions: search-list composition, tool location, and
//! the classifier's precedence, on concrete worlds.

use dll_deploy::classify::{classify, is_system_dll, is_vc_redist_dll, Classification};
use dll_deploy::config::{get_objdump_file, get_system_objdump, Args, ObjdumpError, Platform};
use dll_deploy::world::World;

fn args_with(ignore: &[&str], copy_vc_redist: bool) -> Args {
    Args {
        binary_file: "/tgt/app.exe".to_string(),
        skip_env_path: false,
        copy_vc_redist,
        verbose: false,
        shallow_search_dir: Vec::new(),
        no_shallow_search: false,
        deep_search_dir: Vec::new(),
        no_deep_search: false,
        cmake_prefix_path: Vec::new(),
        ignore: ignore.iter().map(|s| s.to_string()).collect(),
        objdump_file: "[auto]".to_string(),
        allow_missing: false,
    }
}

fn plat_with_table(table: &[&str]) -> Platform {
    Platform {
        windows: false,
        env_path: None,
        system_dll_table: table.iter().map(|s| s.to_string()).collect(),
    }
}

#[test]
fn vc_redist_names_follow_the_convention() {
    assert!(is_vc_redist_dll("api-ms-win-core-file-l1-2-0.dll"));
    assert!(!is_vc_redist_dll("kernel32.dll"));
    assert!(!is_vc_redist_dll("api-ms"));
}

#[test]
fn system_table_lookup_lowercases_the_name() {
    let plat = plat_with_table(&["kernel32.dll"]);
    let w = World::new();
    assert_eq!(is_system_dll(&"KERNEL32.DLL".to_string(), &plat, &w), Ok(true));
    assert_eq!(is_system_dll(&"other.dll".to_string(), &plat, &w), Ok(false));
}

#[test]
fn system_probe_finds_the_file_in_a_known_directory() {
    let mut plat = plat_with_table(&[]);
    plat.windows = true;
    let mut w = World::new();
    w.file_facts.push(("C:/Windows/sys.dll".to_string(), false));
    w.file_facts.push(("C:/Windows/system32/sys.dll".to_string(), true));
    assert_eq!(is_system_dll(&"sys.dll".to_string(), &plat, &w), Ok(true));
}

#[test]
fn classification_prefers_already_deployed() {
    // A file already in the target directory wins over everything,
    // the ignore set included.
    let args = args_with(&["aa.dll"], false);
    let plat = plat_with_table(&["aa.dll"]);
    let mut w = World::new();
    w.file_facts.push(("/tgt/aa.dll".to_string(), true));
    let c = classify(&"aa.dll".to_string(), &"/tgt".to_string(), &args, &plat, &w);
    assert_eq!(c, Ok(Classification::AlreadyDeployed));
}

#[test]
fn classification_prefers_ignored_over_system() {
    let args = args_with(&["aa.dll"], false);
    let plat = plat_with_table(&["aa.dll"]);
    let mut w = World::new();
    w.file_facts.push(("/tgt/aa.dll".to_string(), false));
    let c = classify(&"aa.dll".to_string(), &"/tgt".to_string(), &args, &plat, &w);
    assert_eq!(c, Ok(Classification::Ignored));
}

#[test]
fn classification_prefers_system_over_redistributable() {
    let args = args_with(&[], false);
    let plat = plat_with_table(&["api-ms-win-xx.dll"]);
    let mut w = World::new();
    w.file_facts.push(("/tgt/api-ms-win-xx.dll".to_string(), false));
    let c = classify(&"api-ms-win-xx.dll".to_string(), &"/tgt".to_string(), &args, &plat, &w);
    assert_eq!(c, Ok(Classification::SystemOwned));
}

#[test]
fn classification_redistributable_depends_on_the_flag() {
    let plat = plat_with_table(&[]);
    let mut w = World::new();
    w.file_facts.push(("/tgt/api-ms-win-xx.dll".to_string(), false));
    let name = "api-ms-win-xx.dll".to_string();
    let tgt = "/tgt".to_string();
    let without = classify(&name, &tgt, &args_with(&[], false), &plat, &w);
    assert_eq!(without, Ok(Classification::Redistributable));
    let with = classify(&name, &tgt, &args_with(&[], true), &plat, &w);
    assert_eq!(with, Ok(Classification::Unresolved));
}

#[test]
fn classification_falls_through_to_unresolved() {
    let args = args_with(&[], false);
    let plat = plat_with_table(&[]);
    let mut w = World::new();
    w.file_facts.push(("/tgt/plain.dll".to_string(), false));
    let c = classify(&"plain.dll".to_string(), &"/tgt".to_string(), &args, &plat, &w);
    assert_eq!(c, Ok(Classification::Unresolved));
}

#[test]
fn search_lists_compose_in_order() {
    // Explicit directories first and unfiltered; then the existing
    // package-prefix bin directories; then the existing entries of the
    // native search-path variable.
    let mut args = args_with(&[], false);
    args.shallow_search_dir = vec!["/exp1".to_string(), "/exp2".to_string()];
    args.cmake_prefix_path = vec!["/pkga;/pkgb".to_string()];
    let plat = Platform {
        windows: true,
        env_path: Some("/e1;/e2".to_string()),
        system_dll_table: Vec::new(),
    };
    let mut w = World::new();
    w.dir_facts.push(("/pkga/bin".to_string(), true));
    w.dir_facts.push(("/pkgb/bin".to_string(), false));
    w.dir_facts.push(("/e1".to_string(), false));
    w.dir_facts.push(("/e2".to_string(), true));
    let dirs = args.shallow_search_dirs(&plat, &w).expect("all facts recorded");
    assert_eq!(
        dirs,
        vec![
            "/exp1".to_string(),
            "/exp2".to_string(),
            "/pkga/bin".to_string(),
            "/e2".to_string(),
        ]
    );
}

#[test]
fn env_path_is_left_out_when_suppressed_or_foreign() {
    let mut args = args_with(&[], false);
    args.deep_search_dir = vec!["/exp".to_string()];
    let mut w = World::new();
    w.dir_facts.push(("/e1".to_string(), true));
    let mut plat = Platform {
        windows: true,
        env_path: Some("/e1".to_string()),
        system_dll_table: Vec::new(),
    };
    args.skip_env_path = true;
    let dirs = args.deep_search_dirs(&plat, &w).expect("all facts recorded");
    assert_eq!(dirs, vec!["/exp".to_string()]);
    args.skip_env_path = false;
    plat.windows = false;
    let dirs = args.deep_search_dirs(&plat, &w).expect("all facts recorded");
    assert_eq!(dirs, vec!["/exp".to_string()]);
}

#[test]
fn objdump_selector_decisions() {
    let sys = Some("/usr/bin/objdump".to_string());
    let builtin = Some("/inst/objdump".to_string());
    let none: Option<String> = None;
    assert_eq!(
        get_objdump_file(&"[system]".to_string(), &sys, &none, false),
        Ok("/usr/bin/objdump".to_string())
    );
    assert_eq!(
        get_objdump_file(&"[system]".to_string(), &none, &builtin, false),
        Err(ObjdumpError::SystemNotFound)
    );
    assert_eq!(
        get_objdump_file(&"[builtin]".to_string(), &sys, &builtin, false),
        Ok("/inst/objdump".to_string())
    );
    assert_eq!(
        get_objdump_file(&"[builtin]".to_string(), &sys, &none, false),
        Err(ObjdumpError::BuiltinNotFound)
    );
    assert_eq!(
        get_objdump_file(&"[auto]".to_string(), &sys, &builtin, false),
        Ok("/usr/bin/objdump".to_string())
    );
    assert_eq!(
        get_objdump_file(&"[auto]".to_string(), &none, &builtin, false),
        Ok("/inst/objdump".to_string())
    );
    assert_eq!(
        get_objdump_file(&"[auto]".to_string(), &none, &none, false),
        Err(ObjdumpError::BuiltinNotFound)
    );
    assert_eq!(
        get_objdump_file(&"/my/objdump".to_string(), &none, &none, true),
        Ok("/my/objdump".to_string())
    );
    assert_eq!(
        get_objdump_file(&"/my/objdump".to_string(), &none, &none, false),
        Err(ObjdumpError::GivenNotFound)
    );
}

#[test]
fn system_objdump_takes_the_first_existing_line() {
    let lines = vec!["/a/objdump".to_string(), "/b/objdump".to_string()];
    let found = vec![false, true];
    assert_eq!(get_system_objdump(&lines, &found), Some("/b/objdump".to_string()));
    let found = vec![false, false];
    assert_eq!(get_system_objdump(&lines, &found), None);
}

#[test]
fn objdump_method_uses_the_configured_selector() {
    let mut args = args_with(&[], false);
    args.objdump_file = "[auto]".to_string();
    let sys = Some("/usr/bin/objdump".to_string());
    let none: Option<String> = None;
    assert_eq!(args.objdump_file(&sys, &none, false), Ok("/usr/bin/objdump".to_string()));
}
