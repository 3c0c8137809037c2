//! End-to-end scenarios: the engine driven against a simulated filesystem.

use dll_deploy::config::{Args, Platform};
use dll_deploy::deploy::{run, RunResult, Summary};
use dll_deploy::world::{CopyFact, Query, ToolOutput, World};

/// One file of the simulated filesystem: its path, its format tag, and the
/// library names it declares.
struct SimFile {
    path: String,
    format: String,
    deps: Vec<String>,
}

/// A simulated filesystem the driver answers queries from.
struct Sim {
    files: Vec<SimFile>,
    dirs: Vec<String>,
    walks: Vec<(String, Vec<String>)>,
    copies: Vec<(String, String)>,
    fail_copy: bool,
    fail_tool_on: Vec<String>,
}

impl Sim {
    fn new() -> Sim {
        Sim {
            files: Vec::new(),
            dirs: Vec::new(),
            walks: Vec::new(),
            copies: Vec::new(),
            fail_copy: false,
            fail_tool_on: Vec::new(),
        }
    }

    fn add_file(&mut self, path: &str, format: &str, deps: &[&str]) {
        self.files.push(SimFile {
            path: path.to_string(),
            format: format.to_string(),
            deps: deps.iter().map(|d| d.to_string()).collect(),
        });
    }

    fn resolve(&self, path: &str) -> Option<&SimFile> {
        let mut p = path.to_string();
        let mut hops = 0;
        loop {
            if let Some(f) = self.files.iter().find(|f| f.path == p) {
                return Some(f);
            }
            match self.copies.iter().find(|(dest, _)| *dest == p) {
                Some((_, from)) => {
                    p = from.clone();
                    hops += 1;
                    assert!(hops < 100, "copy chain too long");
                }
                None => return None,
            }
        }
    }

    fn has_file(&self, path: &str) -> bool {
        self.resolve(path).is_some()
    }
}

fn deps_output(f: &SimFile) -> String {
    let mut out = String::new();
    out.push_str("The Import Tables\r\n");
    for d in &f.deps {
        out.push_str(&format!("\tDLL Name: {}\r\n", d));
    }
    out
}

fn format_output(f: &SimFile) -> String {
    format!("\n{}: file format {}\n\n", f.path, f.format)
}

fn answer(w: &mut World, sim: &mut Sim, q: Query) {
    match q {
        Query::IsDir { path } => {
            let yes = sim.dirs.iter().any(|d| *d == path);
            w.dir_facts.push((path, yes));
        }
        Query::IsFile { path } => {
            let yes = sim.has_file(&path);
            w.file_facts.push((path, yes));
        }
        Query::ToolDeps { path } => {
            if sim.fail_tool_on.iter().any(|p| *p == path) {
                w.deps_facts.push((
                    path,
                    ToolOutput {
                        ok: false,
                        stdout: String::new(),
                        stderr: "tool exploded".to_string(),
                    },
                ));
                return;
            }
            let f = sim.resolve(&path).expect("tool run on a missing file");
            let out = deps_output(f);
            w.deps_facts.push((
                path,
                ToolOutput { ok: true, stdout: out, stderr: String::new() },
            ));
        }
        Query::ToolFormat { path } => {
            let f = sim.resolve(&path).expect("tool run on a missing file");
            let out = format_output(f);
            w.format_facts.push((
                path,
                ToolOutput { ok: true, stdout: out, stderr: String::new() },
            ));
        }
        Query::WalkEntries { dir } => {
            let entries = match sim.walks.iter().find(|(d, _)| *d == dir) {
                Some((_, es)) => es.clone(),
                None => vec![dir.clone()],
            };
            w.walk_facts.push((dir, entries));
        }
        Query::DoCopy { from, name, dest } => {
            if sim.fail_copy {
                w.copy_facts.push(CopyFact { from, name, ok: false });
            } else {
                sim.copies.push((dest, from.clone()));
                w.copy_facts.push(CopyFact { from, name, ok: true });
            }
        }
    }
}

fn drive(sim: &mut Sim, args: &Args, plat: &Platform, target_dir: &str) -> RunResult {
    let mut w = World::new();
    let tgt = target_dir.to_string();
    for _ in 0..10000 {
        match run(args, plat, &tgt, &w) {
            RunResult::NeedFact(q) => answer(&mut w, sim, q),
            done => return done,
        }
    }
    panic!("engine did not reach a fixpoint");
}

fn base_args(root: &str) -> Args {
    Args {
        binary_file: root.to_string(),
        skip_env_path: false,
        copy_vc_redist: false,
        verbose: false,
        shallow_search_dir: Vec::new(),
        no_shallow_search: false,
        deep_search_dir: Vec::new(),
        no_deep_search: false,
        cmake_prefix_path: Vec::new(),
        ignore: Vec::new(),
        objdump_file: "[auto]".to_string(),
        allow_missing: false,
    }
}

fn base_plat() -> Platform {
    Platform { windows: false, env_path: None, system_dll_table: Vec::new() }
}

fn copied_names(s: &Summary) -> Vec<String> {
    s.copies.iter().map(|c| c.name.clone()).collect()
}

#[test]
fn concrete_scenario_two_deps_one_nested() {
    // Root declares aa.dll and bb.dll; aa.dll already sits in the target
    // directory; bb.dll is found in a shallow directory with the matching
    // format and itself declares cc.dll, found through a deep directory.
    let mut sim = Sim::new();
    sim.add_file("/tgt/app.exe", "pei-x86-64", &["aa.dll", "bb.dll"]);
    sim.add_file("/tgt/aa.dll", "pei-x86-64", &[]);
    sim.add_file("/sh/bb.dll", "pei-x86-64", &["cc.dll"]);
    sim.add_file("/dp/sub/cc.dll", "pei-x86-64", &[]);
    sim.walks.push(("/dp".to_string(), vec!["/dp".to_string(), "/dp/sub".to_string()]));
    let mut args = base_args("/tgt/app.exe");
    args.shallow_search_dir = vec!["/sh".to_string()];
    args.deep_search_dir = vec!["/dp".to_string()];
    match drive(&mut sim, &args, &base_plat(), "/tgt") {
        RunResult::Done(s) => {
            assert_eq!(copied_names(&s), vec!["bb.dll".to_string(), "cc.dll".to_string()]);
            assert_eq!(s.copies[0].from, "/sh/bb.dll");
            assert_eq!(s.copies[0].dest, "/tgt/bb.dll");
            assert_eq!(s.copies[1].from, "/dp/sub/cc.dll");
            assert_eq!(s.copies[1].dest, "/tgt/cc.dll");
            assert!(s.missing.is_empty());
        }
        _ => panic!("expected a finished deployment"),
    }
    // aa.dll was never copied over.
    assert!(sim.copies.iter().all(|(dest, _)| dest != "/tgt/aa.dll"));
}

#[test]
fn termination_under_cycles() {
    // aa.dll needs bb.dll and bb.dll needs aa.dll: both are deployed
    // exactly once and the run ends.
    let mut sim = Sim::new();
    sim.add_file("/tgt/app.exe", "fmt", &["aa.dll"]);
    sim.add_file("/sh/aa.dll", "fmt", &["bb.dll"]);
    sim.add_file("/sh/bb.dll", "fmt", &["aa.dll"]);
    let mut args = base_args("/tgt/app.exe");
    args.shallow_search_dir = vec!["/sh".to_string()];
    match drive(&mut sim, &args, &base_plat(), "/tgt") {
        RunResult::Done(s) => {
            assert_eq!(copied_names(&s), vec!["aa.dll".to_string(), "bb.dll".to_string()]);
            assert!(s.missing.is_empty());
        }
        _ => panic!("expected a finished deployment"),
    }
}

#[test]
fn search_order_prefers_earlier_shallow_over_deep() {
    // The dependency is present and valid in the second shallow directory
    // and in a deep directory: the shallow copy wins.
    let mut sim = Sim::new();
    sim.add_file("/tgt/app.exe", "fmt", &["xx.dll"]);
    sim.add_file("/s2/xx.dll", "fmt", &[]);
    sim.add_file("/d1/xx.dll", "fmt", &[]);
    let mut args = base_args("/tgt/app.exe");
    args.shallow_search_dir = vec!["/s1".to_string(), "/s2".to_string()];
    args.deep_search_dir = vec!["/d1".to_string()];
    match drive(&mut sim, &args, &base_plat(), "/tgt") {
        RunResult::Done(s) => {
            assert_eq!(s.copies.len(), 1);
            assert_eq!(s.copies[0].from, "/s2/xx.dll");
        }
        _ => panic!("expected a finished deployment"),
    }
}

#[test]
fn ignore_precedence_over_locatable() {
    // A name in the ignore set is never copied even though it could be
    // found on disk.
    let mut sim = Sim::new();
    sim.add_file("/tgt/app.exe", "fmt", &["ig.dll"]);
    sim.add_file("/sh/ig.dll", "fmt", &[]);
    let mut args = base_args("/tgt/app.exe");
    args.shallow_search_dir = vec!["/sh".to_string()];
    args.ignore = vec!["ig.dll".to_string()];
    match drive(&mut sim, &args, &base_plat(), "/tgt") {
        RunResult::Done(s) => {
            assert!(s.copies.is_empty());
            assert!(s.missing.is_empty());
        }
        _ => panic!("expected a finished deployment"),
    }
    assert!(sim.copies.is_empty());
}

#[test]
fn architecture_mismatch_rejected_fatal_without_tolerance() {
    // The only candidate has the wrong format tag: it is never selected,
    // and without tolerance the run fails on the unresolved name.
    let mut sim = Sim::new();
    sim.add_file("/tgt/app.exe", "pei-x86-64", &["zz.dll"]);
    sim.add_file("/sh/zz.dll", "pei-i386", &[]);
    let mut args = base_args("/tgt/app.exe");
    args.shallow_search_dir = vec!["/sh".to_string()];
    match drive(&mut sim, &args, &base_plat(), "/tgt") {
        RunResult::Failed(dll_deploy::engine::EngineError::UnresolvedDependency {
            name,
            required_by,
        }) => {
            assert_eq!(name, "zz.dll");
            assert_eq!(required_by, "/tgt/app.exe");
        }
        _ => panic!("expected an unresolved-dependency failure"),
    }
    assert!(sim.copies.is_empty());
}

#[test]
fn architecture_mismatch_reported_missing_with_tolerance() {
    let mut sim = Sim::new();
    sim.add_file("/tgt/app.exe", "pei-x86-64", &["zz.dll"]);
    sim.add_file("/sh/zz.dll", "pei-i386", &[]);
    let mut args = base_args("/tgt/app.exe");
    args.shallow_search_dir = vec!["/sh".to_string()];
    args.allow_missing = true;
    match drive(&mut sim, &args, &base_plat(), "/tgt") {
        RunResult::Done(s) => {
            assert!(s.copies.is_empty());
            assert_eq!(s.missing.len(), 1);
            assert_eq!(s.missing[0].name, "zz.dll");
        }
        _ => panic!("expected a finished deployment"),
    }
}

#[test]
fn missing_dependency_fatal_without_tolerance() {
    let mut sim = Sim::new();
    sim.add_file("/tgt/app.exe", "fmt", &["ok.dll", "gone.dll"]);
    sim.add_file("/sh/ok.dll", "fmt", &[]);
    let mut args = base_args("/tgt/app.exe");
    args.shallow_search_dir = vec!["/sh".to_string()];
    match drive(&mut sim, &args, &base_plat(), "/tgt") {
        RunResult::Failed(dll_deploy::engine::EngineError::UnresolvedDependency {
            name, ..
        }) => {
            assert_eq!(name, "gone.dll");
        }
        _ => panic!("expected an unresolved-dependency failure"),
    }
}

#[test]
fn missing_dependency_tolerated_and_reported() {
    // With tolerance the run completes, deploys what it can, and reports
    // the unresolved name together with who required it.
    let mut sim = Sim::new();
    sim.add_file("/tgt/app.exe", "fmt", &["ok.dll", "gone.dll"]);
    sim.add_file("/sh/ok.dll", "fmt", &[]);
    let mut args = base_args("/tgt/app.exe");
    args.shallow_search_dir = vec!["/sh".to_string()];
    args.allow_missing = true;
    match drive(&mut sim, &args, &base_plat(), "/tgt") {
        RunResult::Done(s) => {
            assert_eq!(copied_names(&s), vec!["ok.dll".to_string()]);
            assert_eq!(s.missing.len(), 1);
            assert_eq!(s.missing[0].name, "gone.dll");
            assert_eq!(s.missing[0].required_by, "/tgt/app.exe");
        }
        _ => panic!("expected a finished deployment"),
    }
}

#[test]
fn idempotence_second_run_copies_nothing() {
    // Running again with identical configuration against the filesystem
    // the first run left behind changes nothing.
    let mut sim = Sim::new();
    sim.add_file("/tgt/app.exe", "fmt", &["aa.dll", "bb.dll"]);
    sim.add_file("/sh/aa.dll", "fmt", &["bb.dll"]);
    sim.add_file("/sh/bb.dll", "fmt", &[]);
    let mut args = base_args("/tgt/app.exe");
    args.shallow_search_dir = vec!["/sh".to_string()];
    let plat = base_plat();
    match drive(&mut sim, &args, &plat, "/tgt") {
        RunResult::Done(s) => assert_eq!(s.copies.len(), 2),
        _ => panic!("expected a finished deployment"),
    }
    match drive(&mut sim, &args, &plat, "/tgt") {
        RunResult::Done(s) => {
            assert!(s.copies.is_empty());
            assert!(s.missing.is_empty());
        }
        _ => panic!("expected a finished second deployment"),
    }
    assert_eq!(sim.copies.len(), 2);
}

#[test]
fn duplicate_declarations_deploy_once() {
    let mut sim = Sim::new();
    sim.add_file("/tgt/app.exe", "fmt", &["dd.dll", "dd.dll"]);
    sim.add_file("/sh/dd.dll", "fmt", &[]);
    let mut args = base_args("/tgt/app.exe");
    args.shallow_search_dir = vec!["/sh".to_string()];
    match drive(&mut sim, &args, &base_plat(), "/tgt") {
        RunResult::Done(s) => {
            assert_eq!(copied_names(&s), vec!["dd.dll".to_string()]);
        }
        _ => panic!("expected a finished deployment"),
    }
}

#[test]
fn copy_failure_is_fatal() {
    let mut sim = Sim::new();
    sim.add_file("/tgt/app.exe", "fmt", &["aa.dll"]);
    sim.add_file("/sh/aa.dll", "fmt", &[]);
    sim.fail_copy = true;
    let mut args = base_args("/tgt/app.exe");
    args.shallow_search_dir = vec!["/sh".to_string()];
    match drive(&mut sim, &args, &base_plat(), "/tgt") {
        RunResult::Failed(dll_deploy::engine::EngineError::CopyFailure { from, dest }) => {
            assert_eq!(from, "/sh/aa.dll");
            assert_eq!(dest, "/tgt/aa.dll");
        }
        _ => panic!("expected a copy failure"),
    }
}

#[test]
fn tool_failure_is_fatal() {
    let mut sim = Sim::new();
    sim.add_file("/tgt/app.exe", "fmt", &["aa.dll"]);
    sim.add_file("/sh/aa.dll", "fmt", &[]);
    sim.fail_tool_on.push("/tgt/app.exe".to_string());
    let args = base_args("/tgt/app.exe");
    match drive(&mut sim, &args, &base_plat(), "/tgt") {
        RunResult::Failed(dll_deploy::engine::EngineError::ToolInvocationFailure {
            path,
            detail,
        }) => {
            assert_eq!(path, "/tgt/app.exe");
            assert_eq!(detail, "tool exploded");
        }
        _ => panic!("expected a tool-invocation failure"),
    }
}

#[test]
fn disabled_shallow_phase_is_not_searched() {
    // The dependency sits in a shallow directory, but the shallow phase is
    // disabled and the deep phase looks elsewhere.
    let mut sim = Sim::new();
    sim.add_file("/tgt/app.exe", "fmt", &["aa.dll"]);
    sim.add_file("/sh/aa.dll", "fmt", &[]);
    let mut args = base_args("/tgt/app.exe");
    args.shallow_search_dir = vec!["/sh".to_string()];
    args.no_shallow_search = true;
    args.allow_missing = true;
    match drive(&mut sim, &args, &base_plat(), "/tgt") {
        RunResult::Done(s) => {
            assert!(s.copies.is_empty());
            assert_eq!(s.missing.len(), 1);
        }
        _ => panic!("expected a finished deployment"),
    }
}

#[test]
fn deep_search_checks_the_walked_root_itself() {
    let mut sim = Sim::new();
    sim.add_file("/tgt/app.exe", "fmt", &["rr.dll"]);
    sim.add_file("/dp/rr.dll", "fmt", &[]);
    let mut args = base_args("/tgt/app.exe");
    args.deep_search_dir = vec!["/dp".to_string()];
    match drive(&mut sim, &args, &base_plat(), "/tgt") {
        RunResult::Done(s) => {
            assert_eq!(s.copies.len(), 1);
            assert_eq!(s.copies[0].from, "/dp/rr.dll");
        }
        _ => panic!("expected a finished deployment"),
    }
}

#[test]
fn redistributable_skipped_unless_enabled() {
    let mut sim = Sim::new();
    sim.add_file("/tgt/app.exe", "fmt", &["api-ms-win-core-xx.dll"]);
    sim.add_file("/sh/api-ms-win-core-xx.dll", "fmt", &[]);
    let mut args = base_args("/tgt/app.exe");
    args.shallow_search_dir = vec!["/sh".to_string()];
    match drive(&mut sim, &args, &base_plat(), "/tgt") {
        RunResult::Done(s) => assert!(s.copies.is_empty()),
        _ => panic!("expected a finished deployment"),
    }
    args.copy_vc_redist = true;
    match drive(&mut sim, &args, &base_plat(), "/tgt") {
        RunResult::Done(s) => {
            assert_eq!(copied_names(&s), vec!["api-ms-win-core-xx.dll".to_string()]);
        }
        _ => panic!("expected a finished deployment"),
    }
}

#[test]
fn system_owned_by_table_is_skipped() {
    // Off the native platform the system classifier is a table lookup of
    // the lower-cased name.
    let mut sim = Sim::new();
    sim.add_file("/tgt/app.exe", "fmt", &["kernel32.dll"]);
    sim.add_file("/sh/kernel32.dll", "fmt", &[]);
    let mut args = base_args("/tgt/app.exe");
    args.shallow_search_dir = vec!["/sh".to_string()];
    let mut plat = base_plat();
    plat.system_dll_table = vec!["kernel32.dll".to_string()];
    match drive(&mut sim, &args, &plat, "/tgt") {
        RunResult::Done(s) => assert!(s.copies.is_empty()),
        _ => panic!("expected a finished deployment"),
    }
}

#[test]
fn system_owned_by_probe_is_skipped() {
    // On the native platform the system classifier probes the known
    // system directories.
    let mut sim = Sim::new();
    sim.add_file("/tgt/app.exe", "fmt", &["sys.dll"]);
    sim.add_file("C:/Windows/system32/sys.dll", "fmt", &[]);
    sim.add_file("/sh/sys.dll", "fmt", &[]);
    let mut args = base_args("/tgt/app.exe");
    args.shallow_search_dir = vec!["/sh".to_string()];
    args.skip_env_path = true;
    let mut plat = base_plat();
    plat.windows = true;
    match drive(&mut sim, &args, &plat, "/tgt") {
        RunResult::Done(s) => assert!(s.copies.is_empty()),
        _ => panic!("expected a finished deployment"),
    }
}

#[test]
fn env_path_directories_join_the_search_on_windows() {
    // On the native platform the search-path variable's existing entries
    // are searched after the explicit directories.
    let mut sim = Sim::new();
    sim.add_file("/tgt/app.exe", "fmt", &["ee.dll"]);
    sim.add_file("/envdir/ee.dll", "fmt", &[]);
    sim.dirs.push("/envdir".to_string());
    let args = base_args("/tgt/app.exe");
    let mut plat = base_plat();
    plat.windows = true;
    plat.env_path = Some("/envdir;/missingdir".to_string());
    match drive(&mut sim, &args, &plat, "/tgt") {
        RunResult::Done(s) => {
            assert_eq!(s.copies.len(), 1);
            assert_eq!(s.copies[0].from, "/envdir/ee.dll");
        }
        _ => panic!("expected a finished deployment"),
    }
}
