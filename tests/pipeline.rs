use ini::Ini;
use prazi::config::{config_index_dir, config_latest_only, flag_enabled, Config, ConfigError, Setting};
use prazi::fetch::{should_fetch, FetchAction, FetchPlan, FetchScheduler, ItemState};
use prazi::identifier::PraziCrate;
use prazi::stage::{after_exit, plan_item, stage_args, Outcome, Probe, SkipReason, Stage, StepPlan};
use std::collections::VecDeque;

const FULL: &str = "[storage]\npath = /data\n[crates]\nindex_path = /idx\nlatest_only = true\n[compiler]\nstable = 1.30.0\nnightly = nightly-2018-10-01\n[llvm]\npath = /llvm\n";

fn config() -> Config {
    Config::from_ini(&Ini::load_from_str(FULL).unwrap()).unwrap()
}

#[test]
fn config_reads_every_setting() {
    let c = config();
    assert_eq!(c.storage_root, "/data");
    assert_eq!(c.index_path, "/idx");
    assert!(c.latest_only);
    assert_eq!(c.stable, "1.30.0");
    assert_eq!(c.nightly, "nightly-2018-10-01");
    assert_eq!(c.llvm_path, "/llvm");
}

#[test]
fn config_lookups() {
    let conf = Ini::load_from_str(FULL).unwrap();
    assert_eq!(config_index_dir(&conf), Some("/idx".to_string()));
    assert_eq!(config_latest_only(&conf), Some(true));
    let off = Ini::load_from_str("[crates]\nlatest_only = yes\n").unwrap();
    assert_eq!(config_latest_only(&off), Some(false));
    assert_eq!(config_index_dir(&off), None);
}

#[test]
fn config_reports_first_missing_setting() {
    let no_llvm = FULL.replace("[llvm]\npath = /llvm\n", "");
    let r = Config::from_ini(&Ini::load_from_str(&no_llvm).unwrap());
    assert!(matches!(r, Err(ConfigError::Missing(Setting::LlvmPath))));
    let r = Config::from_ini(&Ini::load_from_str("[crates]\nindex_path = /i\n").unwrap());
    assert!(matches!(r, Err(ConfigError::Missing(Setting::StoragePath))));
    let r = Config::from_ini(&Ini::load_from_str("[storage]\npath = /d\n").unwrap());
    assert!(matches!(r, Err(ConfigError::Missing(Setting::IndexPath))));
}

#[test]
fn flag_text() {
    assert!(flag_enabled("true"));
    assert!(!flag_enabled("True"));
    assert!(!flag_enabled(""));
}

/// Drives the scheduler against a slow network: a download completes only
/// when the scheduler has nothing left to start, oldest first.
fn simulate(total: usize, limit: usize, failing: Option<usize>) -> (FetchScheduler, usize, usize) {
    let mut s = FetchScheduler::new(total, limit);
    let mut outstanding: VecDeque<usize> = VecDeque::new();
    let mut peak = 0;
    let mut steps = 0;
    loop {
        steps += 1;
        assert!(steps < 10 * total + 10);
        match s.next_action() {
            FetchAction::Start(i) => {
                outstanding.push_back(i);
                assert!(s.in_flight() <= limit);
                peak = peak.max(s.in_flight());
            }
            FetchAction::Wait => {
                let i = outstanding.pop_front().unwrap();
                s.complete(i, Some(i) != failing);
            }
            FetchAction::Finished => break,
        }
    }
    (s, peak, steps)
}

#[test]
fn fetch_never_exceeds_ceiling() {
    let (s, peak, _) = simulate(100, 5, None);
    assert_eq!(peak, 5);
    assert_eq!(s.in_flight(), 0);
    for i in 0..100 {
        assert_eq!(s.state(i), ItemState::Done(true));
    }
}

#[test]
fn fetch_failure_is_isolated() {
    let (s, _, _) = simulate(100, 5, Some(17));
    assert_eq!(s.len(), 100);
    for i in 0..100 {
        if i == 17 {
            assert_eq!(s.state(i), ItemState::Done(false));
        } else {
            assert_eq!(s.state(i), ItemState::Done(true));
        }
    }
}

#[test]
fn fetch_of_empty_catalog_finishes_at_once() {
    let mut s = FetchScheduler::new(0, 5);
    assert_eq!(s.next_action(), FetchAction::Finished);
}

#[test]
fn fetch_waits_at_the_ceiling() {
    let mut s = FetchScheduler::new(3, 2);
    assert_eq!(s.next_action(), FetchAction::Start(0));
    assert_eq!(s.next_action(), FetchAction::Start(1));
    assert_eq!(s.next_action(), FetchAction::Wait);
    s.complete(1, false);
    assert_eq!(s.state(1), ItemState::Done(false));
    assert_eq!(s.state(0), ItemState::InFlight);
    assert_eq!(s.next_action(), FetchAction::Start(2));
    assert_eq!(s.state(2), ItemState::InFlight);
    assert_eq!(s.next_action(), FetchAction::Wait);
}

#[test]
fn fetch_skips_committed_workspaces() {
    assert!(should_fetch(false));
    assert!(!should_fetch(true));
}

fn probe(ws: bool, marker: bool, artifacts: &[&str]) -> Probe {
    Probe {
        workspace_exists: ws,
        marker_exists: marker,
        artifacts: artifacts.iter().map(|a| a.to_string()).collect(),
    }
}

fn foo() -> PraziCrate {
    PraziCrate::new("foo", "1.0.0")
}

fn skip_reason(p: StepPlan) -> Option<SkipReason> {
    match p {
        StepPlan::Skip(r) => Some(r),
        StepPlan::Run(_) => None,
    }
}

#[test]
fn missing_workspace_is_skipped_by_every_stage() {
    let c = config();
    for stage in [Stage::Validate, Stage::Rewrite, Stage::Compile(false), Stage::Extract] {
        let p = plan_item(stage, &foo(), &c, &probe(false, false, &["/a.bc"]));
        assert_eq!(skip_reason(p), Some(SkipReason::NoWorkspace));
    }
}

#[test]
fn validate_runs_read_manifest() {
    match plan_item(Stage::Validate, &foo(), &config(), &probe(true, false, &[])) {
        StepPlan::Run(inv) => {
            assert_eq!(inv.program, "cargo");
            assert_eq!(inv.args, vec!["read-manifest"]);
            assert_eq!(inv.cwd, "/data/crates/reg/foo/1.0.0");
        }
        StepPlan::Skip(_) => panic!("validate skipped"),
    }
}

#[test]
fn rewrite_is_idempotent() {
    let c = config();
    match plan_item(Stage::Rewrite, &foo(), &c, &probe(true, false, &[])) {
        StepPlan::Run(inv) => {
            assert_eq!(inv.program, "cargo");
            assert_eq!(inv.args, vec!["publish", "--no-verify", "--dry-run", "--allow-dirty"]);
        }
        StepPlan::Skip(_) => panic!("first rewrite skipped"),
    }
    let second = plan_item(Stage::Rewrite, &foo(), &c, &probe(true, true, &[]));
    assert_eq!(skip_reason(second), Some(SkipReason::AlreadyRewritten));
}

#[test]
fn compile_selects_toolchain() {
    let c = config();
    match plan_item(Stage::Compile(false), &foo(), &c, &probe(true, false, &[])) {
        StepPlan::Run(inv) => {
            assert_eq!(inv.program, "rustup");
            assert_eq!(inv.args, vec!["run", "1.30.0", "cargo", "rustc", "--lib"]);
        }
        StepPlan::Skip(_) => panic!("compile skipped"),
    }
    match plan_item(Stage::Compile(true), &foo(), &c, &probe(true, false, &[])) {
        StepPlan::Run(inv) => {
            assert_eq!(inv.args, vec!["run", "nightly-2018-10-01", "cargo", "rustc", "--lib"]);
        }
        StepPlan::Skip(_) => panic!("compile skipped"),
    }
}

#[test]
fn extraction_needs_one_artifact() {
    let c = config();
    let none = plan_item(Stage::Extract, &foo(), &c, &probe(true, false, &[]));
    assert_eq!(skip_reason(none), Some(SkipReason::NoArtifact));
    let two = plan_item(Stage::Extract, &foo(), &c, &probe(true, false, &["/a.bc", "/b.bc"]));
    assert_eq!(skip_reason(two), Some(SkipReason::AmbiguousArtifact));
    match plan_item(Stage::Extract, &foo(), &c, &probe(true, false, &["/a.bc"])) {
        StepPlan::Run(inv) => {
            assert_eq!(inv.program, "/llvm/bin/opt");
            assert_eq!(inv.args, vec!["-dot-callgraph", "/a.bc"]);
            assert_eq!(inv.cwd, "/data/crates/reg/foo/1.0.0");
        }
        StepPlan::Skip(_) => panic!("extract skipped"),
    }
}

#[test]
fn stage_arguments() {
    assert_eq!(stage_args(Stage::Validate, "t", "a"), vec!["read-manifest"]);
    assert_eq!(stage_args(Stage::Extract, "t", "a"), vec!["-dot-callgraph", "a"]);
}

#[test]
fn outcomes_after_exit() {
    let k = foo();
    assert!(matches!(after_exit(Stage::Validate, &k, "/data", false, false), Outcome::Failed));
    assert!(matches!(after_exit(Stage::Rewrite, &k, "/data", false, true), Outcome::Failed));
    assert!(matches!(after_exit(Stage::Compile(true), &k, "/data", true, true), Outcome::Succeeded));
    assert!(matches!(after_exit(Stage::Rewrite, &k, "/data", true, false), Outcome::Succeeded));
    match after_exit(Stage::Rewrite, &k, "/data", true, true) {
        Outcome::Replace(p) => {
            assert_eq!(p.archive, "/data/crates/reg/foo/1.0.0/target/package/foo-1.0.0.crate");
            assert_eq!(p.staging, "/data/crates/reg/foo");
            assert_eq!(p.unpacked, "/data/crates/reg/foo/foo-1.0.0");
            assert_eq!(p.workspace, "/data/crates/reg/foo/1.0.0");
        }
        _ => panic!("no replace"),
    }
}

#[test]
fn stub_archive_lands_in_planned_tree() {
    let root = "/corpus";
    let krate = PraziCrate::new("foo", "1.0.0");
    let plan = FetchPlan::for_crate(&krate, root);

    let mut builder = tar::Builder::new(flate2::write::GzEncoder::new(Vec::new(), flate2::Compression::default()));
    let body = b"[package]\nname = \"foo\"\n";
    let mut header = tar::Header::new_gnu();
    header.set_size(body.len() as u64);
    header.set_mode(0o644);
    header.set_cksum();
    builder.append_data(&mut header, "foo-1.0.0/Cargo.toml", &body[..]).unwrap();
    let bytes = builder.into_inner().unwrap().finish().unwrap();

    assert!(should_fetch(std::path::Path::new(&plan.workspace).exists()));
    let mut archive = tar::Archive::new(flate2::read::GzDecoder::new(&bytes[..]));
    let mut landed = Vec::new();
    for e in archive.entries().unwrap() {
        let e = e.unwrap();
        landed.push(format!("{}/{}", plan.staging, e.path().unwrap().to_str().unwrap()));
    }
    assert_eq!(landed, vec![format!("{}/Cargo.toml", plan.unpacked)]);
    assert_eq!(plan.workspace, "/corpus/crates/reg/foo/1.0.0");
}
