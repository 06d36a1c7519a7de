use vstd::prelude::*;
use crate::identifier::PraziCrate;
use crate::config::Config;
use crate::catalog::Registry;
use crate::layout::{repackaged_of, staging_of, unpacked_of, workspace_of};

verus! {

/// The four per-item transform stages.
#[derive(Debug, Clone, Copy, PartialEq, Eq, Structural)]
pub enum Stage {
    /// Checks each manifest.
    Validate,
    /// Repackages each manifest without path dependencies.
    Rewrite,
    /// Builds each library; `true` selects the nightly toolchain.
    Compile(bool),
    /// Extracts a call graph from each compiled artifact.
    Extract,
}

/// Why an item is left alone by a stage.
#[derive(Debug, Clone, Copy, PartialEq, Eq, Structural)]
pub enum SkipReason {
    /// Its workspace does not exist.
    NoWorkspace,
    /// Its manifest snapshot marker is already there.
    AlreadyRewritten,
    /// No compiled artifact matched.
    NoArtifact,
    /// More than one compiled artifact matched.
    AmbiguousArtifact,
}

/// What is known of an item on disk before a stage runs on it.
pub struct Probe {
    /// Whether its workspace exists.
    pub workspace_exists: bool,
    /// Whether its manifest snapshot marker exists.
    pub marker_exists: bool,
    /// The compiled artifacts that matched its pattern.
    pub artifacts: Vec<String>,
}

/// One external command: program, arguments, working directory.
pub struct Invocation {
    pub program: String,
    pub args: Vec<String>,
    pub cwd: String,
}

/// The step a stage takes on one item.
pub enum StepPlan {
    Skip(SkipReason),
    Run(Invocation),
}

/// What to do once the command of a stage has exited.
pub enum Outcome {
    /// Report success; nothing more to do.
    Succeeded,
    /// Report failure with the command's error output.
    Failed,
    /// Unpack the new archive into the staging directory, then replace the
    /// workspace with the unpacked tree.
    Replace(ReplacePlan),
}

/// The paths that replacing a workspace by a repackaged tree uses.
pub struct ReplacePlan {
    pub archive: String,
    pub staging: String,
    pub unpacked: String,
    pub workspace: String,
}

pub open spec fn strings_view(v: Seq<String>) -> Seq<Seq<char>> {
    v.map_values(|s: String| s@)
}

/// The decision of a stage on one item: skipped (and why) or run.
pub open spec fn decide(stage: Stage, workspace_exists: bool, marker_exists: bool, n_artifacts: nat) -> Option<SkipReason> {
    if !workspace_exists {
        Some(SkipReason::NoWorkspace)
    } else if stage == Stage::Rewrite && marker_exists {
        Some(SkipReason::AlreadyRewritten)
    } else if stage == Stage::Extract && n_artifacts == 0 {
        Some(SkipReason::NoArtifact)
    } else if stage == Stage::Extract && n_artifacts > 1 {
        Some(SkipReason::AmbiguousArtifact)
    } else {
        None
    }
}

/// The toolchain a build runs with.
pub open spec fn toolchain_of(nightly: bool, stable: Seq<char>, nightly_version: Seq<char>) -> Seq<char> {
    if nightly { nightly_version } else { stable }
}

/// The program a stage runs.
pub open spec fn program_of(stage: Stage, llvm_path: Seq<char>) -> Seq<char> {
    match stage {
        Stage::Validate => "cargo"@,
        Stage::Rewrite => "cargo"@,
        Stage::Compile(_) => "rustup"@,
        Stage::Extract => llvm_path + "/bin/opt"@,
    }
}

/// The arguments a stage passes to its program.
pub open spec fn args_of(stage: Stage, toolchain: Seq<char>, artifact: Seq<char>) -> Seq<Seq<char>> {
    match stage {
        Stage::Validate => seq!["read-manifest"@],
        Stage::Rewrite => seq!["publish"@, "--no-verify"@, "--dry-run"@, "--allow-dirty"@],
        Stage::Compile(_) => seq!["run"@, toolchain, "cargo"@, "rustc"@, "--lib"@],
        Stage::Extract => seq!["-dot-callgraph"@, artifact],
    }
}

/// `plan` is the step `stage` takes on `krate` given `probe`.
pub open spec fn plan_matches(plan: StepPlan, stage: Stage, krate: PraziCrate, config: Config, probe: Probe) -> bool {
    match decide(stage, probe.workspace_exists, probe.marker_exists, probe.artifacts@.len()) {
        Some(reason) => plan == StepPlan::Skip(reason),
        None => (plan matches StepPlan::Run(inv) && {
            let toolchain = match stage {
                Stage::Compile(n) => toolchain_of(n, config.stable@, config.nightly@),
                _ => Seq::empty(),
            };
            let artifact = if stage == Stage::Extract { probe.artifacts@[0]@ } else { Seq::empty() };
            &&& inv.program@ == program_of(stage, config.llvm_path@)
            &&& strings_view(inv.args@) == args_of(stage, toolchain, artifact)
            &&& inv.cwd@ == workspace_of(config.storage_root@, krate.name@, krate.version@)
        }),
    }
}

fn push_str(v: &mut Vec<String>, s: &str)
    ensures
        strings_view(final(v)@) == strings_view(old(v)@).push(s@),
{
    v.push(s.to_owned());
    assert(strings_view(final(v)@) =~= strings_view(old(v)@).push(s@));
}

/// The arguments of `stage`, with the toolchain and the artifact where the
/// stage uses them.
pub fn stage_args(stage: Stage, toolchain: &str, artifact: &str) -> (r: Vec<String>)
    ensures
        strings_view(r@) == args_of(stage, toolchain@, artifact@),
{
    let mut v: Vec<String> = Vec::new();
    match stage {
        Stage::Validate => {
            push_str(&mut v, "read-manifest");
        },
        Stage::Rewrite => {
            push_str(&mut v, "publish");
            push_str(&mut v, "--no-verify");
            push_str(&mut v, "--dry-run");
            push_str(&mut v, "--allow-dirty");
        },
        Stage::Compile(_) => {
            push_str(&mut v, "run");
            push_str(&mut v, toolchain);
            push_str(&mut v, "cargo");
            push_str(&mut v, "rustc");
            push_str(&mut v, "--lib");
        },
        Stage::Extract => {
            push_str(&mut v, "-dot-callgraph");
            push_str(&mut v, artifact);
        },
    }
    assert(strings_view(v@) =~= args_of(stage, toolchain@, artifact@));
    v
}

/// Decides what `stage` does with `krate`: items without a workspace are
/// skipped, a rewrite is skipped once the marker exists, extraction needs
/// exactly one artifact; otherwise the stage's command runs in the workspace.
pub fn plan_item(stage: Stage, krate: &PraziCrate, config: &Config, probe: &Probe) -> (r: StepPlan)
    ensures
        plan_matches(r, stage, *krate, *config, *probe),
{
    if !probe.workspace_exists {
        return StepPlan::Skip(SkipReason::NoWorkspace);
    }
    match stage {
        Stage::Rewrite => {
            if probe.marker_exists {
                return StepPlan::Skip(SkipReason::AlreadyRewritten);
            }
        },
        Stage::Extract => {
            if probe.artifacts.len() == 0 {
                return StepPlan::Skip(SkipReason::NoArtifact);
            } else if probe.artifacts.len() > 1 {
                return StepPlan::Skip(SkipReason::AmbiguousArtifact);
            }
        },
        _ => {},
    }
    let program = match stage {
        Stage::Validate => String::from_str("cargo"),
        Stage::Rewrite => String::from_str("cargo"),
        Stage::Compile(_) => String::from_str("rustup"),
        Stage::Extract => {
            let mut p = config.llvm_path.clone();
            p.append("/bin/opt");
            p
        },
    };
    let toolchain: &str = match stage {
        Stage::Compile(n) => if n { config.nightly.as_str() } else { config.stable.as_str() },
        _ => "",
    };
    let artifact: &str = match stage {
        Stage::Extract => probe.artifacts[0].as_str(),
        _ => "",
    };
    proof {
        assert(""@ =~= Seq::<char>::empty()) by { reveal_strlit(""); }
    }
    let args = stage_args(stage, toolchain, artifact);
    StepPlan::Run(Invocation { program, args, cwd: krate.dir(config.storage_root.as_str()) })
}

/// What follows the exit of `stage`'s command on `krate`: a failure is
/// reported as such; a successful rewrite that left a new archive replaces the
/// workspace with its contents; any other success is reported as such.
pub fn after_exit(stage: Stage, krate: &PraziCrate, root: &str, success: bool, archive_exists: bool) -> (r: Outcome)
    ensures
        !success ==> r is Failed,
        success && !(stage == Stage::Rewrite && archive_exists) ==> r is Succeeded,
        success && stage == Stage::Rewrite && archive_exists ==> (r matches Outcome::Replace(p) && {
            &&& p.archive@ == repackaged_of(root@, krate.name@, krate.version@)
            &&& p.staging@ == staging_of(root@, krate.name@)
            &&& p.unpacked@ == unpacked_of(root@, krate.name@, krate.version@)
            &&& p.workspace@ == workspace_of(root@, krate.name@, krate.version@)
        }),
{
    if !success {
        Outcome::Failed
    } else if stage == Stage::Rewrite && archive_exists {
        Outcome::Replace(ReplacePlan {
            archive: krate.repackaged_archive(root),
            staging: krate.dir_src(root),
            unpacked: krate.unpacked_dir(root),
            workspace: krate.dir(root),
        })
    } else {
        Outcome::Succeeded
    }
}

/// A second rewrite of a workspace that carries the manifest snapshot marker
/// runs no command, whatever else is on disk.
pub proof fn lemma_rewrite_idempotent(workspace_exists: bool, n_artifacts: nat)
    ensures
        decide(Stage::Rewrite, workspace_exists, true, n_artifacts) is Some,
{
}

/// Extraction never runs on an item without a compiled artifact, and runs on
/// an existing workspace with exactly one.
pub proof fn lemma_extract_precondition(workspace_exists: bool, marker_exists: bool, n_artifacts: nat)
    ensures
        workspace_exists && n_artifacts == 0 ==> decide(Stage::Extract, workspace_exists, marker_exists, n_artifacts) == Some(SkipReason::NoArtifact),
        n_artifacts == 0 ==> decide(Stage::Extract, workspace_exists, marker_exists, n_artifacts) is Some,
        workspace_exists && n_artifacts == 1 ==> decide(Stage::Extract, workspace_exists, marker_exists, n_artifacts) is None,
{
}

impl Registry {
    /// The step `stage` takes on each item of the catalog, given what was
    /// found on disk for it.
    pub fn plan_stage(&self, stage: Stage, config: &Config, probes: &Vec<Probe>) -> (r: Vec<StepPlan>)
        requires
            probes@.len() == self.list@.len(),
        ensures
            r@.len() == self.list@.len(),
            forall|i: int| 0 <= i < r@.len() ==> plan_matches(#[trigger] r@[i], stage, self.list@[i], *config, probes@[i]),
    {
        let mut out: Vec<StepPlan> = Vec::new();
        let mut i: usize = 0;
        while i < self.list.len()
            invariant
                probes@.len() == self.list@.len(),
                i <= self.list@.len(),
                out@.len() == i,
                forall|k: int| 0 <= k < i ==> plan_matches(#[trigger] out@[k], stage, self.list@[k], *config, probes@[k]),
            decreases self.list@.len() - i,
        {
            let p = plan_item(stage, &self.list[i], config, &probes[i]);
            out.push(p);
            i = i + 1;
        }
        out
    }
}

} // verus!
