use vstd::prelude::*;
use crate::strutil::concat_str;

verus! {

/// One build invocation's configuration, fixed once constructed.
#[derive(Debug, Clone)]
pub struct Build {
    /// Build for the device rather than the simulator.
    pub device: bool,
    /// Build with optimizations.
    pub release: bool,
    /// Feature flags to enable.
    pub features: Vec<String>,
    /// Build a specific example rather than the library.
    pub example: Option<String>,
    /// Deploy and run after building.
    pub run: bool,
}

/// The stages of one pipeline run, in the order they may execute.
#[derive(Debug, Clone, Copy, PartialEq, Eq, Structural)]
pub enum Stage {
    /// Invoke the external build tool to produce the application code.
    CargoBuild,
    /// Compile the native startup shim (device only).
    CompileSetup,
    /// Link the shim with the static library into an executable image
    /// (device only).
    LinkBinary,
    /// Create the staging directory.
    MakeSourceDir,
    /// Extract the flat loadable binary into the staging directory
    /// (device only).
    ExtractBinary,
    /// Place the produced dynamic library into the staging directory
    /// (simulator only).
    LinkDylib,
    /// Copy the declared assets into the staging directory.
    CopyAssets,
    /// Write the metadata file into the staging directory.
    WriteMetadata,
    /// Invoke the external bundle compiler on the staging directory.
    RunBundleCompiler,
    /// Hand the produced bundle to the deployment dispatcher.
    Deploy,
}

/// The stages a configuration schedules, in fixed order.  Stages never
/// reorder; a configuration only selects which ones appear.
pub open spec fn spec_plan(device: bool, run: bool) -> Seq<Stage> {
    seq![Stage::CargoBuild] + (if device {
        seq![Stage::CompileSetup, Stage::LinkBinary]
    } else {
        seq![]
    }) + seq![Stage::MakeSourceDir] + (if device {
        seq![Stage::ExtractBinary]
    } else {
        seq![Stage::LinkDylib]
    }) + seq![Stage::CopyAssets, Stage::WriteMetadata, Stage::RunBundleCompiler] + (if run {
        seq![Stage::Deploy]
    } else {
        seq![]
    })
}

/// The stages a device-or-simulator, run-or-not configuration schedules.
fn plan_stages(device: bool, run: bool) -> (r: Vec<Stage>)
    ensures
        r@ == spec_plan(device, run),
{
    let mut r: Vec<Stage> = Vec::new();
    r.push(Stage::CargoBuild);
    if device {
        r.push(Stage::CompileSetup);
        r.push(Stage::LinkBinary);
    }
    r.push(Stage::MakeSourceDir);
    if device {
        r.push(Stage::ExtractBinary);
    } else {
        r.push(Stage::LinkDylib);
    }
    r.push(Stage::CopyAssets);
    r.push(Stage::WriteMetadata);
    r.push(Stage::RunBundleCompiler);
    if run {
        r.push(Stage::Deploy);
    }
    proof {
        assert(r@ =~= spec_plan(device, run));
    }
    r
}

impl Build {
    /// The native startup shim's source file, under the C API directory.
    pub fn setup_path(c_api_path: &str) -> (r: String)
        ensures
            r@ == c_api_path@ + "/buildsupport/setup.c"@,
    {
        concat_str(c_api_path, "/buildsupport/setup.c")
    }

    /// The stages this configuration will run, in order.
    pub fn plan(&self) -> (r: Vec<Stage>)
        ensures
            r@ == spec_plan(self.device, self.run),
    {
        plan_stages(self.device, self.run)
    }
}

// ---------------------------------------------------------------------------
// Driving a run, stage by stage
// ---------------------------------------------------------------------------

/// A pipeline run in progress.  The caller asks for the current stage,
/// performs it, and reports the outcome; a failure is absorbing: once one
/// stage fails, no further stage is ever offered.
#[derive(Debug, Clone, Copy, PartialEq, Eq, Structural)]
pub struct PipelineRun {
    pub device: bool,
    pub run: bool,
    pub idx: usize,
    pub failed: bool,
}

/// A run's position never leaves its plan.
pub open spec fn run_wf(s: PipelineRun) -> bool {
    s.idx <= spec_plan(s.device, s.run).len()
}

/// The stage a run offers next: none once it failed or finished.
pub open spec fn spec_current(s: PipelineRun) -> Option<Stage> {
    if s.failed || s.idx >= spec_plan(s.device, s.run).len() {
        None
    } else {
        Some(spec_plan(s.device, s.run)[s.idx as int])
    }
}

/// One reported outcome applied to a run.
pub open spec fn spec_step(s: PipelineRun, succeeded: bool) -> PipelineRun {
    if s.failed {
        s
    } else if !succeeded {
        PipelineRun { failed: true, ..s }
    } else if s.idx < spec_plan(s.device, s.run).len() {
        PipelineRun { idx: (s.idx + 1) as usize, ..s }
    } else {
        s
    }
}

/// A whole sequence of outcomes applied in order.
pub open spec fn spec_run_outcomes(s: PipelineRun, outcomes: Seq<bool>) -> PipelineRun
    decreases outcomes.len(),
{
    if outcomes.len() == 0 {
        s
    } else {
        spec_run_outcomes(spec_step(s, outcomes[0]), outcomes.drop_first())
    }
}

impl PipelineRun {
    /// A fresh run for a configuration: at the first stage, not failed.
    pub fn new(cfg: &Build) -> (r: PipelineRun)
        ensures
            r.device == cfg.device,
            r.run == cfg.run,
            r.idx == 0,
            !r.failed,
            run_wf(r),
    {
        PipelineRun { device: cfg.device, run: cfg.run, idx: 0, failed: false }
    }

    /// The stage to perform next, if any.
    pub fn current_stage(&self) -> (r: Option<Stage>)
        requires
            run_wf(*self),
        ensures
            r == spec_current(*self),
    {
        if self.failed {
            return None;
        }
        let plan = plan_stages(self.device, self.run);
        if self.idx < plan.len() {
            Some(plan[self.idx])
        } else {
            None
        }
    }

    /// Reports the outcome of the stage just performed.
    pub fn advance(&mut self, succeeded: bool)
        requires
            run_wf(*old(self)),
        ensures
            *final(self) == spec_step(*old(self), succeeded),
            run_wf(*final(self)),
    {
        if self.failed {
        } else if !succeeded {
            self.failed = true;
        } else {
            let plan = plan_stages(self.device, self.run);
            if self.idx < plan.len() {
                self.idx = self.idx + 1;
            }
        }
    }
}

// ---------------------------------------------------------------------------
// Stage ordering
// ---------------------------------------------------------------------------

/// The stages that actually execute for a plan, given the outcome each
/// executed stage reports: stages run in plan order, and the first failure
/// ends the run.
pub open spec fn executed_stages(plan: Seq<Stage>, outcomes: Seq<bool>) -> Seq<Stage>
    decreases plan.len(),
{
    if plan.len() == 0 || outcomes.len() == 0 {
        seq![]
    } else if outcomes[0] {
        seq![plan[0]] + executed_stages(plan.drop_first(), outcomes.drop_first())
    } else {
        seq![plan[0]]
    }
}

/// Stage ordering: when every stage before stage `k` succeeds and stage `k`
/// fails, exactly the plan's first `k + 1` stages execute — in particular no
/// stage after `k` ever runs.
pub proof fn lemma_stage_ordering(device: bool, run: bool, outcomes: Seq<bool>, k: int)
    requires
        0 <= k < outcomes.len(),
        !outcomes[k],
        forall|j: int| 0 <= j < k ==> outcomes[j],
    ensures
        executed_stages(spec_plan(device, run), outcomes) == spec_plan(device, run).take(
            if k + 1 <= spec_plan(device, run).len() {
                k + 1
            } else {
                spec_plan(device, run).len() as int
            },
        ),
{
    lemma_executed_prefix(spec_plan(device, run), outcomes, k);
}

/// The general form of the stage-ordering argument, for any plan.
proof fn lemma_executed_prefix(plan: Seq<Stage>, outcomes: Seq<bool>, k: int)
    requires
        0 <= k < outcomes.len(),
        !outcomes[k],
        forall|j: int| 0 <= j < k ==> outcomes[j],
    ensures
        executed_stages(plan, outcomes) == plan.take(
            if k + 1 <= plan.len() {
                k + 1
            } else {
                plan.len() as int
            },
        ),
    decreases k,
{
    if plan.len() == 0 {
        assert(executed_stages(plan, outcomes) =~= plan.take(0));
    } else if k == 0 {
        assert(executed_stages(plan, outcomes) =~= plan.take(1));
    } else {
        assert(outcomes[0]);
        assert(forall|j: int| 0 <= j < k - 1 ==> outcomes.drop_first()[j]);
        assert(!outcomes.drop_first()[k - 1]);
        lemma_executed_prefix(plan.drop_first(), outcomes.drop_first(), k - 1);
        let cap = if k + 1 <= plan.len() {
            k + 1
        } else {
            plan.len() as int
        };
        assert(executed_stages(plan, outcomes) =~= plan.take(cap));
    }
}

/// A failed run never offers another stage, whatever outcomes follow.
pub proof fn lemma_failure_is_absorbing(s: PipelineRun, outcomes: Seq<bool>)
    requires
        s.failed,
    ensures
        spec_run_outcomes(s, outcomes).failed,
        spec_current(spec_run_outcomes(s, outcomes)) is None,
    decreases outcomes.len(),
{
    if outcomes.len() > 0 {
        lemma_failure_is_absorbing(s, outcomes.drop_first());
    }
}

// ---------------------------------------------------------------------------
// The external build tool's invocation
// ---------------------------------------------------------------------------

/// `a` and `b` joined with a comma, and so on for the rest.
pub open spec fn spec_join_comma(items: Seq<Seq<char>>) -> Seq<char>
    decreases items.len(),
{
    if items.len() == 0 {
        seq![]
    } else if items.len() == 1 {
        items[0]
    } else {
        spec_join_comma(items.drop_last()) + seq![','] + items.last()
    }
}

/// Joins strings with commas.
pub fn join_comma(items: &Vec<String>) -> (r: String)
    ensures
        r@ == spec_join_comma(items.deep_view()),
{
    let mut r = String::new();
    let mut i: usize = 0;
    proof {
        assert(items.deep_view().take(0) =~= Seq::<Seq<char>>::empty());
    }
    while i < items.len()
        invariant
            0 <= i <= items.len(),
            items.len() == items.deep_view().len(),
            r@ == spec_join_comma(items.deep_view().take(i as int)),
        decreases items.len() - i,
    {
        if i > 0 {
            r.append(",");
        }
        r.append(items[i].as_str());
        proof {
            reveal_strlit(",");
            assert(","@ =~= seq![',']);
            let dv = items.deep_view();
            assert(dv.take(i + 1).drop_last() =~= dv.take(i as int));
            assert(dv.take(i + 1).last() == dv[i as int]);
            if i == 0 {
                assert(r@ =~= dv[0]);
            }
        }
        i += 1;
    }
    proof {
        assert(items.deep_view().take(items.len() as int) =~= items.deep_view());
    }
    r
}

/// The argument list handed to the external build tool, exactly as the
/// configuration demands it: the nightly toolchain and the embedded target
/// only for device builds, the example or the library as selected, release
/// and feature flags when asked for.
pub open spec fn spec_cargo_args(
    device: bool,
    release: bool,
    features: Seq<Seq<char>>,
    example: Option<Seq<char>>,
    manifest_path: Option<Seq<char>>,
) -> Seq<Seq<char>> {
    (if device {
        seq!["+nightly"@, "build"@]
    } else {
        seq!["build"@]
    }) + (match manifest_path {
        Some(mp) => seq!["--manifest-path"@, mp],
        None => seq![],
    }) + (match example {
        Some(ex) => seq!["--example"@, ex],
        None => seq!["--lib"@],
    }) + (if release {
        seq!["--release"@]
    } else {
        seq![]
    }) + (if features.len() > 0 {
        seq!["--features="@ + spec_join_comma(features)]
    } else {
        seq![]
    }) + (if device {
        seq![
            "--target"@,
            "thumbv7em-none-eabihf"@,
            "-Zbuild-std=core,alloc"@,
            "-Zbuild-std-features=panic_immediate_abort"@,
        ]
    } else {
        seq![]
    })
}

impl Build {
    /// The argument list for the external build tool.
    pub fn cargo_args(&self, manifest_path: Option<&str>) -> (r: Vec<String>)
        ensures
            r.deep_view() == spec_cargo_args(
                self.device,
                self.release,
                self.features.deep_view(),
                self.example.deep_view(),
                manifest_path.deep_view(),
            ),
    {
        let mut r: Vec<String> = Vec::new();
        if self.device {
            r.push("+nightly".to_owned());
        }
        r.push("build".to_owned());
        match manifest_path {
            Some(mp) => {
                r.push("--manifest-path".to_owned());
                r.push(mp.to_owned());
            },
            None => {},
        }
        match &self.example {
            Some(ex) => {
                r.push("--example".to_owned());
                r.push(ex.clone());
            },
            None => {
                r.push("--lib".to_owned());
            },
        }
        if self.release {
            r.push("--release".to_owned());
        }
        if self.features.len() > 0 {
            let joined = join_comma(&self.features);
            r.push(concat_str("--features=", joined.as_str()));
        }
        if self.device {
            r.push("--target".to_owned());
            r.push("thumbv7em-none-eabihf".to_owned());
            r.push("-Zbuild-std=core,alloc".to_owned());
            r.push("-Zbuild-std-features=panic_immediate_abort".to_owned());
        }
        proof {
            assert(r.deep_view() =~= spec_cargo_args(
                self.device,
                self.release,
                self.features.deep_view(),
                self.example.deep_view(),
                manifest_path.deep_view(),
            ));
        }
        r
    }
}

// ---------------------------------------------------------------------------
// Choosing the library target
// ---------------------------------------------------------------------------

/// One build target as the external build tool's metadata reports it: its
/// name and its crate kinds.
#[derive(Debug, Clone, PartialEq, Eq)]
pub struct CargoTargetInfo {
    pub name: String,
    pub kinds: Vec<String>,
}

/// Mathematical model of `CargoTargetInfo`.
#[verifier::ext_equal]
pub struct CargoTargetInfoView {
    pub name: Seq<char>,
    pub kinds: Seq<Seq<char>>,
}

impl View for CargoTargetInfo {
    type V = CargoTargetInfoView;

    open spec fn view(&self) -> CargoTargetInfoView {
        CargoTargetInfoView { name: self.name@, kinds: self.kinds.deep_view() }
    }
}

impl DeepView for CargoTargetInfo {
    type V = CargoTargetInfoView;

    open spec fn deep_view(&self) -> CargoTargetInfoView {
        self.view()
    }
}

/// One package as the metadata reports it: its targets.
#[derive(Debug, Clone, PartialEq, Eq)]
pub struct CargoPackageInfo {
    pub targets: Vec<CargoTargetInfo>,
}

/// A compatible library target declares both the static and the dynamic
/// crate kind.
pub open spec fn spec_is_lib_kinds(kinds: Seq<Seq<char>>) -> bool {
    kinds.contains("staticlib"@) && kinds.contains("cdylib"@)
}

/// The first compatible target of one package.
pub open spec fn spec_first_lib_in(ts: Seq<CargoTargetInfoView>) -> Option<Seq<char>>
    decreases ts.len(),
{
    if ts.len() == 0 {
        None
    } else if spec_is_lib_kinds(ts[0].kinds) {
        Some(ts[0].name)
    } else {
        spec_first_lib_in(ts.drop_first())
    }
}

/// The first compatible target over the packages, in package order.
pub open spec fn spec_select_lib_target(ps: Seq<Seq<CargoTargetInfoView>>) -> Option<Seq<char>>
    decreases ps.len(),
{
    if ps.len() == 0 {
        None
    } else {
        match spec_first_lib_in(ps[0]) {
            Some(n) => Some(n),
            None => spec_select_lib_target(ps.drop_first()),
        }
    }
}

/// Does the list hold this string?
fn kinds_contain(kinds: &Vec<String>, what: &str) -> (r: bool)
    ensures
        r == kinds.deep_view().contains(what@),
{
    let mut i: usize = 0;
    while i < kinds.len()
        invariant
            0 <= i <= kinds.len(),
            kinds.len() == kinds.deep_view().len(),
            forall|j: int| 0 <= j < i ==> kinds.deep_view()[j] != what@,
        decreases kinds.len() - i,
    {
        if crate::strutil::str_eq(kinds[i].as_str(), what) {
            proof {
                assert(kinds.deep_view()[i as int] == what@);
            }
            return true;
        }
        i += 1;
    }
    false
}

/// `spec_first_lib_in` returns the first compatible target.
proof fn lemma_first_lib_at(ts: Seq<CargoTargetInfoView>, i: int)
    requires
        0 <= i < ts.len(),
        spec_is_lib_kinds(ts[i].kinds),
        forall|j: int| 0 <= j < i ==> !spec_is_lib_kinds(#[trigger] ts[j].kinds),
    ensures
        spec_first_lib_in(ts) == Some(ts[i].name),
    decreases ts.len(),
{
    if i > 0 {
        assert(forall|j: int| 0 <= j < ts.len() - 1 ==> ts.drop_first()[j] == ts[j + 1]);
        lemma_first_lib_at(ts.drop_first(), i - 1);
    }
}

/// With no compatible target, `spec_first_lib_in` returns None.
proof fn lemma_first_lib_none(ts: Seq<CargoTargetInfoView>)
    requires
        forall|j: int| 0 <= j < ts.len() ==> !spec_is_lib_kinds(#[trigger] ts[j].kinds),
    ensures
        spec_first_lib_in(ts) is None,
    decreases ts.len(),
{
    if ts.len() > 0 {
        assert(forall|j: int| 0 <= j < ts.len() - 1 ==> ts.drop_first()[j] == ts[j + 1]);
        lemma_first_lib_none(ts.drop_first());
    }
}

/// The first compatible target of one package.
fn first_lib_in(ts: &Vec<CargoTargetInfo>) -> (r: Option<String>)
    ensures
        r.deep_view() == spec_first_lib_in(ts.deep_view()),
{
    let mut i: usize = 0;
    while i < ts.len()
        invariant
            0 <= i <= ts.len(),
            ts.len() == ts.deep_view().len(),
            forall|j: int|
                0 <= j < i ==> !spec_is_lib_kinds(#[trigger] ts.deep_view()[j].kinds),
        decreases ts.len() - i,
    {
        if kinds_contain(&ts[i].kinds, "staticlib") && kinds_contain(&ts[i].kinds, "cdylib") {
            proof {
                assert(ts@[i as int]@ == ts.deep_view()[i as int]);
                lemma_first_lib_at(ts.deep_view(), i as int);
            }
            return Some(ts[i].name.clone());
        }
        proof {
            assert(ts@[i as int]@ == ts.deep_view()[i as int]);
        }
        i += 1;
    }
    proof {
        lemma_first_lib_none(ts.deep_view());
    }
    None
}

/// The packages' target lists, as the model sees them.
pub open spec fn spec_packages_view(ps: Seq<CargoPackageInfo>) -> Seq<Seq<CargoTargetInfoView>> {
    ps.map_values(|p: CargoPackageInfo| p.targets.deep_view())
}

/// Selects the library target to build: the first target, over the
/// packages in the given order, that declares both the static and the
/// dynamic crate kind; none when no package has one.
pub fn select_lib_target(packages: &Vec<CargoPackageInfo>) -> (r: Option<String>)
    ensures
        r.deep_view() == spec_select_lib_target(spec_packages_view(packages@)),
{
    let mut i: usize = 0;
    proof {
        assert(spec_packages_view(packages@).skip(0) =~= spec_packages_view(packages@));
    }
    while i < packages.len()
        invariant
            0 <= i <= packages.len(),
            packages@.len() == packages.len(),
            spec_select_lib_target(spec_packages_view(packages@)) == spec_select_lib_target(
                spec_packages_view(packages@).skip(i as int),
            ),
        decreases packages.len() - i,
    {
        proof {
            let pv = spec_packages_view(packages@);
            assert(pv.skip(i as int)[0] == pv[i as int]);
            assert(pv.skip(i as int).drop_first() =~= pv.skip(i + 1));
        }
        match first_lib_in(&packages[i].targets) {
            Some(name) => {
                return Some(name);
            },
            None => {},
        }
        i += 1;
    }
    proof {
        assert(spec_packages_view(packages@).skip(packages.len() as int) =~= Seq::<
            Seq<CargoTargetInfoView>,
        >::empty());
    }
    None
}

// ---------------------------------------------------------------------------
// Names and directories of the build outputs
// ---------------------------------------------------------------------------

/// A target identifier as a crate name: every dash becomes an underscore.
pub open spec fn spec_dash_to_underscore(s: Seq<char>) -> Seq<char> {
    s.map_values(
        |c: char|
            if c == '-' {
                '_'
            } else {
                c
            },
    )
}

/// Turns a target identifier into the crate name the build tool gives its
/// artifacts.
pub fn sanitize_package_name(s: &str) -> (r: String)
    ensures
        r@ == spec_dash_to_underscore(s@),
{
    let n = s.unicode_len();
    let mut r = String::new();
    let mut i: usize = 0;
    proof {
        assert(r@ =~= spec_dash_to_underscore(s@.take(0)));
    }
    while i < n
        invariant
            0 <= i <= n,
            n == s@.len(),
            r@ == spec_dash_to_underscore(s@.take(i as int)),
        decreases n - i,
    {
        if s.get_char(i) == '-' {
            r.append("_");
            proof {
                reveal_strlit("_");
                assert(r@ =~= spec_dash_to_underscore(s@.take(i + 1)));
            }
        } else {
            let piece = s.substring_char(i, i + 1);
            r.append(piece);
            proof {
                assert(piece@ =~= seq![s@[i as int]]);
                assert(r@ =~= spec_dash_to_underscore(s@.take(i + 1)));
            }
        }
        i += 1;
    }
    proof {
        assert(s@.take(n as int) =~= s@);
    }
    r
}

/// The directory name of a profile's outputs.
pub fn profile_dir(release: bool) -> (r: &'static str)
    ensures
        r@ == if release {
            "release"@
        } else {
            "debug"@
        },
{
    if release {
        "release"
    } else {
        "debug"
    }
}

/// The build output root under the project.
pub fn build_output_root(project: &str) -> (r: String)
    ensures
        r@ == project@ + "/target"@,
{
    concat_str(project, "/target")
}

/// Where the embedded build's artifacts land.
pub fn device_target_dir(project: &str, release: bool) -> (r: String)
    ensures
        r@ == project@ + "/target/thumbv7em-none-eabihf/"@ + (if release {
            "release"@
        } else {
            "debug"@
        }),
{
    let mut s = concat_str(project, "/target/thumbv7em-none-eabihf/");
    s.append(profile_dir(release));
    s
}

/// Where the host build's artifacts land.
pub fn sim_target_dir(project: &str, release: bool) -> (r: String)
    ensures
        r@ == project@ + "/target/"@ + (if release {
            "release"@
        } else {
            "debug"@
        }),
{
    let mut s = concat_str(project, "/target/");
    s.append(profile_dir(release));
    s
}

/// The static library the embedded build produced.
pub fn static_lib_path(target_dir: &str, example: bool, package_name: &str) -> (r: String)
    ensures
        r@ == target_dir@ + "/"@ + (if example {
            "examples/"@
        } else {
            ""@
        }) + "lib"@ + package_name@ + ".a"@,
{
    let mut s = concat_str(target_dir, "/");
    if example {
        s.append("examples/");
    } else {
        s.append("");
    }
    s.append("lib");
    s.append(package_name);
    s.append(".a");
    s
}

/// The copy that places the flat loadable binary into the staging
/// directory: the linked image goes in as `pdex.elf`.
pub fn binary_extract_op(target_dir: &str, package_name: &str, staging_dir: &str) -> (r:
    crate::assembler::CopyOp)
    ensures
        r@.src == target_dir@ + "/"@ + package_name@ + ".elf"@,
        r@.dst == staging_dir@ + "/pdex.elf"@,
{
    let mut src = concat_str(target_dir, "/");
    src.append(package_name);
    src.append(".elf");
    crate::assembler::CopyOp { src, dst: concat_str(staging_dir, "/pdex.elf") }
}

/// The copy that places the produced dynamic library into the staging
/// directory, under the platform's naming.
pub fn dylib_copy_op(
    platform: crate::platform::Platform,
    target_dir: &str,
    package_name: &str,
    staging_dir: &str,
) -> (r: crate::assembler::CopyOp)
    ensures
        r@.src == target_dir@ + "/"@ + (match platform {
            crate::platform::Platform::MacOs => "lib"@ + package_name@ + ".dylib"@,
            crate::platform::Platform::Linux => "lib"@ + package_name@ + ".so"@,
            crate::platform::Platform::Windows => package_name@ + ".dll"@,
        }),
        r@.dst == (match platform {
            crate::platform::Platform::MacOs => staging_dir@ + "/pdex.dylib"@,
            crate::platform::Platform::Linux => staging_dir@ + "/pdex.so"@,
            crate::platform::Platform::Windows => staging_dir@ + "/pdex.dll"@,
        }),
{
    let mut src = concat_str(target_dir, "/");
    let dst;
    match platform {
        crate::platform::Platform::MacOs => {
            src.append("lib");
            src.append(package_name);
            src.append(".dylib");
            dst = concat_str(staging_dir, "/pdex.dylib");
        },
        crate::platform::Platform::Linux => {
            src.append("lib");
            src.append(package_name);
            src.append(".so");
            dst = concat_str(staging_dir, "/pdex.so");
        },
        crate::platform::Platform::Windows => {
            src.append(package_name);
            src.append(".dll");
            dst = concat_str(staging_dir, "/pdex.dll");
        },
    }
    crate::assembler::CopyOp { src, dst }
}

/// The empty placeholder binary beside a simulator bundle's library.
pub fn pdex_bin_path(staging_dir: &str) -> (r: String)
    ensures
        r@ == staging_dir@ + "/pdex.bin"@,
{
    concat_str(staging_dir, "/pdex.bin")
}

/// Where the staging directory's metadata file goes.
pub fn pdxinfo_path(staging_dir: &str) -> (r: String)
    ensures
        r@ == staging_dir@ + "/pdxinfo"@,
{
    concat_str(staging_dir, "/pdxinfo")
}

/// The compiler flags exported for device builds.
pub fn device_rustflags() -> (r: String)
    ensures
        r@
            == "-Ctarget-cpu=cortex-m7 -Ctarget-feature=-fp64 -Clink-args=--emit-relocs -Crelocation-model=pic -Cpanic=abort"@,
{
    "-Ctarget-cpu=cortex-m7 -Ctarget-feature=-fp64 -Clink-args=--emit-relocs -Crelocation-model=pic -Cpanic=abort".to_owned()
}

} // verus!
