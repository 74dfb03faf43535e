use vstd::prelude::*;
use crate::pipeline::Build;
use crate::platform::Platform;
use crate::strutil::concat_str;
use crate::toolchain::{CommandSpec, CommandSpecView};

verus! {

/// The packaging command's options.
#[derive(Debug, Clone)]
pub struct Package {
    /// Build a specific example rather than the library.
    pub example: Option<String>,
    /// Feature flags to enable.
    pub features: Vec<String>,
    /// Clean the workspace before building.
    pub clean: bool,
    /// Reveal the resulting archive in the platform's file browser.
    pub reveal: bool,
}

/// The steps of one packaging run, in the order they may execute.
#[derive(Debug, Clone, Copy, PartialEq, Eq, Structural)]
pub enum PackageStep {
    /// Clean the workspace (only when asked to).
    CleanWorkspace,
    /// Run the full pipeline for the device, release profile.
    BuildDevice,
    /// Run the full pipeline for the simulator, release profile — only
    /// after the device build fully completed.
    BuildSimulator,
    /// Remove any archive already standing at the target path.
    RemoveStaleArchive,
    /// Compress the simulator bundle into the archive.
    CreateArchive,
    /// Reveal the archive in the file browser (only when asked to;
    /// best-effort).
    RevealArchive,
}

/// The steps a packaging run schedules.  Whether an archive already stands
/// at the target path changes nothing: the stale archive is always removed
/// before the new one is created.
pub open spec fn spec_package_plan(clean: bool, reveal: bool, archive_exists: bool) -> Seq<
    PackageStep,
> {
    (if clean {
        seq![PackageStep::CleanWorkspace]
    } else {
        seq![]
    }) + seq![
        PackageStep::BuildDevice,
        PackageStep::BuildSimulator,
        PackageStep::RemoveStaleArchive,
        PackageStep::CreateArchive,
    ] + (if reveal {
        seq![PackageStep::RevealArchive]
    } else {
        seq![]
    })
}

impl Package {
    /// The steps this run will take, in order.  `archive_exists` is what
    /// the filesystem showed for the target path; it does not change the
    /// plan.
    pub fn plan(&self, archive_exists: bool) -> (r: Vec<PackageStep>)
        ensures
            r@ == spec_package_plan(self.clean, self.reveal, archive_exists),
    {
        let mut r: Vec<PackageStep> = Vec::new();
        if self.clean {
            r.push(PackageStep::CleanWorkspace);
        }
        r.push(PackageStep::BuildDevice);
        r.push(PackageStep::BuildSimulator);
        r.push(PackageStep::RemoveStaleArchive);
        r.push(PackageStep::CreateArchive);
        if self.reveal {
            r.push(PackageStep::RevealArchive);
        }
        proof {
            assert(r@ =~= spec_package_plan(self.clean, self.reveal, archive_exists));
        }
        r
    }

    /// The device pipeline's configuration: device target, release
    /// profile, no deploy.
    pub fn device_build(&self) -> (r: Build)
        ensures
            r.device,
            r.release,
            !r.run,
            r.example.deep_view() == self.example.deep_view(),
            r.features.deep_view() == self.features.deep_view(),
    {
        Build {
            device: true,
            release: true,
            features: self.features.clone(),
            example: clone_opt_string(&self.example),
            run: false,
        }
    }

    /// The simulator pipeline's configuration: simulator target, release
    /// profile, no deploy.
    pub fn sim_build(&self) -> (r: Build)
        ensures
            !r.device,
            r.release,
            !r.run,
            r.example.deep_view() == self.example.deep_view(),
            r.features.deep_view() == self.features.deep_view(),
    {
        Build {
            device: false,
            release: true,
            features: self.features.clone(),
            example: clone_opt_string(&self.example),
            run: false,
        }
    }
}

/// A copy of an optional string.
fn clone_opt_string(s: &Option<String>) -> (r: Option<String>)
    ensures
        r.deep_view() == s.deep_view(),
{
    match s {
        Some(x) => Some(x.clone()),
        None => None,
    }
}

/// Packaging is idempotent at the planning level: a second run — the
/// archive now existing — schedules exactly the same steps as the first,
/// and in every plan the stale archive is removed at the step just before
/// the new archive is created.
pub proof fn lemma_packaging_idempotent(clean: bool, reveal: bool, e1: bool, e2: bool)
    ensures
        spec_package_plan(clean, reveal, e1) == spec_package_plan(clean, reveal, e2),
        ({
            let p = spec_package_plan(clean, reveal, e1);
            let off: int = if clean { 1 } else { 0 };
            p[off + 2] == PackageStep::RemoveStaleArchive && p[off + 3]
                == PackageStep::CreateArchive
        }),
{
}

/// The device build fully precedes the simulator build: in every plan,
/// `BuildDevice` stands immediately before `BuildSimulator`, and both come
/// before the archive steps.
pub proof fn lemma_device_build_first(clean: bool, reveal: bool, archive_exists: bool)
    ensures
        ({
            let p = spec_package_plan(clean, reveal, archive_exists);
            let off: int = if clean { 1 } else { 0 };
            p[off] == PackageStep::BuildDevice && p[off + 1] == PackageStep::BuildSimulator
        }),
{
}

/// The argument list for the external build tool's clean invocation.
pub fn cargo_clean_args(manifest_path: Option<&str>) -> (r: Vec<String>)
    ensures
        r.deep_view() == seq!["clean"@] + (match manifest_path.deep_view() {
            Some(mp) => seq!["--manifest-path"@, mp],
            None => Seq::<Seq<char>>::empty(),
        }),
{
    let mut r: Vec<String> = Vec::new();
    r.push("clean".to_owned());
    match manifest_path {
        Some(mp) => {
            r.push("--manifest-path".to_owned());
            r.push(mp.to_owned());
        },
        None => {},
    }
    proof {
        assert(r.deep_view() =~= seq!["clean"@] + (match manifest_path.deep_view() {
            Some(mp) => seq!["--manifest-path"@, mp],
            None => Seq::<Seq<char>>::empty(),
        }));
    }
    r
}

/// The platform's command for revealing the archive in its file browser.
pub fn reveal_command(platform: Platform, archive: &str, parent: &str) -> (r: CommandSpec)
    ensures
        r@ == match platform {
            Platform::Windows => CommandSpecView {
                program: "Explorer"@,
                args: seq!["/Select,"@ + archive@],
            },
            Platform::MacOs => CommandSpecView { program: "open"@, args: seq!["-R"@, archive@] },
            Platform::Linux => CommandSpecView { program: "xdg-open"@, args: seq![parent@] },
        },
{
    match platform {
        Platform::Windows => {
            let mut args: Vec<String> = Vec::new();
            args.push(concat_str("/Select,", archive));
            let r = CommandSpec { program: "Explorer".to_owned(), args };
            proof {
                assert(r@.args =~= seq!["/Select,"@ + archive@]);
            }
            r
        },
        Platform::MacOs => {
            let mut args: Vec<String> = Vec::new();
            args.push("-R".to_owned());
            args.push(archive.to_owned());
            let r = CommandSpec { program: "open".to_owned(), args };
            proof {
                assert(r@.args =~= seq!["-R"@, archive@]);
            }
            r
        },
        Platform::Linux => {
            let mut args: Vec<String> = Vec::new();
            args.push(parent.to_owned());
            let r = CommandSpec { program: "xdg-open".to_owned(), args };
            proof {
                assert(r@.args =~= seq![parent@]);
            }
            r
        },
    }
}

} // verus!
