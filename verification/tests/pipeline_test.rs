use crank::pipeline::{
    Build, CargoPackageInfo, CargoTargetInfo, PipelineRun, Stage, build_output_root,
    device_rustflags, device_target_dir, join_comma, profile_dir, sanitize_package_name,
    select_lib_target, sim_target_dir, static_lib_path,
};
use crank::package::{Package, PackageStep, cargo_clean_args};

fn build(device: bool, run: bool) -> Build {
    Build { device, release: false, features: vec![], example: None, run }
}

#[test]
fn plan_for_the_device_orders_the_stages() {
    let p = build(true, true).plan();
    assert_eq!(
        p,
        vec![
            Stage::CargoBuild,
            Stage::CompileSetup,
            Stage::LinkBinary,
            Stage::MakeSourceDir,
            Stage::ExtractBinary,
            Stage::CopyAssets,
            Stage::WriteMetadata,
            Stage::RunBundleCompiler,
            Stage::Deploy,
        ]
    );
}

#[test]
fn plan_for_the_simulator_orders_the_stages() {
    let p = build(false, false).plan();
    assert_eq!(
        p,
        vec![
            Stage::CargoBuild,
            Stage::MakeSourceDir,
            Stage::LinkDylib,
            Stage::CopyAssets,
            Stage::WriteMetadata,
            Stage::RunBundleCompiler,
        ]
    );
}

#[test]
fn a_failed_stage_stops_the_run() {
    let cfg = build(true, false);
    let mut run = PipelineRun::new(&cfg);
    assert_eq!(run.current_stage(), Some(Stage::CargoBuild));
    run.advance(true);
    assert_eq!(run.current_stage(), Some(Stage::CompileSetup));
    run.advance(false);
    assert_eq!(run.current_stage(), None);
    run.advance(true);
    assert_eq!(run.current_stage(), None);
}

#[test]
fn a_clean_run_walks_the_whole_plan() {
    let cfg = build(false, true);
    let plan = cfg.plan();
    let mut run = PipelineRun::new(&cfg);
    let mut seen: Vec<Stage> = Vec::new();
    while let Some(stage) = run.current_stage() {
        seen.push(stage);
        run.advance(true);
    }
    assert_eq!(seen, plan);
}

#[test]
fn cargo_args_for_a_device_release_build() {
    let cfg = Build {
        device: true,
        release: true,
        features: vec![String::from("f1"), String::from("f2")],
        example: None,
        run: false,
    };
    assert_eq!(
        cfg.cargo_args(Some("/proj/Cargo.toml")),
        vec![
            "+nightly",
            "build",
            "--manifest-path",
            "/proj/Cargo.toml",
            "--lib",
            "--release",
            "--features=f1,f2",
            "--target",
            "thumbv7em-none-eabihf",
            "-Zbuild-std=core,alloc",
            "-Zbuild-std-features=panic_immediate_abort",
        ]
    );
}

#[test]
fn cargo_args_for_a_simulator_example_build() {
    let cfg = Build {
        device: false,
        release: false,
        features: vec![],
        example: Some(String::from("demo")),
        run: true,
    };
    assert_eq!(cfg.cargo_args(None), vec!["build", "--example", "demo"]);
}

#[test]
fn rustflags_for_the_device() {
    assert_eq!(
        device_rustflags(),
        "-Ctarget-cpu=cortex-m7 -Ctarget-feature=-fp64 -Clink-args=--emit-relocs -Crelocation-model=pic -Cpanic=abort"
    );
}

#[test]
fn join_comma_joins() {
    assert_eq!(join_comma(&vec![]), "");
    assert_eq!(join_comma(&vec![String::from("a")]), "a");
    assert_eq!(join_comma(&vec![String::from("a"), String::from("b")]), "a,b");
}

#[test]
fn select_lib_target_wants_both_kinds() {
    let packages = vec![
        CargoPackageInfo {
            targets: vec![CargoTargetInfo {
                name: String::from("only-static"),
                kinds: vec![String::from("staticlib")],
            }],
        },
        CargoPackageInfo {
            targets: vec![
                CargoTargetInfo { name: String::from("bin"), kinds: vec![String::from("bin")] },
                CargoTargetInfo {
                    name: String::from("game"),
                    kinds: vec![String::from("staticlib"), String::from("cdylib")],
                },
            ],
        },
    ];
    assert_eq!(select_lib_target(&packages), Some(String::from("game")));
    assert_eq!(select_lib_target(&vec![]), None);
}

#[test]
fn package_name_replaces_dashes() {
    assert_eq!(sanitize_package_name("my-game-2"), "my_game_2");
    assert_eq!(sanitize_package_name("plain"), "plain");
}

#[test]
fn setup_path_is_under_buildsupport() {
    assert_eq!(Build::setup_path("/sdk/C_API"), "/sdk/C_API/buildsupport/setup.c");
}

#[test]
fn output_paths() {
    assert_eq!(profile_dir(true), "release");
    assert_eq!(profile_dir(false), "debug");
    assert_eq!(build_output_root("/p"), "/p/target");
    assert_eq!(device_target_dir("/p", true), "/p/target/thumbv7em-none-eabihf/release");
    assert_eq!(sim_target_dir("/p", false), "/p/target/debug");
    assert_eq!(static_lib_path("/t", false, "game"), "/t/libgame.a");
    assert_eq!(static_lib_path("/t", true, "demo"), "/t/examples/libdemo.a");
}

#[test]
fn package_plan_is_the_same_whether_the_archive_exists() {
    let p = Package { example: None, features: vec![], clean: false, reveal: false };
    let first = p.plan(false);
    let second = p.plan(true);
    assert_eq!(first, second);
    assert_eq!(
        first,
        vec![
            PackageStep::BuildDevice,
            PackageStep::BuildSimulator,
            PackageStep::RemoveStaleArchive,
            PackageStep::CreateArchive,
        ]
    );
}

#[test]
fn package_plan_with_clean_and_reveal() {
    let p = Package { example: None, features: vec![], clean: true, reveal: true };
    assert_eq!(
        p.plan(true),
        vec![
            PackageStep::CleanWorkspace,
            PackageStep::BuildDevice,
            PackageStep::BuildSimulator,
            PackageStep::RemoveStaleArchive,
            PackageStep::CreateArchive,
            PackageStep::RevealArchive,
        ]
    );
}

#[test]
fn package_builds_are_release_and_do_not_run() {
    let p = Package {
        example: Some(String::from("demo")),
        features: vec![String::from("f")],
        clean: false,
        reveal: false,
    };
    let d = p.device_build();
    assert!(d.device && d.release && !d.run);
    assert_eq!(d.example, Some(String::from("demo")));
    assert_eq!(d.features, vec![String::from("f")]);
    let s = p.sim_build();
    assert!(!s.device && s.release && !s.run);
    assert_eq!(s.example, Some(String::from("demo")));
}

#[test]
fn clean_args_carry_the_manifest_path() {
    assert_eq!(cargo_clean_args(None), vec!["clean"]);
    assert_eq!(
        cargo_clean_args(Some("/p/Cargo.toml")),
        vec!["clean", "--manifest-path", "/p/Cargo.toml"]
    );
}
