use crank::assembler::{archive_path, asset_copy_plan, join_path, parent_dir, pdx_dest_path, staging_dir_path};
use crank::manifest::parse_manifest;
use crank::pdxinfo::render_pdxinfo;
use crank::manifest::Metadata;
use crank::title::derive_title;

fn empty_meta() -> Metadata {
    Metadata {
        name: None,
        author: None,
        description: None,
        bundle_id: None,
        version: None,
        build_number: None,
        image_path: None,
        launch_sound_path: None,
    }
}

#[test]
fn pdxinfo_with_name_and_version_is_exactly_two_lines() {
    let m = Metadata {
        name: Some(String::from("Foo")),
        version: Some(String::from("1.0")),
        ..empty_meta()
    };
    assert_eq!(render_pdxinfo(&m), "name=Foo\nversion=1.0\n");
}

#[test]
fn pdxinfo_absent_fields_produce_no_lines() {
    assert_eq!(render_pdxinfo(&empty_meta()), "");
}

#[test]
fn pdxinfo_fields_come_in_fixed_order() {
    let m = Metadata {
        name: Some(String::from("N")),
        author: Some(String::from("A")),
        description: Some(String::from("D")),
        bundle_id: Some(String::from("B")),
        version: Some(String::from("V")),
        build_number: Some(12034),
        image_path: Some(String::from("I")),
        launch_sound_path: Some(String::from("L")),
    };
    assert_eq!(
        render_pdxinfo(&m),
        "name=N\nauthor=A\ndescription=D\nbundleID=B\nversion=V\nbuildNumber=12034\nimagePath=I\nlaunchSoundPath=L\n"
    );
}

#[test]
fn pdxinfo_order_does_not_follow_declaration_order() {
    let m = Metadata {
        version: Some(String::from("2")),
        name: Some(String::from("Z")),
        ..empty_meta()
    };
    assert_eq!(render_pdxinfo(&m), "name=Z\nversion=2\n");
}

#[test]
fn title_prefers_the_declared_metadata_name() {
    let m = parse_manifest("[[target]]\nname = \"my-game\"\n[target.metadata]\nname = \"Special\"\n").unwrap();
    assert_eq!(derive_title(&m, "my-game"), "Special");
}

#[test]
fn title_word_cases_the_raw_identifier() {
    let m = parse_manifest("").unwrap();
    assert_eq!(derive_title(&m, "hello-world"), "Hello World");
    assert_eq!(derive_title(&m, "crab_crap"), "Crab Crap");
    assert_eq!(derive_title(&m, "foobar"), "Foobar");
}

#[test]
fn title_is_deterministic() {
    let m = parse_manifest("").unwrap();
    assert_eq!(derive_title(&m, "some-game"), derive_title(&m, "some-game"));
}

#[test]
fn asset_plan_mirrors_relative_paths() {
    let m = parse_manifest("[[target]]\nname = \"t\"\nassets = [\"images/a.png\", \"b.txt\"]\n").unwrap();
    let plan = asset_copy_plan(&m, "t", "/proj", "/proj/target/Game");
    assert_eq!(plan.len(), 2);
    assert_eq!(plan[0].src, "/proj/images/a.png");
    assert_eq!(plan[0].dst, "/proj/target/Game/images/a.png");
    assert_eq!(plan[1].src, "/proj/b.txt");
    assert_eq!(plan[1].dst, "/proj/target/Game/b.txt");
}

#[test]
fn asset_plan_is_empty_without_declared_assets() {
    let m = parse_manifest("[[target]]\nname = \"t\"\n").unwrap();
    assert_eq!(asset_copy_plan(&m, "t", "/p", "/d").len(), 0);
    assert_eq!(asset_copy_plan(&m, "missing", "/p", "/d").len(), 0);
}

#[test]
fn bundle_names_share_one_title() {
    assert_eq!(staging_dir_path("/t", "Game"), "/t/Game");
    assert_eq!(pdx_dest_path("/t", "Game"), "/t/Game.pdx");
    assert_eq!(archive_path("/t", "Game"), "/t/Game.pdx.zip");
}

#[test]
fn parent_dir_stops_at_the_last_slash() {
    assert_eq!(parent_dir("/a/b/c.png"), Some("/a/b"));
    assert_eq!(parent_dir("c.png"), None);
    assert_eq!(parent_dir("/c"), Some(""));
}

#[test]
fn join_path_inserts_one_slash() {
    assert_eq!(join_path("/a", "b/c"), "/a/b/c");
}
