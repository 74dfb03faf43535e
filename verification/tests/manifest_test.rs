use crank::manifest::{parse_manifest, Manifest, Metadata, Target};

fn meta_with(name: Option<&str>, version: Option<&str>, build_number: Option<u64>) -> Metadata {
    Metadata {
        name: name.map(String::from),
        author: None,
        description: None,
        bundle_id: None,
        version: version.map(String::from),
        build_number,
        image_path: None,
        launch_sound_path: None,
    }
}

#[test]
fn parse_empty_text_is_an_empty_manifest() {
    let m = parse_manifest("").unwrap();
    assert_eq!(m.targets.len(), 0);
}

#[test]
fn parse_blank_lines_and_comments_say_nothing() {
    let m = parse_manifest("\n  \n# a comment\n\t# another\n").unwrap();
    assert_eq!(m.targets.len(), 0);
}

#[test]
fn parse_one_target_round_trips_through_lookup() {
    let text = "[[target]]\nname = \"game\"\nassets = [\"images/a.png\", \"sounds/b.wav\"]\n\n[target.metadata]\nname = \"My Game\"\nversion = \"1.0\"\nbuild_number = 42\n";
    let m = parse_manifest(text).unwrap();
    let t = m.get_target("game").unwrap();
    assert_eq!(t.name, "game");
    assert_eq!(
        t.assets,
        Some(vec![String::from("images/a.png"), String::from("sounds/b.wav")])
    );
    let meta = t.metadata.as_ref().unwrap();
    assert_eq!(meta.name.as_deref(), Some("My Game"));
    assert_eq!(meta.version.as_deref(), Some("1.0"));
    assert_eq!(meta.build_number, Some(42));
    assert_eq!(meta.author, None);
    assert_eq!(meta.description, None);
    assert_eq!(meta.bundle_id, None);
    assert_eq!(meta.image_path, None);
    assert_eq!(meta.launch_sound_path, None);
}

#[test]
fn parse_two_targets_keep_declaration_order() {
    let text = "[[target]]\nname = \"one\"\n[[target]]\nname = \"two\"\nassets = []\n";
    let m = parse_manifest(text).unwrap();
    assert_eq!(m.targets.len(), 2);
    assert_eq!(m.targets[0].name, "one");
    assert_eq!(m.targets[0].assets, None);
    assert_eq!(m.targets[1].name, "two");
    assert_eq!(m.targets[1].assets, Some(vec![]));
}

#[test]
fn parse_all_metadata_fields() {
    let text = "[[target]]\nname = \"g\"\n[target.metadata]\nname = \"G\"\nauthor = \"Me\"\ndescription = \"A game\"\nbundle_id = \"com.example.g\"\nversion = \"0.1\"\nbuild_number = 7\nimage_path = \"card\"\nlaunch_sound_path = \"snd\"\n";
    let m = parse_manifest(text).unwrap();
    let meta = m.targets[0].metadata.as_ref().unwrap();
    assert_eq!(meta.name.as_deref(), Some("G"));
    assert_eq!(meta.author.as_deref(), Some("Me"));
    assert_eq!(meta.description.as_deref(), Some("A game"));
    assert_eq!(meta.bundle_id.as_deref(), Some("com.example.g"));
    assert_eq!(meta.version.as_deref(), Some("0.1"));
    assert_eq!(meta.build_number, Some(7));
    assert_eq!(meta.image_path.as_deref(), Some("card"));
    assert_eq!(meta.launch_sound_path.as_deref(), Some("snd"));
}

#[test]
fn parse_unknown_keys_are_ignored() {
    let text = "stray = \"top\"\n[[target]]\nname = \"g\"\nother = \"x\"\n[target.metadata]\nweird = 3\n";
    let m = parse_manifest(text).unwrap();
    assert_eq!(m.targets.len(), 1);
    assert_eq!(m.targets[0].name, "g");
}

#[test]
fn parse_malformed_line_is_an_error() {
    let e = parse_manifest("[[target]]\nname \"g\"\n").unwrap_err();
    assert!(e.is_config_error());
}

#[test]
fn parse_wrong_value_shape_is_an_error() {
    assert!(parse_manifest("[[target]]\nname = 5\n").is_err());
    assert!(parse_manifest("[[target]]\nname = \"g\"\nassets = \"a\"\n").is_err());
    assert!(parse_manifest("[[target]]\nname = \"g\"\n[target.metadata]\nbuild_number = \"x\"\n").is_err());
}

#[test]
fn parse_target_without_name_is_an_error() {
    assert!(parse_manifest("[[target]]\nassets = []\n").is_err());
    assert!(parse_manifest("[[target]]\n").is_err());
}

#[test]
fn parse_metadata_outside_a_target_is_an_error() {
    assert!(parse_manifest("[target.metadata]\nname = \"G\"\n").is_err());
}

#[test]
fn parse_build_number_beyond_u64_is_an_error() {
    assert!(parse_manifest(
        "[[target]]\nname = \"g\"\n[target.metadata]\nbuild_number = 99999999999999999999999\n"
    )
    .is_err());
    let ok = parse_manifest(
        "[[target]]\nname = \"g\"\n[target.metadata]\nbuild_number = 18446744073709551615\n",
    )
    .unwrap();
    assert_eq!(
        ok.targets[0].metadata.as_ref().unwrap().build_number,
        Some(u64::MAX)
    );
}

#[test]
fn parse_tolerates_spacing_and_crlf() {
    let text = "  [[target]]  \r\n  name   =   \"g\"  \r\n";
    let m = parse_manifest(text).unwrap();
    assert_eq!(m.targets[0].name, "g");
}

#[test]
fn parse_later_value_for_a_key_wins() {
    let m = parse_manifest("[[target]]\nname = \"a\"\nname = \"b\"\n").unwrap();
    assert_eq!(m.targets.len(), 1);
    assert_eq!(m.targets[0].name, "b");
}

#[test]
fn get_target_returns_the_first_match_or_none() {
    let m = Manifest {
        targets: vec![
            Target { name: String::from("a"), assets: None, metadata: None },
            Target {
                name: String::from("a"),
                assets: Some(vec![String::from("x")]),
                metadata: None,
            },
        ],
    };
    let t = m.get_target("a").unwrap();
    assert_eq!(t.assets, None);
    assert!(m.get_target("b").is_none());
}

#[test]
fn lookup_after_parsing_returns_what_was_declared() {
    let declared_assets = vec![String::from("images/a.png")];
    let declared_meta = meta_with(Some("Foo"), Some("1.0"), None);
    let text = "[[target]]\nname = \"t\"\nassets = [\"images/a.png\"]\n[target.metadata]\nname = \"Foo\"\nversion = \"1.0\"\n";
    let m = parse_manifest(text).unwrap();
    let t = m.get_target("t").unwrap();
    assert_eq!(t.assets.as_ref(), Some(&declared_assets));
    assert_eq!(t.metadata.as_ref(), Some(&declared_meta));
}
