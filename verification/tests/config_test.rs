use crank::config::{SdkCfg, CFG_DIR, CFG_FILENAME, CFG_KEY_SDK_ROOT, playdate_c_api_path, playdate_sdk_path};
use crank::platform::Platform;

#[test]
fn parse() {
    let path = "/path/PlaydateSDK-dir";
    let cfg: SdkCfg = format!("{k}\t{v}\n", k = CFG_KEY_SDK_ROOT, v = path)
        .parse()
        .unwrap();
    assert_eq!(cfg.sdk_path(), Some(String::from(path)));
}

#[test]
fn parse_empty_text_has_no_sdk_path() {
    let cfg = SdkCfg::from_text("");
    assert_eq!(cfg.sdk_path(), None);
}

#[test]
fn parse_lines_without_tab_are_skipped() {
    let cfg = SdkCfg::from_text("just a line\nanother line\n");
    assert_eq!(cfg.sdk_path(), None);
}

#[test]
fn parse_last_entry_wins() {
    let cfg = SdkCfg::from_text("SDKRoot\t/first\nSDKRoot\t/second\n");
    assert_eq!(cfg.sdk_path(), Some(String::from("/second")));
}

#[test]
fn parse_other_keys_are_kept_but_not_sdk_root() {
    let cfg = SdkCfg::from_text("Other\t/x\n");
    assert_eq!(cfg.sdk_path(), None);
}

#[test]
fn parse_value_may_hold_tabs() {
    let cfg = SdkCfg::from_text("SDKRoot\t/a\tb\n");
    assert_eq!(cfg.sdk_path(), Some(String::from("/a\tb")));
}

#[test]
fn cfg_constants() {
    assert_eq!(CFG_DIR, ".Playdate");
    assert_eq!(CFG_FILENAME, "config");
    assert_eq!(CFG_KEY_SDK_ROOT, "SDKRoot");
}

#[test]
fn sdk_path_prefers_the_config_file() {
    let r = playdate_sdk_path(
        Some("SDKRoot\t/from-config\n"),
        Some("/from-env"),
        Some("/home/me"),
        Platform::Linux,
    );
    assert_eq!(r.unwrap(), "/from-config");
}

#[test]
fn sdk_path_falls_back_to_the_environment() {
    let r = playdate_sdk_path(None, Some("/from-env"), Some("/home/me"), Platform::Linux);
    assert_eq!(r.unwrap(), "/from-env");
}

#[test]
fn sdk_path_falls_back_to_the_home_default() {
    let r = playdate_sdk_path(None, None, Some("/home/me"), Platform::Linux);
    assert_eq!(r.unwrap(), "/home/me/Developer/PlaydateSDK");
    let r = playdate_sdk_path(None, None, Some("/home/me"), Platform::Windows);
    assert_eq!(r.unwrap(), "/home/me/Documents/PlaydateSDK");
}

#[test]
fn sdk_path_without_home_fails() {
    let r = playdate_sdk_path(None, None, None, Platform::MacOs);
    let e = r.unwrap_err();
    assert!(e.is_config_error());
    assert_eq!(e.message(), "configuration error: Can't find home dir");
}

#[test]
fn sdk_path_config_without_root_falls_back() {
    let r = playdate_sdk_path(Some("Other\t/x\n"), None, Some("/home/me"), Platform::MacOs);
    assert_eq!(r.unwrap(), "/home/me/Developer/PlaydateSDK");
}

#[test]
fn c_api_path_is_under_the_sdk() {
    assert_eq!(playdate_c_api_path("/sdk"), "/sdk/C_API");
}
