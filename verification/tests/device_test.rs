use crank::device::{
    DeviceAction, DeviceEvent, DeviceSession, DeviceState, Poll, datadisk_command,
    device_bundle_dir, device_step, eject_command, pick_serial_entry, pdutil_path,
    resolve_mount_point, resolve_serial_device, resolved_serial_ok, run_command,
    SERIAL_NAME_PREFIX,
};
use crank::platform::Platform;
use crank::toolchain::{compile_setup_command, link_binary_command, pdc_command, simulator_command, simulator_fallback_command};

fn poll(serial: bool, mount: bool, games: bool) -> Poll {
    Poll { serial_present: serial, mount_present: mount, games_dir_present: games }
}

#[test]
fn short_circuit_skips_the_mode_switch() {
    let (s1, a1) = device_step(DeviceState::Idle, DeviceEvent::Polled(poll(false, true, true)));
    assert_eq!(s1, DeviceState::AwaitingMount);
    assert_ne!(a1, DeviceAction::SendDiskModeCommand);
    let (s2, a2) = device_step(s1, DeviceEvent::Polled(poll(false, true, true)));
    assert_eq!(s2, DeviceState::Copying);
    assert_eq!(a2, DeviceAction::CopyBundle);
}

#[test]
fn a_present_serial_device_is_switched_to_disk_mode() {
    let (s, a) = device_step(DeviceState::Idle, DeviceEvent::Polled(poll(true, false, false)));
    assert_eq!(s, DeviceState::AwaitingDiskMode);
    assert_eq!(a, DeviceAction::SendDiskModeCommand);
    // the device waits until the serial path disappears
    let (s, a) = device_step(s, DeviceEvent::Polled(poll(true, false, false)));
    assert_eq!((s, a), (DeviceState::AwaitingDiskMode, DeviceAction::Wait));
    let (s, _) = device_step(s, DeviceEvent::Polled(poll(false, false, false)));
    assert_eq!(s, DeviceState::AwaitingMount);
}

#[test]
fn the_mount_needs_its_games_directory() {
    let (s, a) = device_step(
        DeviceState::AwaitingMount,
        DeviceEvent::Polled(poll(false, true, false)),
    );
    assert_eq!((s, a), (DeviceState::AwaitingMount, DeviceAction::Wait));
}

#[test]
fn the_whole_deploy_walks_forward() {
    let s = DeviceState::Copying;
    let (s, a) = device_step(s, DeviceEvent::ActionOutcome(true));
    assert_eq!((s, a), (DeviceState::Ejecting, DeviceAction::EjectVolume));
    // eject failure is non-fatal
    let (s, _) = device_step(s, DeviceEvent::ActionOutcome(false));
    assert_eq!(s, DeviceState::AwaitingSerialReturn);
    let (s, _) = device_step(s, DeviceEvent::Polled(poll(false, false, false)));
    assert_eq!(s, DeviceState::AwaitingSerialReturn);
    let (s, a) = device_step(s, DeviceEvent::Polled(poll(true, false, false)));
    assert_eq!((s, a), (DeviceState::Running, DeviceAction::SendRunCommand));
}

#[test]
fn a_failed_copy_is_terminal() {
    let (s, _) = device_step(DeviceState::Copying, DeviceEvent::ActionOutcome(false));
    assert_eq!(s, DeviceState::Failed);
    let (s, a) = device_step(s, DeviceEvent::Polled(poll(true, true, true)));
    assert_eq!((s, a), (DeviceState::Failed, DeviceAction::Done));
}

#[test]
fn a_session_keeps_its_paths_and_moves_its_state() {
    let mut s = DeviceSession::new(String::from("/dev/ttyACM0"), String::from("/mnt/PLAYDATE"));
    assert_eq!(s.state, DeviceState::Idle);
    let a = s.step(DeviceEvent::Polled(poll(true, false, false)));
    assert_eq!(a, DeviceAction::SendDiskModeCommand);
    assert_eq!(s.state, DeviceState::AwaitingDiskMode);
    assert_eq!(s.serial_device, "/dev/ttyACM0");
    assert_eq!(s.mount_point, "/mnt/PLAYDATE");
}

#[test]
fn serial_device_resolution_order() {
    assert_eq!(
        resolve_serial_device(Platform::Linux, Some("/dev/override"), Some("/dev/ttyACM7")),
        "/dev/override"
    );
    assert_eq!(
        resolve_serial_device(Platform::Linux, None, Some("/dev/ttyACM7")),
        "/dev/ttyACM7"
    );
    assert_eq!(resolve_serial_device(Platform::Linux, None, None), "/dev/ttyACM0");
    assert_eq!(
        resolve_serial_device(Platform::MacOs, None, None),
        "/dev/cu.usbmodemPDU1_Y0005491"
    );
}

#[test]
fn mount_point_resolution_order() {
    assert_eq!(resolve_mount_point(Platform::MacOs, Some("/mnt/o"), "me"), "/mnt/o");
    assert_eq!(resolve_mount_point(Platform::MacOs, None, "me"), "/Volumes/PLAYDATE");
    assert_eq!(resolve_mount_point(Platform::Linux, None, "me"), "/run/media/me/PLAYDATE");
}

#[test]
fn the_first_matching_serial_entry_wins() {
    let names = vec![
        String::from("usb-Other_Gadget-0"),
        format!("{}A", SERIAL_NAME_PREFIX),
        format!("{}B", SERIAL_NAME_PREFIX),
    ];
    assert_eq!(pick_serial_entry(&names), Some(format!("{}A", SERIAL_NAME_PREFIX)));
    assert_eq!(pick_serial_entry(&vec![String::from("usb-Other_Gadget-0")]), None);
}

#[test]
fn a_resolved_device_must_mention_tty() {
    assert!(resolved_serial_ok("/dev/ttyACM0"));
    assert!(!resolved_serial_ok("/dev/sda1"));
}

#[test]
fn device_commands() {
    assert_eq!(pdutil_path("/sdk", Platform::Linux), "/sdk/bin/pdutil");
    assert_eq!(pdutil_path("/sdk", Platform::Windows), "/sdk/bin/PDUTIL.EXE");
    let c = datadisk_command("/sdk/bin/pdutil", "/dev/ttyACM0", "/t/Game.pdx");
    assert_eq!(c.program, "/sdk/bin/pdutil");
    assert_eq!(c.args, vec!["/dev/ttyACM0", "datadisk", "/t/Game.pdx"]);
    let r = run_command("/sdk/bin/pdutil", "/dev/ttyACM0", "Game");
    assert_eq!(r.args, vec!["/dev/ttyACM0", "run", "/Games/Game.pdx"]);
    assert_eq!(device_bundle_dir("Game"), "Game.pdx");
}

#[test]
fn eject_commands_differ_by_platform() {
    let mac = eject_command(Platform::MacOs, "/Volumes/PLAYDATE");
    assert_eq!(mac.program, "diskutil");
    assert_eq!(mac.args, vec!["eject", "/Volumes/PLAYDATE"]);
    let linux = eject_command(Platform::Linux, "/run/media/me/PLAYDATE");
    assert_eq!(linux.program, "eject");
    assert_eq!(linux.args, vec!["/run/media/me/PLAYDATE"]);
}

#[test]
fn compile_and_link_commands_carry_the_fixed_flags() {
    let c = compile_setup_command("arm-none-eabi-gcc", "/sdk/C_API", "/t");
    assert_eq!(c.program, "arm-none-eabi-gcc");
    assert_eq!(c.args[0], "-g3");
    assert_eq!(c.args[c.args.len() - 5], "/sdk/C_API/buildsupport/setup.c");
    assert_eq!(c.args[c.args.len() - 4], "-I");
    assert_eq!(c.args[c.args.len() - 3], "/sdk/C_API");
    assert_eq!(c.args[c.args.len() - 2], "-o");
    assert_eq!(c.args[c.args.len() - 1], "/t/setup.o");

    let l = link_binary_command("arm-none-eabi-gcc", "/sdk/C_API", "/t", "game", "/t/libgame.a");
    assert_eq!(l.args[0], "/t/setup.o");
    assert_eq!(l.args[1], "/t/libgame.a");
    assert_eq!(l.args[l.args.len() - 6], "-T");
    assert_eq!(l.args[l.args.len() - 5], "/sdk/C_API/buildsupport/link_map.ld");
    assert_eq!(l.args[l.args.len() - 4], "-o");
    assert_eq!(l.args[l.args.len() - 3], "/t/game.elf");
    assert_eq!(l.args[l.args.len() - 2], "--entry");
    assert_eq!(l.args[l.args.len() - 1], "eventHandlerShim");
}

#[test]
fn bundle_compiler_command() {
    let c = pdc_command("/sdk", Platform::Linux, "/t/Game", "/t/Game.pdx");
    assert_eq!(c.program, "/sdk/bin/pdc");
    assert_eq!(c.args, vec!["--strip", "/t/Game", "/t/Game.pdx"]);
}

#[test]
fn simulator_commands_differ_by_platform() {
    let mac = simulator_command(Platform::MacOs, "/t/Game.pdx");
    assert_eq!(mac.program, "open");
    assert_eq!(mac.args, vec!["-a", "Playdate Simulator", "/t/Game.pdx"]);
    let lin = simulator_command(Platform::Linux, "/t/Game.pdx");
    assert_eq!(lin.program, "PlaydateSimulator");
    assert_eq!(lin.args, vec!["/t/Game.pdx"]);
    let win = simulator_command(Platform::Windows, "/t/Game.pdx");
    assert_eq!(win.program, "PlaydateSimulator.exe");
    let fb = simulator_fallback_command("/sdk", "/t/Game.pdx");
    assert_eq!(fb.program, "/sdk/bin/PlaydateSimulator");
    assert_eq!(fb.args, vec!["/t/Game.pdx"]);
}
