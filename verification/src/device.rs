use vstd::prelude::*;
use crate::platform::{Platform, spec_pdutil_name, pdutil_name};
use crate::strutil::{concat_str, contains_seq, contains_str, has_prefix, starts_with_str};
use crate::toolchain::{CommandSpec, CommandSpecView};
use crate::assembler::join_path;

verus! {

// ---------------------------------------------------------------------------
// The deployment state machine
// ---------------------------------------------------------------------------

/// The states a device deployment passes through.  Transitions only move
/// forward; the one exception is the terminal `Failed`, reachable from any
/// state on an unrecoverable error.
#[derive(Debug, Clone, Copy, PartialEq, Eq, Structural)]
pub enum DeviceState {
    Idle,
    AwaitingDiskMode,
    AwaitingMount,
    Copying,
    Ejecting,
    AwaitingSerialReturn,
    Running,
    Failed,
}

/// What one filesystem poll observed.
#[derive(Debug, Clone, Copy, PartialEq, Eq, Structural)]
pub struct Poll {
    /// The serial-device path exists.
    pub serial_present: bool,
    /// The mount path exists.
    pub mount_present: bool,
    /// The required subdirectory under the mount exists.
    pub games_dir_present: bool,
}

/// What the machine asks its driver to do next.
#[derive(Debug, Clone, Copy, PartialEq, Eq, Structural)]
pub enum DeviceAction {
    /// Send the mass-storage-mode command over the serial device.
    SendDiskModeCommand,
    /// Sleep one tick, then poll again.
    Wait,
    /// Copy the bundle tree onto the mounted volume.
    CopyBundle,
    /// Issue the platform eject command for the mount.
    EjectVolume,
    /// Send the run command over the serial device, naming the bundle.
    SendRunCommand,
    /// Nothing: the machine is done or has failed.
    Done,
}

/// What the driver reports back to the machine.
#[derive(Debug, Clone, Copy, PartialEq, Eq, Structural)]
pub enum DeviceEvent {
    /// A fresh poll of the filesystem.
    Polled(Poll),
    /// Whether the action just requested could be carried out.  For a
    /// command this means it was spawned and waited for; a nonzero exit of
    /// the mode-switch, eject and run commands is not itself a failure.
    ActionOutcome(bool),
}

/// How far along a state is; `Failed` stands outside the order.
pub open spec fn state_index(s: DeviceState) -> int {
    match s {
        DeviceState::Idle => 0,
        DeviceState::AwaitingDiskMode => 1,
        DeviceState::AwaitingMount => 2,
        DeviceState::Copying => 3,
        DeviceState::Ejecting => 4,
        DeviceState::AwaitingSerialReturn => 5,
        DeviceState::Running => 6,
        DeviceState::Failed => 7,
    }
}

/// One event applied to a state: the next state and what to do on entering
/// it.
pub open spec fn spec_device_step(s: DeviceState, e: DeviceEvent) -> (DeviceState, DeviceAction) {
    match (s, e) {
        (DeviceState::Idle, DeviceEvent::Polled(p)) => if p.serial_present {
            (DeviceState::AwaitingDiskMode, DeviceAction::SendDiskModeCommand)
        } else {
            (DeviceState::AwaitingMount, DeviceAction::Wait)
        },
        (DeviceState::AwaitingDiskMode, DeviceEvent::Polled(p)) => if p.serial_present {
            (DeviceState::AwaitingDiskMode, DeviceAction::Wait)
        } else {
            (DeviceState::AwaitingMount, DeviceAction::Wait)
        },
        (DeviceState::AwaitingMount, DeviceEvent::Polled(p)) => if p.mount_present
            && p.games_dir_present {
            (DeviceState::Copying, DeviceAction::CopyBundle)
        } else {
            (DeviceState::AwaitingMount, DeviceAction::Wait)
        },
        (DeviceState::Copying, DeviceEvent::ActionOutcome(ok)) => if ok {
            (DeviceState::Ejecting, DeviceAction::EjectVolume)
        } else {
            (DeviceState::Failed, DeviceAction::Done)
        },
        // eject failure is best-effort: the machine proceeds regardless
        (DeviceState::Ejecting, DeviceEvent::ActionOutcome(_)) => (
            DeviceState::AwaitingSerialReturn,
            DeviceAction::Wait,
        ),
        (DeviceState::AwaitingSerialReturn, DeviceEvent::Polled(p)) => if p.serial_present {
            (DeviceState::Running, DeviceAction::SendRunCommand)
        } else {
            (DeviceState::AwaitingSerialReturn, DeviceAction::Wait)
        },
        (DeviceState::Running, DeviceEvent::ActionOutcome(ok)) => if ok {
            (DeviceState::Running, DeviceAction::Done)
        } else {
            (DeviceState::Failed, DeviceAction::Done)
        },
        // the mode-switch command could not be carried out at all
        (DeviceState::AwaitingDiskMode, DeviceEvent::ActionOutcome(ok)) => if ok {
            (DeviceState::AwaitingDiskMode, DeviceAction::Wait)
        } else {
            (DeviceState::Failed, DeviceAction::Done)
        },
        (DeviceState::Failed, _) => (DeviceState::Failed, DeviceAction::Done),
        // an event that does not belong to the state changes nothing
        _ => (s, DeviceAction::Wait),
    }
}

/// Executable mirror of `spec_device_step`.
pub fn device_step(s: DeviceState, e: DeviceEvent) -> (r: (DeviceState, DeviceAction))
    ensures
        r == spec_device_step(s, e),
{
    match (s, e) {
        (DeviceState::Idle, DeviceEvent::Polled(p)) => if p.serial_present {
            (DeviceState::AwaitingDiskMode, DeviceAction::SendDiskModeCommand)
        } else {
            (DeviceState::AwaitingMount, DeviceAction::Wait)
        },
        (DeviceState::AwaitingDiskMode, DeviceEvent::Polled(p)) => if p.serial_present {
            (DeviceState::AwaitingDiskMode, DeviceAction::Wait)
        } else {
            (DeviceState::AwaitingMount, DeviceAction::Wait)
        },
        (DeviceState::AwaitingMount, DeviceEvent::Polled(p)) => if p.mount_present
            && p.games_dir_present {
            (DeviceState::Copying, DeviceAction::CopyBundle)
        } else {
            (DeviceState::AwaitingMount, DeviceAction::Wait)
        },
        (DeviceState::Copying, DeviceEvent::ActionOutcome(ok)) => if ok {
            (DeviceState::Ejecting, DeviceAction::EjectVolume)
        } else {
            (DeviceState::Failed, DeviceAction::Done)
        },
        (DeviceState::Ejecting, DeviceEvent::ActionOutcome(_)) => (
            DeviceState::AwaitingSerialReturn,
            DeviceAction::Wait,
        ),
        (DeviceState::AwaitingSerialReturn, DeviceEvent::Polled(p)) => if p.serial_present {
            (DeviceState::Running, DeviceAction::SendRunCommand)
        } else {
            (DeviceState::AwaitingSerialReturn, DeviceAction::Wait)
        },
        (DeviceState::Running, DeviceEvent::ActionOutcome(ok)) => if ok {
            (DeviceState::Running, DeviceAction::Done)
        } else {
            (DeviceState::Failed, DeviceAction::Done)
        },
        (DeviceState::AwaitingDiskMode, DeviceEvent::ActionOutcome(ok)) => if ok {
            (DeviceState::AwaitingDiskMode, DeviceAction::Wait)
        } else {
            (DeviceState::Failed, DeviceAction::Done)
        },
        (DeviceState::Failed, _) => (DeviceState::Failed, DeviceAction::Done),
        _ => (s, DeviceAction::Wait),
    }
}

/// Transitions are strictly forward: every step either keeps or advances
/// the state's position, or lands in the terminal `Failed`; and `Failed` is
/// absorbing.
pub proof fn lemma_transitions_forward(s: DeviceState, e: DeviceEvent)
    ensures
        spec_device_step(s, e).0 == DeviceState::Failed || state_index(spec_device_step(s, e).0)
            >= state_index(s),
        s == DeviceState::Failed ==> spec_device_step(s, e).0 == DeviceState::Failed,
{
}

/// Short-circuit: when the serial device is absent at the very first poll,
/// the machine skips the mode switch — no `SendDiskModeCommand` is ever
/// issued — and, the mount being ready, moves straight on to copying.
pub proof fn lemma_short_circuit(p1: Poll, p2: Poll)
    requires
        !p1.serial_present,
        p2.mount_present,
        p2.games_dir_present,
    ensures
        spec_device_step(DeviceState::Idle, DeviceEvent::Polled(p1)) == (
            DeviceState::AwaitingMount,
            DeviceAction::Wait,
        ),
        spec_device_step(DeviceState::AwaitingMount, DeviceEvent::Polled(p2)) == (
            DeviceState::Copying,
            DeviceAction::CopyBundle,
        ),
        spec_device_step(DeviceState::Idle, DeviceEvent::Polled(p1)).1
            != DeviceAction::SendDiskModeCommand,
        spec_device_step(DeviceState::AwaitingMount, DeviceEvent::Polled(p2)).1
            != DeviceAction::SendDiskModeCommand,
{
}

/// One device-deploy attempt: the resolved serial-device path, the resolved
/// mount path, and where the attempt stands.  It lives for one attempt and
/// keeps no history.
#[derive(Debug, Clone, PartialEq, Eq)]
pub struct DeviceSession {
    pub serial_device: String,
    pub mount_point: String,
    pub state: DeviceState,
}

impl DeviceSession {
    /// A fresh attempt, idle, against the given paths.
    pub fn new(serial_device: String, mount_point: String) -> (r: DeviceSession)
        ensures
            r.state == DeviceState::Idle,
            r.serial_device == serial_device,
            r.mount_point == mount_point,
    {
        DeviceSession { serial_device, mount_point, state: DeviceState::Idle }
    }

    /// One event applied to the attempt: the state moves as the machine
    /// says, the paths never change, and what comes back is the action to
    /// perform on entering the new state.
    pub fn step(&mut self, e: DeviceEvent) -> (r: DeviceAction)
        ensures
            (final(self).state, r) == spec_device_step(old(self).state, e),
            final(self).serial_device == old(self).serial_device,
            final(self).mount_point == old(self).mount_point,
    {
        let (next, action) = device_step(self.state, e);
        self.state = next;
        action
    }
}

// ---------------------------------------------------------------------------
// Where the device lives
// ---------------------------------------------------------------------------

/// The serial-device path to use: an environment override wins; otherwise a
/// discovered device; otherwise the platform default.
pub open spec fn spec_serial_device(
    platform: Platform,
    env_override: Option<Seq<char>>,
    discovered: Option<Seq<char>>,
) -> Seq<char> {
    match env_override {
        Some(e) => e,
        None => match discovered {
            Some(d) => d,
            None => match platform {
                Platform::MacOs => "/dev/cu.usbmodemPDU1_Y0005491"@,
                _ => "/dev/ttyACM0"@,
            },
        },
    }
}

/// Resolves the serial-device path.
pub fn resolve_serial_device(
    platform: Platform,
    env_override: Option<&str>,
    discovered: Option<&str>,
) -> (r: String)
    ensures
        r@ == spec_serial_device(platform, env_override.deep_view(), discovered.deep_view()),
{
    match env_override {
        Some(e) => e.to_owned(),
        None => match discovered {
            Some(d) => d.to_owned(),
            None => match platform {
                Platform::MacOs => "/dev/cu.usbmodemPDU1_Y0005491".to_owned(),
                _ => "/dev/ttyACM0".to_owned(),
            },
        },
    }
}

/// The mount-point path to use: an environment override wins; otherwise the
/// platform default, which on systems other than the first names the user.
pub open spec fn spec_mount_point(
    platform: Platform,
    env_override: Option<Seq<char>>,
    user: Seq<char>,
) -> Seq<char> {
    match env_override {
        Some(e) => e,
        None => match platform {
            Platform::MacOs => "/Volumes/PLAYDATE"@,
            _ => "/run/media/"@ + user + "/PLAYDATE"@,
        },
    }
}

/// Resolves the mount-point path.
pub fn resolve_mount_point(platform: Platform, env_override: Option<&str>, user: &str) -> (r:
    String)
    ensures
        r@ == spec_mount_point(platform, env_override.deep_view(), user@),
{
    match env_override {
        Some(e) => e.to_owned(),
        None => match platform {
            Platform::MacOs => "/Volumes/PLAYDATE".to_owned(),
            _ => {
                let mut s = concat_str("/run/media/", user);
                s.append("/PLAYDATE");
                s
            },
        },
    }
}

/// The file-name prefix under which the device's serial link appears.
pub const SERIAL_NAME_PREFIX: &'static str = "usb-Panic_Inc_Playdate_PDU1-";

/// The first directory entry that carries the device's name prefix, the
/// entries being given in the caller's order.
pub open spec fn spec_pick_serial_entry(names: Seq<Seq<char>>) -> Option<Seq<char>>
    decreases names.len(),
{
    if names.len() == 0 {
        None
    } else if has_prefix(names[0], "usb-Panic_Inc_Playdate_PDU1-"@) {
        Some(names[0])
    } else {
        spec_pick_serial_entry(names.drop_first())
    }
}

/// `spec_pick_serial_entry` returns the first match.
proof fn lemma_pick_serial_at(names: Seq<Seq<char>>, i: int)
    requires
        0 <= i < names.len(),
        has_prefix(names[i], "usb-Panic_Inc_Playdate_PDU1-"@),
        forall|j: int| 0 <= j < i ==> !has_prefix(#[trigger] names[j], "usb-Panic_Inc_Playdate_PDU1-"@),
    ensures
        spec_pick_serial_entry(names) == Some(names[i]),
    decreases names.len(),
{
    if i > 0 {
        assert(forall|j: int| 0 <= j < names.len() - 1 ==> names.drop_first()[j] == names[j + 1]);
        lemma_pick_serial_at(names.drop_first(), i - 1);
    }
}

/// With no match, `spec_pick_serial_entry` returns None.
proof fn lemma_pick_serial_none(names: Seq<Seq<char>>)
    requires
        forall|j: int|
            0 <= j < names.len() ==> !has_prefix(#[trigger] names[j], "usb-Panic_Inc_Playdate_PDU1-"@),
    ensures
        spec_pick_serial_entry(names) is None,
    decreases names.len(),
{
    if names.len() > 0 {
        assert(forall|j: int| 0 <= j < names.len() - 1 ==> names.drop_first()[j] == names[j + 1]);
        lemma_pick_serial_none(names.drop_first());
    }
}

/// Picks the directory entry that names the device: the first entry, in
/// the given order, that starts with the device's name prefix.  When
/// several match, the first is taken.
pub fn pick_serial_entry(names: &Vec<String>) -> (r: Option<String>)
    ensures
        r.deep_view() == spec_pick_serial_entry(names.deep_view()),
{
    let mut i: usize = 0;
    while i < names.len()
        invariant
            0 <= i <= names.len(),
            names.len() == names.deep_view().len(),
            forall|j: int|
                0 <= j < i ==> !has_prefix(
                    #[trigger] names.deep_view()[j],
                    "usb-Panic_Inc_Playdate_PDU1-"@,
                ),
        decreases names.len() - i,
    {
        if starts_with_str(names[i].as_str(), SERIAL_NAME_PREFIX) {
            proof {
                assert(names@[i as int]@ == names.deep_view()[i as int]);
                lemma_pick_serial_at(names.deep_view(), i as int);
            }
            return Some(names[i].clone());
        }
        i += 1;
    }
    proof {
        lemma_pick_serial_none(names.deep_view());
    }
    None
}

/// Whether a resolved serial-device path looks like a terminal device: it
/// must mention `tty` somewhere.
pub fn resolved_serial_ok(resolved: &str) -> (r: bool)
    ensures
        r == contains_seq(resolved@, "tty"@),
{
    contains_str(resolved, "tty")
}

// ---------------------------------------------------------------------------
// The device commands
// ---------------------------------------------------------------------------

/// The device utility's path under the SDK.
pub fn pdutil_path(sdk_path: &str, platform: Platform) -> (r: String)
    ensures
        r@ == sdk_path@ + "/bin/"@ + spec_pdutil_name(platform),
{
    let mut s = concat_str(sdk_path, "/bin/");
    s.append(pdutil_name(platform));
    s
}

/// The command that asks the device to enter mass-storage mode.
pub fn datadisk_command(pdutil: &str, serial_device: &str, pdx_dir: &str) -> (r: CommandSpec)
    ensures
        r@.program == pdutil@,
        r@.args == seq![serial_device@, "datadisk"@, pdx_dir@],
{
    let mut args: Vec<String> = Vec::new();
    args.push(serial_device.to_owned());
    args.push("datadisk".to_owned());
    args.push(pdx_dir.to_owned());
    let r = CommandSpec { program: pdutil.to_owned(), args };
    proof {
        assert(r@.args =~= seq![serial_device@, "datadisk"@, pdx_dir@]);
    }
    r
}

/// The on-device directory the bundle is copied to: the bundle's name with
/// the package extension, under the volume's required subdirectory.
pub fn device_bundle_dir(title: &str) -> (r: String)
    ensures
        r@ == title@ + ".pdx"@,
{
    concat_str(title, ".pdx")
}

/// The command that launches the deployed bundle over the serial device.
pub fn run_command(pdutil: &str, serial_device: &str, title: &str) -> (r: CommandSpec)
    ensures
        r@.program == pdutil@,
        r@.args == seq![serial_device@, "run"@, "/Games/"@ + title@ + ".pdx"@],
{
    let mut args: Vec<String> = Vec::new();
    args.push(serial_device.to_owned());
    args.push("run".to_owned());
    let mut dest = concat_str("/Games/", title);
    dest.append(".pdx");
    args.push(dest);
    let r = CommandSpec { program: pdutil.to_owned(), args };
    proof {
        assert(r@.args =~= seq![serial_device@, "run"@, "/Games/"@ + title@ + ".pdx"@]);
    }
    r
}

/// The platform's eject command for the mounted volume.
pub fn eject_command(platform: Platform, mount: &str) -> (r: CommandSpec)
    ensures
        r@ == match platform {
            Platform::MacOs => CommandSpecView {
                program: "diskutil"@,
                args: seq!["eject"@, mount@],
            },
            _ => CommandSpecView { program: "eject"@, args: seq![mount@] },
        },
{
    match platform {
        Platform::MacOs => {
            let mut args: Vec<String> = Vec::new();
            args.push("eject".to_owned());
            args.push(mount.to_owned());
            let r = CommandSpec { program: "diskutil".to_owned(), args };
            proof {
                assert(r@.args =~= seq!["eject"@, mount@]);
            }
            r
        },
        _ => {
            let mut args: Vec<String> = Vec::new();
            args.push(mount.to_owned());
            let r = CommandSpec { program: "eject".to_owned(), args };
            proof {
                assert(r@.args =~= seq![mount@]);
            }
            r
        },
    }
}

} // verus!
