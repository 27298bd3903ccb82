//! The dashboard of the shell: what it shows of the machine and its services,
//! and what its launcher starts.

use crate::extensions::{
    install_argv, list_argv, open_argv, safe_path, source_check, uninstall_argv, valid_identifier,
    ExtensionError, ExtensionHost,
};
use crate::hardware::HardwareSnapshot;
use crate::path::{components, is_absolute, path_components, path_is_absolute};
use crate::resource::{
    HardwareCapacity, MachineProfile, PowerState, PressureMetrics, ResourceSnapshot,
};
use crate::text::{
    byte_len, chars_of, compact, compact_readout, debug_form, debug_text, decimal, decimal_of,
    ends_in, gives, is_white_space, join, occurs_at, push_text, push_texts, same, texts, trim,
    trimmed, trimmed_keeps_the_middle,
};
use vstd::prelude::*;
use vstd::utf8::encode_utf8;

verus! {

/// Largest hardware document that is read.
pub const MAX_HARDWARE_JSON_BYTES: usize = 65_536;

/// Most characters of an update status that are looked at.
pub const MAX_UPDATE_STATUS_CHARS: usize = 16_384;

/// Most characters of a readout.
pub const MAX_SYSTEM_READOUT_CHARS: usize = 160;

/// The terminal.
pub const TERMINAL_PROGRAM: &'static str = "/usr/bin/foot";

/// Option of the terminal for its title.
pub const TERMINAL_TITLE: &'static str = "--title=DevCore Terminal";

/// Option of the terminal for its directory.
pub const TERMINAL_WORKING_DIRECTORY_OPTION: &'static str = "--working-directory";

/// Programs that may be the browser, in the order of preference.
pub const BROWSER_PROGRAMS: [&'static str; 4] = [
    "/usr/bin/google-chrome-stable",
    "/usr/bin/google-chrome",
    "/usr/bin/chromium",
    "/usr/bin/chromium-browser",
];

/// Programs that may be the assistant, in the order of preference.
pub const CODEX_PROGRAMS: [&'static str; 2] = ["/usr/bin/codex", "/usr/local/bin/codex"];

/// An amount of memory in whole GiB, to the nearest.
pub open spec fn gib_of(kib: nat) -> nat {
    ((kib + 524_288) / 1_048_576) as nat
}

/// Rounds an amount of memory to whole GiB.
pub fn kib_to_gib_rounded(kib: u64) -> (gib: u64)
    ensures
        gib == gib_of(kib as nat),
{
    let whole: u64 = kib / 1_048_576;
    let rest: u64 = kib % 1_048_576;
    if rest >= 524_288 {
        whole + 1
    } else {
        whole
    }
}

/// Thousandths of a percent with one place behind the point; the rest is cut.
pub open spec fn percent_of(value: nat) -> Seq<char> {
    decimal_of(value / 1000) + "."@ + decimal_of((value % 1000) / 100) + "%"@
}

/// Formats thousandths of a percent.
pub fn milli_percent(value: u32) -> (text: String)
    ensures
        text@ == percent_of(value as nat),
{
    let mut text = join(decimal((value / 1000) as u64).as_str(), ".");
    text.append(decimal(((value % 1000) / 100) as u64).as_str());
    text.append("%");
    text
}

/// The line on the pressure of processors and memory.
pub open spec fn pressure_line(
    cpu: Option<PressureMetrics>,
    memory: Option<PressureMetrics>,
) -> Seq<char> {
    match (cpu, memory) {
        (Some(c), Some(m)) => "CPU "@ + percent_of(c.some_avg10_milli_percent as nat)
            + " \u{b7} MEM "@ + percent_of(m.some_avg10_milli_percent as nat),
        (Some(c), None) => "CPU "@ + percent_of(c.some_avg10_milli_percent as nat),
        (None, Some(m)) => "MEM "@ + percent_of(m.some_avg10_milli_percent as nat),
        (None, None) => "PSI unavailable"@,
    }
}

/// Formats the line on the pressure of processors and memory.
pub fn pressure_readout(cpu: Option<PressureMetrics>, memory: Option<PressureMetrics>) -> (line:
    String)
    ensures
        line@ == pressure_line(cpu, memory),
{
    match (cpu, memory) {
        (Some(c), Some(m)) => {
            let mut line = join("CPU ", milli_percent(c.some_avg10_milli_percent).as_str());
            line.append(" \u{b7} MEM ");
            line.append(milli_percent(m.some_avg10_milli_percent).as_str());
            line
        },
        (Some(c), None) => join("CPU ", milli_percent(c.some_avg10_milli_percent).as_str()),
        (None, Some(m)) => join("MEM ", milli_percent(m.some_avg10_milli_percent).as_str()),
        (None, None) => "PSI unavailable".to_owned(),
    }
}

/// The line on the power.
pub open spec fn power_line(power: PowerState) -> Seq<char> {
    match (power.battery_percent, power.ac_online) {
        (Some(percent), Some(online)) => if online {
            decimal_of(percent as nat) + "% \u{b7} charging"@
        } else {
            decimal_of(percent as nat) + "% \u{b7} battery"@
        },
        (Some(percent), None) => decimal_of(percent as nat) + "% battery"@,
        (None, Some(online)) => if online {
            "AC online"@
        } else {
            "AC offline"@
        },
        (None, None) => "Power unavailable"@,
    }
}

/// Formats the line on the power.
pub fn power_readout(snapshot: &ResourceSnapshot) -> (line: String)
    ensures
        line@ == power_line(snapshot.power),
{
    match (snapshot.power.battery_percent, snapshot.power.ac_online) {
        (Some(percent), Some(online)) => if online {
            join(decimal(percent as u64).as_str(), "% \u{b7} charging")
        } else {
            join(decimal(percent as u64).as_str(), "% \u{b7} battery")
        },
        (Some(percent), None) => join(decimal(percent as u64).as_str(), "% battery"),
        (None, Some(online)) => if online {
            "AC online".to_owned()
        } else {
            "AC offline".to_owned()
        },
        (None, None) => "Power unavailable".to_owned(),
    }
}

/// What the dashboard shows of the machine.
#[derive(Clone, Debug, PartialEq, Eq)]
pub struct ShellTelemetry {
    /// Line on the processors.
    pub cpu_readout: String,
    /// Line on the memory.
    pub memory_readout: String,
    /// Line on the power.
    pub power_readout: String,
    /// Line on the pressure.
    pub pressure_readout: String,
    /// Profile.
    pub profile: String,
}

/// The line on the memory.
pub open spec fn memory_line(snapshot: ResourceSnapshot) -> Seq<char> {
    match snapshot.memory_available_kib {
        Some(available) => decimal_of(gib_of(available as nat)) + " / "@ + decimal_of(
            gib_of(snapshot.capacity.memory_total_kib as nat),
        ) + " GiB free"@,
        None => decimal_of(gib_of(snapshot.capacity.memory_total_kib as nat)) + " GiB total"@,
    }
}

impl ShellTelemetry {
    /// What the dashboard shows of a snapshot.
    pub fn from_snapshot(snapshot: &ResourceSnapshot) -> (telemetry: ShellTelemetry)
        ensures
            telemetry.cpu_readout@ == decimal_of(snapshot.capacity.logical_cpus as nat)
                + " logical CPUs"@,
            telemetry.memory_readout@ == memory_line(*snapshot),
            telemetry.power_readout@ == power_line(snapshot.power),
            telemetry.pressure_readout@ == pressure_line(
                snapshot.cpu_pressure,
                snapshot.memory_pressure,
            ),
            telemetry.profile@ == snapshot.initial_profile.label(),
    {
        let total = kib_to_gib_rounded(snapshot.capacity.memory_total_kib);
        let memory_readout = match snapshot.memory_available_kib {
            Some(available) => {
                let mut line = join(decimal(kib_to_gib_rounded(available)).as_str(), " / ");
                line.append(decimal(total).as_str());
                line.append(" GiB free");
                line
            },
            None => join(decimal(total).as_str(), " GiB total"),
        };
        ShellTelemetry {
            cpu_readout: join(
                decimal(snapshot.capacity.logical_cpus as u64).as_str(),
                " logical CPUs",
            ),
            memory_readout,
            power_readout: power_readout(snapshot),
            pressure_readout: pressure_readout(snapshot.cpu_pressure, snapshot.memory_pressure),
            profile: snapshot.initial_profile.as_str().to_owned(),
        }
    }
}

/// A resource snapshot as the resource service sends it.
#[derive(Clone, Debug, PartialEq, Eq)]
pub struct SnapshotWire {
    /// Identifier of the profile.
    pub profile: String,
    /// Logical processors.
    pub logical_cpus: u16,
    /// Memory.
    pub memory_total_kib: u64,
    /// Memory that is available.
    pub memory_available_kib: Option<u64>,
    /// Pressure on the processors.
    pub cpu_pressure: Option<PressureMetrics>,
    /// Pressure on the memory.
    pub memory_pressure: Option<PressureMetrics>,
    /// Pressure on the disks.
    pub io_pressure: Option<PressureMetrics>,
    /// Power.
    pub power: PowerState,
}

/// Reads the identifier of a profile that the resource service sent.
pub fn profile_from_str(value: &str) -> (result: Result<MachineProfile, String>)
    ensures
        match result {
            Ok(profile) => profile.label() == value@,
            Err(message) => message@ == "resource service returned unknown profile "@ + debug_form(
                value@,
            ) && forall|other: MachineProfile| value@ != #[trigger] other.label(),
        },
{
    match MachineProfile::parse(value) {
        Some(profile) => Ok(profile),
        None => Err(
            join("resource service returned unknown profile ", debug_text(value).as_str()),
        ),
    }
}

/// Takes a resource snapshot over from the resource service.
pub fn snapshot_from_wire(wire: &SnapshotWire) -> (result: Result<ResourceSnapshot, String>)
    ensures
        match result {
            Ok(snapshot) => snapshot.initial_profile.label() == wire.profile@ && snapshot == (
            ResourceSnapshot {
                capacity: HardwareCapacity {
                    logical_cpus: wire.logical_cpus,
                    memory_total_kib: wire.memory_total_kib,
                },
                initial_profile: snapshot.initial_profile,
                memory_available_kib: wire.memory_available_kib,
                cpu_pressure: wire.cpu_pressure,
                memory_pressure: wire.memory_pressure,
                io_pressure: wire.io_pressure,
                power: wire.power,
            }),
            Err(message) => message@ == "resource service returned unknown profile "@ + debug_form(
                wire.profile@,
            ) && forall|other: MachineProfile| wire.profile@ != #[trigger] other.label(),
        },
{
    match profile_from_str(wire.profile.as_str()) {
        Ok(initial_profile) => Ok(
            ResourceSnapshot {
                capacity: HardwareCapacity {
                    logical_cpus: wire.logical_cpus,
                    memory_total_kib: wire.memory_total_kib,
                },
                initial_profile,
                memory_available_kib: wire.memory_available_kib,
                cpu_pressure: wire.cpu_pressure,
                memory_pressure: wire.memory_pressure,
                io_pressure: wire.io_pressure,
                power: wire.power,
            },
        ),
        Err(message) => Err(message),
    }
}

/// Checks the size of a hardware document.
pub fn check_hardware_json(value: &str) -> (result: Result<(), String>)
    ensures
        match result {
            Ok(_) => encode_utf8(value@).len() <= MAX_HARDWARE_JSON_BYTES,
            Err(message) => encode_utf8(value@).len() > MAX_HARDWARE_JSON_BYTES && message@
                == "hardware snapshot exceeded the shell input limit"@,
        },
{
    if byte_len(value) > MAX_HARDWARE_JSON_BYTES {
        return Err("hardware snapshot exceeded the shell input limit".to_owned());
    }
    Ok(())
}

/// The words on the power of an inventory.
pub open spec fn inventory_power(
    battery_present: bool,
    battery_percent: Option<u8>,
    ac_online: Option<bool>,
) -> Seq<char> {
    if battery_present {
        let battery = match battery_percent {
            Some(percent) => "battery "@ + decimal_of(percent as nat) + "%"@,
            None => "battery present"@,
        };
        match ac_online {
            Some(online) => if online {
                battery + " \u{b7} AC online"@
            } else {
                battery + " \u{b7} on battery"@
            },
            None => battery,
        }
    } else {
        match ac_online {
            Some(online) => if online {
                "AC online"@
            } else {
                "AC offline"@
            },
            None => "power unavailable"@,
        }
    }
}

fn inventory_power_text(
    battery_present: bool,
    battery_percent: Option<u8>,
    ac_online: Option<bool>,
) -> (text: String)
    ensures
        text@ == inventory_power(battery_present, battery_percent, ac_online),
{
    if battery_present {
        let mut text = match battery_percent {
            Some(percent) => {
                let mut battery = join("battery ", decimal(percent as u64).as_str());
                battery.append("%");
                battery
            },
            None => "battery present".to_owned(),
        };
        match ac_online {
            Some(online) => {
                if online {
                    text.append(" \u{b7} AC online");
                } else {
                    text.append(" \u{b7} on battery");
                }
            },
            None => {},
        }
        text
    } else {
        match ac_online {
            Some(online) => if online {
                "AC online".to_owned()
            } else {
                "AC offline".to_owned()
            },
            None => "power unavailable".to_owned(),
        }
    }
}

/// The line on an inventory.
pub open spec fn hardware_line(snapshot: HardwareSnapshot) -> Seq<char> {
    compact(snapshot.cpu_model@, 56) + " \u{b7} "@ + decimal_of(snapshot.logical_cpus as nat)
        + " CPU \u{b7} "@ + decimal_of(gib_of(snapshot.memory_total_kib as nat))
        + " GiB \u{b7} "@ + decimal_of(snapshot.gpu_devices as nat) + " GPU \u{b7} "@
        + decimal_of(snapshot.network_interfaces@.len()) + " net \u{b7} "@ + inventory_power(
        snapshot.battery_present,
        snapshot.battery_percent,
        snapshot.ac_online,
    )
}

/// Formats the line on an inventory.
pub fn format_hardware_readout(snapshot: &HardwareSnapshot) -> (line: String)
    ensures
        line@ == hardware_line(*snapshot),
{
    let power = inventory_power_text(
        snapshot.battery_present,
        snapshot.battery_percent,
        snapshot.ac_online,
    );
    let mut line = compact_readout(snapshot.cpu_model.as_str(), 56);
    line.append(" \u{b7} ");
    line.append(decimal(snapshot.logical_cpus as u64).as_str());
    line.append(" CPU \u{b7} ");
    line.append(decimal(kib_to_gib_rounded(snapshot.memory_total_kib)).as_str());
    line.append(" GiB \u{b7} ");
    line.append(decimal(snapshot.gpu_devices as u64).as_str());
    line.append(" GPU \u{b7} ");
    line.append(decimal(snapshot.network_interfaces.len() as u64).as_str());
    line.append(" net \u{b7} ");
    line.append(power.as_str());
    line
}

/// The line on updates.
pub open spec fn update_line(channel: Seq<char>, status: Seq<char>) -> Seq<char> {
    let shown = compact(compact(status, 16_384), 160);
    if shown.len() == 0 {
        "channel "@ + channel + " \u{b7} status query returned no output"@
    } else {
        "channel "@ + channel + " \u{b7} "@ + shown
    }
}

/// Formats the line on updates.
pub fn format_update_readout(channel: &str, status: &str) -> (line: String)
    ensures
        line@ == update_line(channel@, status@),
{
    let bounded = compact_readout(status, MAX_UPDATE_STATUS_CHARS);
    let shown = compact_readout(bounded.as_str(), MAX_SYSTEM_READOUT_CHARS);
    let mut line = join("channel ", channel);
    if shown.as_str().is_empty() {
        line.append(" \u{b7} status query returned no output");
    } else {
        line.append(" \u{b7} ");
        line.append(shown.as_str());
    }
    line
}

/// What the hardware service said.
#[derive(Clone, Debug, PartialEq, Eq)]
pub enum HardwareReply {
    /// It could not be asked.
    Unavailable(String),
    /// What it sent could not be read.
    Invalid(String),
    /// An inventory.
    Inventory(HardwareSnapshot),
}

/// What the update service said.
#[derive(Debug, PartialEq, Eq)]
pub enum UpdateReply {
    /// It could not be asked.
    Unavailable(String),
    /// It was asked for its channel and its status.
    Asked {
        /// The channel.
        channel: Result<String, String>,
        /// The status.
        status: Result<String, String>,
    },
}

/// What the dashboard shows of two services.
#[derive(Clone, Debug, PartialEq, Eq)]
pub struct SystemReadouts {
    /// Line on the hardware.
    pub hardware: String,
    /// Line on updates.
    pub update: String,
}

/// The line on the hardware for each reply.
pub open spec fn hardware_reply_line(reply: HardwareReply) -> Seq<char> {
    match reply {
        HardwareReply::Unavailable(error) => "Hardware service unavailable \u{b7} "@ + compact(
            error@,
            96,
        ),
        HardwareReply::Invalid(error) => "Hardware snapshot unavailable \u{b7} "@ + error@,
        HardwareReply::Inventory(snapshot) => hardware_line(snapshot),
    }
}

/// The line on updates for each reply. A channel that is not known is told
/// before a status that is not known.
pub open spec fn update_reply_line(reply: UpdateReply) -> Seq<char> {
    match reply {
        UpdateReply::Unavailable(error) => "Update service unavailable \u{b7} "@ + compact(
            error@,
            96,
        ),
        UpdateReply::Asked { channel, status } => match channel {
            Err(error) => "Update service unavailable \u{b7} "@ + compact(error@, 96),
            Ok(name) => match status {
                Err(error) => "Update status unavailable \u{b7} "@ + compact(error@, 96),
                Ok(text) => update_line(name@, text@),
            },
        },
    }
}

/// Formats what the dashboard shows of the two services when there is no
/// connection to them.
pub fn disconnected_readouts(error: &str) -> (readouts: SystemReadouts)
    ensures
        readouts.hardware@ == "Hardware service unavailable \u{b7} "@ + compact(error@, 96),
        readouts.update@ == "Update service unavailable \u{b7} "@ + compact(error@, 96),
{
    let detail = compact_readout(error, 96);
    SystemReadouts {
        hardware: join("Hardware service unavailable \u{b7} ", detail.as_str()),
        update: join("Update service unavailable \u{b7} ", detail.as_str()),
    }
}

/// Formats what the dashboard shows of the two services.
pub fn collect_system_readouts(hardware: &HardwareReply, update: &UpdateReply) -> (readouts:
    SystemReadouts)
    ensures
        readouts.hardware@ == hardware_reply_line(*hardware),
        readouts.update@ == update_reply_line(*update),
{
    let hardware_line = match hardware {
        HardwareReply::Unavailable(error) => join(
            "Hardware service unavailable \u{b7} ",
            compact_readout(error.as_str(), 96).as_str(),
        ),
        HardwareReply::Invalid(error) => join(
            "Hardware snapshot unavailable \u{b7} ",
            error.as_str(),
        ),
        HardwareReply::Inventory(snapshot) => format_hardware_readout(snapshot),
    };
    let update_line = match update {
        UpdateReply::Unavailable(error) => join(
            "Update service unavailable \u{b7} ",
            compact_readout(error.as_str(), 96).as_str(),
        ),
        UpdateReply::Asked { channel, status } => match channel {
            Err(error) => join(
                "Update service unavailable \u{b7} ",
                compact_readout(error.as_str(), 96).as_str(),
            ),
            Ok(name) => match status {
                Err(error) => join(
                    "Update status unavailable \u{b7} ",
                    compact_readout(error.as_str(), 96).as_str(),
                ),
                Ok(text) => format_update_readout(name.as_str(), text.as_str()),
            },
        },
    };
    SystemReadouts { hardware: hardware_line, update: update_line }
}

/// Chooses the snapshot that is shown and the words to it: the one of the
/// resource service, or the one of the kernel where there is none.
pub fn collect_shell_snapshot(
    service: Result<ResourceSnapshot, String>,
    direct: Result<ResourceSnapshot, String>,
) -> (result: Result<(ResourceSnapshot, &'static str), String>)
    ensures
        match (service, direct) {
            (Ok(snapshot), _) => result matches Ok((shown, words)) && shown == snapshot && words@
                == "Resource service snapshot \u{b7} explicit refresh plus signal updates"@,
            (Err(_), Ok(snapshot)) => result matches Ok((shown, words)) && shown == snapshot
                && words@ == "Direct kernel snapshot \u{b7} resource service unavailable"@,
            (Err(first), Err(second)) => result matches Err(message) && message@
                == "resource service unavailable ("@ + first@ + "); direct snapshot failed: "@
                + second@,
        },
{
    match service {
        Ok(snapshot) => Ok(
            (snapshot, "Resource service snapshot \u{b7} explicit refresh plus signal updates"),
        ),
        Err(first) => match direct {
            Ok(snapshot) => Ok(
                (snapshot, "Direct kernel snapshot \u{b7} resource service unavailable"),
            ),
            Err(second) => {
                let mut message = join("resource service unavailable (", first.as_str());
                message.append("); direct snapshot failed: ");
                message.append(second.as_str());
                Err(message)
            },
        },
    }
}

/// The workspace that is nearest to a number.
pub open spec fn nearest_workspace(value: int) -> int {
    if value < 1 {
        1
    } else if value > 4 {
        4
    } else {
        value
    }
}

/// The workspace that a number chooses, the nearest one where there is none of
/// that number.
pub fn clamp_workspace_index(value: i32) -> (index: i32)
    ensures
        index == nearest_workspace(value as int),
{
    if value < 1 {
        1
    } else if value > 4 {
        4
    } else {
        value
    }
}

/// A character between the words of a kernel command line.
pub open spec fn is_separator(c: char) -> bool {
    c == ' ' || c == '\t' || c == '\n' || c == '\u{c}' || c == '\r'
}

fn separator(c: char) -> (result: bool)
    ensures
        result == is_separator(c),
{
    c == ' ' || c == '\t' || c == '\n' || c == '\u{c}' || c == '\r'
}

/// A word stands at a place of a text, between separators or the ends.
pub open spec fn word_at(text: Seq<char>, word: Seq<char>, at: int) -> bool {
    &&& occurs_at(text, word, at)
    &&& at == 0 || is_separator(text[at - 1])
    &&& at + word.len() == text.len() || is_separator(text[at + word.len()])
}

/// A text holds a word.
pub open spec fn holds_word(text: Seq<char>, word: Seq<char>) -> bool {
    exists|at: int| word_at(text, word, at)
}

fn has_word(text: &str, word: &str) -> (result: bool)
    ensures
        result == holds_word(text@, word@),
{
    let a = chars_of(text);
    let b = chars_of(word);
    if b.len() > a.len() {
        assert forall|at: int| !word_at(text@, word@, at) by {};
        return false;
    }
    let last: usize = a.len() - b.len();
    let mut i: usize = 0;
    while i <= last
        invariant
            i <= last + 1,
            last == a@.len() - b@.len(),
            a@ == text@,
            b@ == word@,
            a@.len() <= usize::MAX,
            forall|at: int| at < i ==> !#[trigger] word_at(text@, word@, at),
        decreases last + 1 - i,
    {
        let mut k: usize = 0;
        while k < b.len() && a[i + k] == b[k]
            invariant
                i <= last,
                last == a@.len() - b@.len(),
                a@.len() <= usize::MAX,
                k <= b@.len(),
                forall|j: int| 0 <= j < k ==> a@[i + j] == b@[j],
            decreases b.len() - k,
        {
            k = k + 1;
        }
        if k == b.len() && (i == 0 || separator(a[i - 1])) && (i + b.len() == a.len()
            || separator(a[i + b.len()])) {
            assert(a@.subrange(i as int, i + b@.len()) =~= b@);
            assert(word_at(text@, word@, i as int));
            return true;
        }
        proof {
            if k < b@.len() {
                assert(text@.subrange(i as int, i + word@.len())[k as int] == a@[i + k]);
            }
            assert(!word_at(text@, word@, i as int));
        }
        if i == last {
            assert forall|at: int| !word_at(text@, word@, at) by {
                if at > i {
                    assert(at + word@.len() > text@.len());
                } else if at < i {
                    assert(!word_at(text@, word@, at));
                }
            }
            return false;
        }
        i = i + 1;
    }
    false
}

/// Whether a command line asks for the installer to be opened.
pub open spec fn opens_installer(command_line: Seq<char>) -> bool {
    holds_word(command_line, "devcore.live=1"@) && holds_word(
        command_line,
        "devcore.installer=auto"@,
    )
}

/// Whether the installer opens by itself: on a live system that was started for
/// it.
pub fn live_installer_should_open_from(command_line: &str) -> (result: bool)
    ensures
        result == opens_installer(command_line@),
{
    has_word(command_line, "devcore.live=1") && has_word(command_line, "devcore.installer=auto")
}

/// A directory that the terminal can be opened in.
pub open spec fn terminal_directory(workspace: Seq<char>, is_directory: bool) -> bool {
    is_absolute(workspace) && components(workspace) != seq!["/"@] && is_directory
}

/// The command that opens the terminal, or the message where it cannot be
/// opened in the workspace. Without a workspace it opens anywhere.
pub open spec fn terminal_argv(workspace: Seq<char>, is_directory: bool) -> Result<
    Seq<Seq<char>>,
    Seq<char>,
> {
    let directory = trimmed(workspace);
    if directory.len() == 0 {
        Ok(seq![TERMINAL_PROGRAM@, TERMINAL_TITLE@])
    } else if terminal_directory(directory, is_directory) {
        Ok(
            seq![
                TERMINAL_PROGRAM@,
                TERMINAL_TITLE@,
                TERMINAL_WORKING_DIRECTORY_OPTION@,
                directory,
            ],
        )
    } else {
        Err("terminal workspace must be an existing absolute directory: "@ + directory)
    }
}

/// Builds the command that opens the terminal. `is_directory` says whether the
/// workspace, without white space around it, is a directory.
pub fn launch_terminal(workspace: &str, is_directory: bool) -> (result: Result<
    Vec<String>,
    String,
>)
    ensures
        match result {
            Ok(argv) => terminal_argv(workspace@, is_directory) == Ok::<
                Seq<Seq<char>>,
                Seq<char>,
            >(texts(argv@)),
            Err(message) => terminal_argv(workspace@, is_directory) == Err::<
                Seq<Seq<char>>,
                Seq<char>,
            >(message@),
        },
{
    let directory = trim(workspace);
    let mut argv: Vec<String> = Vec::new();
    push_text(&mut argv, TERMINAL_PROGRAM);
    push_text(&mut argv, TERMINAL_TITLE);
    if directory.as_str().is_empty() {
        assert(texts(argv@) =~= seq![TERMINAL_PROGRAM@, TERMINAL_TITLE@]);
        return Ok(argv);
    }
    let list = path_components(directory.as_str());
    proof {
        let all = components(directory@);
        assert(all.len() == 1 && all[0] == "/"@ ==> all =~= seq!["/"@]);
        assert(seq!["/"@][0] == "/"@ && seq!["/"@].len() == 1);
    }
    if !path_is_absolute(directory.as_str()) || (list.len() == 1 && same(list[0].as_str(), "/"))
        || !is_directory {
        return Err(
            join(
                "terminal workspace must be an existing absolute directory: ",
                directory.as_str(),
            ),
        );
    }
    push_text(&mut argv, TERMINAL_WORKING_DIRECTORY_OPTION);
    push_text(&mut argv, directory.as_str());
    assert(texts(argv@) =~= seq![
        TERMINAL_PROGRAM@,
        TERMINAL_TITLE@,
        TERMINAL_WORKING_DIRECTORY_OPTION@,
        directory@,
    ]);
    Ok(argv)
}

/// Tells how the launch of the terminal went.
pub fn terminal_launched(workspace: &str, spawned: Result<(), String>) -> (result: Result<
    String,
    String,
>)
    ensures
        match spawned {
            Ok(_) => result matches Ok(message) && message@ == if trimmed(workspace@).len() == 0 {
                "Terminal launched \u{b7} foot owns the interactive PTY"@
            } else {
                "Terminal launched in "@ + trimmed(workspace@)
                    + " \u{b7} foot owns the interactive PTY"@
            },
            Err(error) => result matches Err(message) && message@ == "terminal launch failed for "@
                + TERMINAL_PROGRAM@ + ": "@ + error@,
        },
{
    match spawned {
        Ok(_) => {
            let directory = trim(workspace);
            if directory.as_str().is_empty() {
                return Ok("Terminal launched \u{b7} foot owns the interactive PTY".to_owned());
            }
            let mut message = join("Terminal launched in ", directory.as_str());
            message.append(" \u{b7} foot owns the interactive PTY");
            Ok(message)
        },
        Err(error) => {
            let mut message = join("terminal launch failed for ", TERMINAL_PROGRAM);
            message.append(": ");
            message.append(error.as_str());
            Err(message)
        },
    }
}

/// The place of the first program that is installed.
pub open spec fn is_first_available(installed: Seq<bool>, at: int) -> bool {
    0 <= at < installed.len() && installed[at] && forall|k: int| 0 <= k < at ==> !installed[k]
}

/// Finds the first program that is installed. `installed` says of each program
/// whether it is there.
pub fn first_available_program(programs: &[&'static str], installed: &[bool]) -> (program: Option<
    &'static str,
>)
    requires
        programs@.len() == installed@.len(),
    ensures
        match program {
            Some(found) => exists|at: int| #[trigger]
                is_first_available(installed@, at) && found == programs@[at],
            None => forall|at: int| 0 <= at < installed@.len() ==> !installed@[at],
        },
{
    let mut i: usize = 0;
    while i < installed.len()
        invariant
            i <= installed@.len(),
            programs@.len() == installed@.len(),
            forall|k: int| 0 <= k < i ==> !installed@[k],
        decreases installed.len() - i,
    {
        if installed[i] {
            assert(is_first_available(installed@, i as int));
            return Some(programs[i]);
        }
        i = i + 1;
    }
    None
}

/// An optional program to be launched.
#[derive(Clone, Debug, PartialEq, Eq)]
pub struct OptionalApp {
    /// The program.
    pub program: &'static str,
    /// The command that starts it.
    pub argv: Vec<String>,
}

/// Builds the command that launches the browser.
pub fn launch_browser(installed: &[bool; 4]) -> (result: Result<OptionalApp, String>)
    ensures
        match result {
            Ok(app) => texts(app.argv@) == seq![app.program@] && exists|at: int| #[trigger]
                is_first_available(installed@, at) && app.program == BROWSER_PROGRAMS@[at],
            Err(message) => (forall|at: int| 0 <= at < 4 ==> !installed@[at]) && message@
                == "Browser is not installed in the minimal image; add it as an optional user app"@,
        },
{
    match first_available_program(&BROWSER_PROGRAMS, installed) {
        Some(program) => {
            let mut argv: Vec<String> = Vec::new();
            push_text(&mut argv, program);
            assert(texts(argv@) =~= seq![program@]);
            Ok(OptionalApp { program, argv })
        },
        None => Err(
            "Browser is not installed in the minimal image; add it as an optional user app".to_owned(),
        ),
    }
}

/// The command that launches the assistant in a terminal of its own.
pub open spec fn codex_argv(program: Seq<char>) -> Seq<Seq<char>> {
    seq![TERMINAL_PROGRAM@, "--title=DevCore Codex"@, "--"@, program]
}

/// Builds the command that launches the assistant in a terminal of its own.
pub fn launch_codex(installed: &[bool; 2]) -> (result: Result<OptionalApp, String>)
    ensures
        match result {
            Ok(app) => texts(app.argv@) == codex_argv(app.program@) && exists|at: int| #[trigger]
                is_first_available(installed@, at) && app.program == CODEX_PROGRAMS@[at],
            Err(message) => (forall|at: int| 0 <= at < 2 ==> !installed@[at]) && message@
                == "Codex is not installed in the minimal image; install it from the terminal"@,
        },
{
    match first_available_program(&CODEX_PROGRAMS, installed) {
        Some(program) => {
            let mut argv: Vec<String> = Vec::new();
            push_text(&mut argv, TERMINAL_PROGRAM);
            push_text(&mut argv, "--title=DevCore Codex");
            push_text(&mut argv, "--");
            push_text(&mut argv, program);
            assert(texts(argv@) =~= seq![
                TERMINAL_PROGRAM@,
                "--title=DevCore Codex"@,
                "--"@,
                program@,
            ]);
            Ok(OptionalApp { program, argv })
        },
        None => Err(
            "Codex is not installed in the minimal image; install it from the terminal".to_owned(),
        ),
    }
}

/// Tells how the launch of the browser went.
pub fn browser_launched(program: &str, spawned: Result<(), String>) -> (result: Result<
    String,
    String,
>)
    ensures
        match spawned {
            Ok(_) => result matches Ok(message) && message@ == "Browser launched from "@ + program@,
            Err(error) => result matches Err(message) && message@ == "browser launch failed for "@
                + program@ + ": "@ + error@,
        },
{
    match spawned {
        Ok(_) => Ok(join("Browser launched from ", program)),
        Err(error) => {
            let mut message = join("browser launch failed for ", program);
            message.append(": ");
            message.append(error.as_str());
            Err(message)
        },
    }
}

/// Tells how the launch of the assistant went.
pub fn codex_launched(program: &str, spawned: Result<(), String>) -> (result: Result<
    String,
    String,
>)
    ensures
        match spawned {
            Ok(_) => result matches Ok(message) && message@
                == "Codex launched in a dedicated terminal from "@ + program@,
            Err(error) => result matches Err(message) && message@ == "Codex launch failed for "@
                + program@ + ": "@ + error@,
        },
{
    match spawned {
        Ok(_) => Ok(join("Codex launched in a dedicated terminal from ", program)),
        Err(error) => {
            let mut message = join("Codex launch failed for ", program);
            message.append(": ");
            message.append(error.as_str());
            Err(message)
        },
    }
}

/// What an entry of the launcher does.
#[derive(Clone, Debug, PartialEq, Eq)]
pub enum LauncherStep {
    /// Open the terminal.
    Terminal,
    /// Close the launcher and open the studio.
    Studio,
    /// Close the launcher and look at the machine again.
    Resources,
    /// Launch the browser.
    Browser,
    /// Launch the assistant.
    Codex,
    /// Nothing: show this.
    Show(String),
}

/// Whether an entry of the launcher leads to a step.
pub open spec fn is_step_for(action: Seq<char>, step: LauncherStep) -> bool {
    if action == "Terminal"@ {
        step == LauncherStep::Terminal
    } else if action == "Studio"@ {
        step == LauncherStep::Studio
    } else if action == "Resources"@ {
        step == LauncherStep::Resources
    } else if action == "Browser"@ {
        step == LauncherStep::Browser
    } else if action == "Codex"@ {
        step == LauncherStep::Codex
    } else {
        step matches LauncherStep::Show(message) && message@ == "Unknown launcher action: "@
            + action
    }
}

/// Decides what an entry of the launcher does.
pub fn handle_launcher_action(action: &str) -> (step: LauncherStep)
    ensures
        is_step_for(action@, step),
{
    if same(action, "Terminal") {
        LauncherStep::Terminal
    } else if same(action, "Studio") {
        LauncherStep::Studio
    } else if same(action, "Resources") {
        LauncherStep::Resources
    } else if same(action, "Browser") {
        LauncherStep::Browser
    } else if same(action, "Codex") {
        LauncherStep::Codex
    } else {
        LauncherStep::Show(join("Unknown launcher action: ", action))
    }
}

/// The words to a workspace that was chosen.
pub fn workspace_selected(index: i32) -> (message: String)
    requires
        1 <= index <= 4,
    ensures
        message@ == "Workspace "@ + decimal_of(index as nat)
            + " selected \u{b7} compositor-level window routing remains staged"@,
{
    let mut message = join("Workspace ", decimal(index as u64).as_str());
    message.append(" selected \u{b7} compositor-level window routing remains staged");
    message
}

/// The words where no editor that takes extensions is installed.
pub open spec fn no_host_message() -> Seq<char> {
    "VS Code-compatible host not detected \u{b7} install code, code-oss, or codium as an optional user app"@
}

fn no_host() -> (message: String)
    ensures
        message@ == no_host_message(),
{
    "VS Code-compatible host not detected \u{b7} install code, code-oss, or codium as an optional user app".to_owned()
}

/// Formats the line on the editor that takes extensions.
pub fn extension_host_readout(host: &Option<ExtensionHost>) -> (line: String)
    ensures
        line@ == match host {
            Some(found) => "VS Code-compatible host ready \u{b7} "@ + found@,
            None => no_host_message(),
        },
{
    match host {
        Some(found) => join("VS Code-compatible host ready \u{b7} ", found.program()),
        None => no_host(),
    }
}

/// The command that runs another one in a terminal of its own.
pub open spec fn in_terminal(argv: Seq<Seq<char>>) -> Seq<Seq<char>> {
    seq![TERMINAL_PROGRAM@, "--title=DevCore Extensions"@, "--"@] + argv
}

fn terminal_of(command: &Vec<String>) -> (argv: Vec<String>)
    ensures
        texts(argv@) == in_terminal(texts(command@)),
{
    let mut argv: Vec<String> = Vec::new();
    push_text(&mut argv, TERMINAL_PROGRAM);
    push_text(&mut argv, "--title=DevCore Extensions");
    push_text(&mut argv, "--");
    assert(texts(argv@) =~= seq![TERMINAL_PROGRAM@, "--title=DevCore Extensions"@, "--"@]);
    push_texts(&mut argv, command.as_slice());
    argv
}

/// Builds the command that opens a workspace in the editor.
pub fn launch_extension_workspace(
    host: &Option<ExtensionHost>,
    workspace: &str,
    is_directory: bool,
) -> (result: Result<Vec<String>, String>)
    ensures
        match host {
            None => result matches Err(message) && message@ == no_host_message(),
            Some(found) => match result {
                Ok(argv) => safe_path(workspace@) && is_directory && texts(argv@) == open_argv(
                    found@,
                    workspace@,
                ),
                Err(message) => (!safe_path(workspace@) && message@
                    == "workspace path is not a safe absolute path: "@ + workspace@) || (safe_path(
                    workspace@,
                ) && !is_directory && message@ == "workspace is not a safe existing directory: "@
                    + workspace@),
            },
        },
{
    match host {
        None => Err(no_host()),
        Some(found) => match found.open_workspace_command(workspace, is_directory) {
            Ok(argv) => Ok(argv),
            Err(error) => {
                proof {
                    reveal_strlit("workspace");
                    reveal_strlit(" path is not a safe absolute path: ");
                    reveal_strlit("workspace path is not a safe absolute path: ");
                    assert("workspace"@ + " path is not a safe absolute path: "@
                        =~= "workspace path is not a safe absolute path: "@);
                }
                Err(error.message())
            },
        },
    }
}

/// Builds the command that installs an extension.
pub fn install_extension(host: &Option<ExtensionHost>, source: &str) -> (result: Result<
    Vec<String>,
    String,
>)
    ensures
        match host {
            None => result matches Err(message) && message@ == no_host_message(),
            Some(found) => match result {
                Ok(argv) => source_check(source@, Ok(())) && texts(argv@) == in_terminal(
                    install_argv(found@, source@),
                ),
                Err(message) => exists|error: ExtensionError| #[trigger]
                    source_check(source@, Err(error)) && message@ == error.text(),
            },
        },
{
    match host {
        None => Err(no_host()),
        Some(found) => match found.install_command(source) {
            Ok(command) => Ok(terminal_of(&command)),
            Err(error) => {
                assert(source_check(source@, Err(error)));
                Err(error.message())
            },
        },
    }
}

/// Builds the command that lists the extensions.
pub fn list_extensions(host: &Option<ExtensionHost>) -> (result: Result<Vec<String>, String>)
    ensures
        match host {
            None => result matches Err(message) && message@ == no_host_message(),
            Some(found) => result matches Ok(argv) && texts(argv@) == in_terminal(
                list_argv(found@),
            ),
        },
{
    match host {
        None => Err(no_host()),
        Some(found) => Ok(terminal_of(&found.list_command())),
    }
}

/// Builds the command that removes an extension.
pub fn uninstall_extension(host: &Option<ExtensionHost>, identifier: &str) -> (result: Result<
    Vec<String>,
    String,
>)
    ensures
        match host {
            None => result matches Err(message) && message@ == no_host_message(),
            Some(found) => match result {
                Ok(argv) => valid_identifier(identifier@) && texts(argv@) == in_terminal(
                    uninstall_argv(found@, identifier@),
                ),
                Err(message) => !valid_identifier(identifier@) && message@
                    == "invalid extension identifier "@ + debug_form(identifier@),
            },
        },
{
    match host {
        None => Err(no_host()),
        Some(found) => match found.uninstall_command(identifier) {
            Ok(command) => Ok(terminal_of(&command)),
            Err(error) => Err(error.message()),
        },
    }
}

/// Tells how the launch of an extension command went.
pub fn extension_launched(spawned: Result<(), String>) -> (result: Result<String, String>)
    ensures
        match spawned {
            Ok(_) => result matches Ok(message) && message@
                == "Extension command launched in a bounded terminal session"@,
            Err(error) => result matches Err(message) && message@
                == "extension command launch failed for "@ + TERMINAL_PROGRAM@ + ": "@ + error@,
        },
{
    match spawned {
        Ok(_) => Ok("Extension command launched in a bounded terminal session".to_owned()),
        Err(error) => {
            let mut message = join("extension command launch failed for ", TERMINAL_PROGRAM);
            message.append(": ");
            message.append(error.as_str());
            Err(message)
        },
    }
}

/// Tells how opening a workspace in the editor went.
pub fn workspace_opened(program: &str, spawned: Result<(), String>) -> (result: Result<
    String,
    String,
>)
    ensures
        match spawned {
            Ok(_) => result matches Ok(message) && message@ == "Opened workspace in "@ + program@,
            Err(error) => result matches Err(message) && message@
                == "VS Code-compatible host launch failed: "@ + error@,
        },
{
    match spawned {
        Ok(_) => Ok(join("Opened workspace in ", program)),
        Err(error) => Err(join("VS Code-compatible host launch failed: ", error.as_str())),
    }
}

/// The words when the studio opens without an environment; with one its files
/// are listed instead.
pub fn studio_opened(image: &str, workspace: &str) -> (message: Option<&'static str>)
    ensures
        match message {
            Some(words) => (trimmed(image@).len() == 0 || trimmed(workspace@).len() == 0) && words@
                == "Studio opened \u{b7} register a digest-pinned environment to browse files"@,
            None => trimmed(image@).len() > 0 && trimmed(workspace@).len() > 0,
        },
{
    if trim(image).as_str().is_empty() || trim(workspace).as_str().is_empty() {
        Some("Studio opened \u{b7} register a digest-pinned environment to browse files")
    } else {
        None
    }
}

/// Amounts are rounded to the nearest gibibyte, halves up.
pub proof fn amounts_are_rounded(kib: nat)
    ensures
        1_048_576 * gib_of(kib) <= kib + 524_288,
        kib + 524_288 < 1_048_576 * gib_of(kib) + 1_048_576,
{
}

/// A share is read out in percent, with one digit after the point that is not
/// rounded.
pub proof fn shares_are_read_out_in_percent(whole: nat, tenth: nat, rest: nat)
    requires
        tenth < 10,
        rest < 100,
    ensures
        percent_of(1000 * whole + 100 * tenth + rest) == decimal_of(whole) + "."@ + decimal_of(
            tenth,
        ) + "%"@,
{
    let value = 1000 * whole + 100 * tenth + rest;
    assert(value / 1000 == whole);
    assert(value % 1000 == 100 * tenth + rest);
    assert((100 * tenth + rest) / 100 == tenth);
}

/// The pressures of the processor and of the memory are read out next to each
/// other, each under its own name.
pub proof fn pressures_are_read_out(c: PressureMetrics, m: PressureMetrics)
    ensures
        pressure_line(Some(c), None) == "CPU "@ + percent_of(c.some_avg10_milli_percent as nat),
        pressure_line(None, Some(m)) == "MEM "@ + percent_of(m.some_avg10_milli_percent as nat),
        pressure_line(Some(c), Some(m)) == pressure_line(Some(c), None) + " \u{b7} "@
            + pressure_line(None, Some(m)),
        pressure_line(None, None) == "PSI unavailable"@,
{
    reveal_strlit(" \u{b7} MEM ");
    reveal_strlit(" \u{b7} ");
    reveal_strlit("MEM ");
    assert(" \u{b7} MEM "@ =~= " \u{b7} "@ + "MEM "@);
    let left = "CPU "@ + percent_of(c.some_avg10_milli_percent as nat);
    let right = percent_of(m.some_avg10_milli_percent as nat);
    assert(left + (" \u{b7} "@ + "MEM "@) + right =~= left + " \u{b7} "@ + ("MEM "@ + right));
}

/// What is said of the power: the charge where it is known, and whether the machine
/// is connected where that is known.
pub proof fn power_is_read_out(present: bool, percent: u8)
    ensures
        power_line(
            PowerState {
                battery_present: present,
                battery_percent: Some(percent),
                ac_online: Some(true),
            },
        ) == decimal_of(percent as nat) + "% \u{b7} charging"@,
        power_line(
            PowerState {
                battery_present: present,
                battery_percent: Some(percent),
                ac_online: Some(false),
            },
        ) == decimal_of(percent as nat) + "% \u{b7} battery"@,
        power_line(
            PowerState {
                battery_present: present,
                battery_percent: Some(percent),
                ac_online: None,
            },
        ) == decimal_of(percent as nat) + "% battery"@,
        power_line(
            PowerState { battery_present: present, battery_percent: None, ac_online: Some(true) },
        ) == "AC online"@,
        power_line(
            PowerState { battery_present: present, battery_percent: None, ac_online: Some(false) },
        ) == "AC offline"@,
        power_line(
            PowerState { battery_present: present, battery_percent: None, ac_online: None },
        ) == "Power unavailable"@,
{
}

/// The memory that is free is read out before the whole memory; where it is not
/// known the whole is read out alone.
pub proof fn memory_is_read_out(snapshot: ResourceSnapshot, available: u64)
    ensures
        snapshot.memory_available_kib == Some(available) ==> memory_line(snapshot) == decimal_of(
            gib_of(available as nat),
        ) + " / "@ + decimal_of(gib_of(snapshot.capacity.memory_total_kib as nat)) + " GiB free"@,
        snapshot.memory_available_kib is None ==> memory_line(snapshot) == decimal_of(
            gib_of(snapshot.capacity.memory_total_kib as nat),
        ) + " GiB total"@,
{
}

/// What the inventory says of the power. Without a battery nothing is said of a
/// charge.
pub proof fn inventories_tell_of_the_power(percent: u8, charge: Option<u8>, online: Option<bool>)
    ensures
        inventory_power(false, charge, online) == inventory_power(false, None, online),
        inventory_power(false, charge, Some(true)) == "AC online"@,
        inventory_power(false, charge, Some(false)) == "AC offline"@,
        inventory_power(false, charge, None) == "power unavailable"@,
        inventory_power(true, Some(percent), None) == "battery "@ + decimal_of(percent as nat)
            + "%"@,
        inventory_power(true, None, None) == "battery present"@,
        inventory_power(true, charge, Some(true)) == inventory_power(true, charge, None)
            + " \u{b7} AC online"@,
        inventory_power(true, charge, Some(false)) == inventory_power(true, charge, None)
            + " \u{b7} on battery"@,
{
}

/// The line on the hardware names the processor, how many there are, the memory, the
/// graphics devices, the interfaces and the power, each from its own part of the
/// inventory.
pub proof fn the_hardware_is_read_out(snapshot: HardwareSnapshot, gib: nat)
    requires
        gib == gib_of(snapshot.memory_total_kib as nat),
    ensures
        hardware_line(snapshot) == compact(snapshot.cpu_model@, 56) + " \u{b7} "@ + decimal_of(
            snapshot.logical_cpus as nat,
        ) + " CPU \u{b7} "@ + decimal_of(gib) + " GiB \u{b7} "@ + decimal_of(
            snapshot.gpu_devices as nat,
        ) + " GPU \u{b7} "@ + decimal_of(snapshot.network_interfaces@.len()) + " net \u{b7} "@
            + inventory_power(
            snapshot.battery_present,
            snapshot.battery_percent,
            snapshot.ac_online,
        ),
{
}

/// The readouts keep to the services: what fails in one is told of that one, with
/// its reason, and the status of updates names its channel.
pub proof fn failures_are_told_of_their_service(
    error: String,
    snapshot: HardwareSnapshot,
    channel: String,
    status: String,
)
    ensures
        hardware_reply_line(HardwareReply::Inventory(snapshot)) == hardware_line(snapshot),
        hardware_reply_line(HardwareReply::Unavailable(error))
            == "Hardware service unavailable \u{b7} "@ + compact(error@, 96),
        hardware_reply_line(HardwareReply::Invalid(error)) == "Hardware snapshot unavailable \u{b7} "@
            + error@,
        update_reply_line(UpdateReply::Unavailable(error)) == "Update service unavailable \u{b7} "@
            + compact(error@, 96),
        update_reply_line(UpdateReply::Asked { channel: Err(error), status: Ok(status) })
            == "Update service unavailable \u{b7} "@ + compact(error@, 96),
        update_reply_line(UpdateReply::Asked { channel: Ok(channel), status: Err(error) })
            == "Update status unavailable \u{b7} "@ + compact(error@, 96),
        update_reply_line(UpdateReply::Asked { channel: Ok(channel), status: Ok(status) })
            == update_line(channel@, status@),
        compact(compact(status@, 16_384), 160).len() > 0 ==> update_line(channel@, status@)
            == "channel "@ + channel@ + " \u{b7} "@ + compact(compact(status@, 16_384), 160),
        compact(compact(status@, 16_384), 160).len() == 0 ==> update_line(channel@, status@)
            == "channel "@ + channel@ + " \u{b7} status query returned no output"@,
        MAX_HARDWARE_JSON_BYTES == 64 * 1024,
        MAX_UPDATE_STATUS_CHARS == 16 * 1024,
        MAX_SYSTEM_READOUT_CHARS == 160,
{
}

/// There are four workspaces; any other number leads to the nearest of them.
pub proof fn numbers_lead_to_the_nearest_workspace(value: int)
    ensures
        1 <= nearest_workspace(value) <= 4,
        1 <= value <= 4 ==> nearest_workspace(value) == value,
        value < 1 ==> nearest_workspace(value) == 1,
        value > 4 ==> nearest_workspace(value) == 4,
{
}

/// The installer opens only where both words stand on the command line, each as a
/// word of its own.
pub proof fn the_installer_opens_by_two_words(before: Seq<char>, after: Seq<char>, text: Seq<char>)
    ensures
        opens_installer(text) ==> holds_word(text, "devcore.live=1"@) && holds_word(
            text,
            "devcore.installer=auto"@,
        ),
        opens_installer(
            before + " "@ + "devcore.live=1"@ + " "@ + "devcore.installer=auto"@ + " "@ + after,
        ),
        (forall|i: int| 0 <= i < text.len() ==> !is_separator(#[trigger] text[i]))
            ==> !opens_installer(text),
{
    reveal_strlit(" ");
    reveal_strlit("devcore.live=1");
    reveal_strlit("devcore.installer=auto");
    let live = "devcore.live=1"@;
    let auto = "devcore.installer=auto"@;
    assert(live.len() == 14 && auto.len() == 22 && " "@.len() == 1);
    let line = before + " "@ + live + " "@ + auto + " "@ + after;
    let first = before.len() as int + 1;
    let second = first + 15;
    assert(line.subrange(first, first + 14) =~= live);
    assert(line.subrange(second, second + 22) =~= auto);
    assert(word_at(line, live, first));
    assert(word_at(line, auto, second));
    if forall|i: int| 0 <= i < text.len() ==> !is_separator(#[trigger] text[i]) {
        if opens_installer(text) {
            let a = choose|at: int| word_at(text, live, at);
            let b = choose|at: int| word_at(text, auto, at);
            assert(a == 0 && text.len() == 14);
            assert(b == 0 && text.len() == 22);
        }
    }
}

/// A word is found between separators only, and white space separates.
pub proof fn words_stand_alone(text: Seq<char>, word: Seq<char>)
    requires
        word.len() > 0,
        forall|i: int| 0 <= i < text.len() ==> !is_separator(#[trigger] text[i]),
    ensures
        holds_word(text, word) <==> text == word,
        is_separator(' '),
        is_separator('\n'),
        is_separator('\t'),
{
    if text == word {
        assert(text.subrange(0, text.len() as int) =~= word);
        assert(word_at(text, word, 0));
    }
    if holds_word(text, word) {
        let at = choose|at: int| word_at(text, word, at);
        assert(at == 0 && word.len() == text.len());
        assert(text.subrange(0, text.len() as int) =~= text);
    }
}

/// The terminal starts in the workspace where one is given, and it must be a
/// directory with an absolute path other than the root; otherwise it starts where it
/// starts.
pub proof fn terminals_start_in_the_workspace(workspace: Seq<char>, is_directory: bool)
    ensures
        terminal_argv(workspace, is_directory) matches Ok(argv) ==> {
            &&& argv[0] == "/usr/bin/foot"@
            &&& argv[1] == "--title=DevCore Terminal"@
            &&& trimmed(workspace).len() > 0 ==> is_directory && trimmed(workspace)[0] == '/'
                && argv.len() == 4 && gives(argv, "--working-directory"@, trimmed(workspace))
            &&& trimmed(workspace).len() == 0 ==> argv.len() == 2
        },
        trimmed(workspace).len() == 0 ==> terminal_argv(workspace, is_directory) is Ok,
        trimmed(workspace).len() > 0 && is_directory && is_absolute(trimmed(workspace))
            && components(trimmed(workspace)) != seq!["/"@] ==> terminal_argv(
            workspace,
            is_directory,
        ) is Ok,
{
    if let Ok(argv) = terminal_argv(workspace, is_directory) {
        if trimmed(workspace).len() > 0 {
            assert(argv[2] == "--working-directory"@);
            assert(argv[3] == trimmed(workspace));
        }
    }
}

/// Which browsers and assistants are looked for, in this order, and that the
/// assistant and the commands of an editor run in a terminal.
pub proof fn programs_run_in_a_terminal(program: Seq<char>, argv: Seq<Seq<char>>)
    ensures
        BROWSER_PROGRAMS@[0]@ == "/usr/bin/google-chrome-stable"@,
        BROWSER_PROGRAMS@[1]@ == "/usr/bin/google-chrome"@,
        BROWSER_PROGRAMS@[2]@ == "/usr/bin/chromium"@,
        BROWSER_PROGRAMS@[3]@ == "/usr/bin/chromium-browser"@,
        CODEX_PROGRAMS@[0]@ == "/usr/bin/codex"@,
        CODEX_PROGRAMS@[1]@ == "/usr/local/bin/codex"@,
        codex_argv(program)[0] == "/usr/bin/foot"@,
        codex_argv(program)[1] == "--title=DevCore Codex"@,
        ends_in(codex_argv(program), seq!["--"@, program]),
        codex_argv(program).len() == 4,
        in_terminal(argv)[0] == "/usr/bin/foot"@,
        in_terminal(argv)[1] == "--title=DevCore Extensions"@,
        in_terminal(argv)[2] == "--"@,
        in_terminal(argv).skip(3) == argv,
{
    assert(codex_argv(program).skip(2) =~= seq!["--"@, program]);
    assert(in_terminal(argv).skip(3) =~= argv);
}

/// Every entry of the launcher leads to what it is called, and no other entry does.
pub proof fn entries_lead_to_what_they_are_called(action: Seq<char>, step: LauncherStep)
    requires
        is_step_for(action, step),
    ensures
        step == LauncherStep::Terminal <==> action == "Terminal"@,
        step == LauncherStep::Studio <==> action == "Studio"@,
        step == LauncherStep::Resources <==> action == "Resources"@,
        step == LauncherStep::Browser <==> action == "Browser"@,
        step == LauncherStep::Codex <==> action == "Codex"@,
        step matches LauncherStep::Show(message) ==> message@ == "Unknown launcher action: "@
            + action,
{
    reveal_strlit("Terminal");
    reveal_strlit("Studio");
    reveal_strlit("Resources");
    reveal_strlit("Browser");
    reveal_strlit("Codex");
    assert("Terminal"@.len() == 8 && "Studio"@.len() == 6 && "Resources"@.len() == 9);
    assert("Browser"@.len() == 7 && "Codex"@.len() == 5);
}

/// The program that is found is the first that is available.
pub proof fn the_first_available_program_is_found(installed: Seq<bool>, at: int, k: int)
    ensures
        is_first_available(installed, at) ==> 0 <= at < installed.len() && installed[at] && (0 <= k
            < at ==> !installed[k]),
        installed.len() > 0 && installed[0] ==> is_first_available(installed, 0),
        is_first_available(installed, at) && is_first_available(installed, k) ==> at == k,
{
}

} // verus!
