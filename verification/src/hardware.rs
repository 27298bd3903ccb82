//! The hardware inventory: what the kernel's files say, bounded and in a fixed
//! form.

use crate::cli::{mode_of, output_mode, OutputMode};
use crate::json::{
    a_listed_member_follows, a_member_follows, a_quoted_member_follows, bool_text, escaped,
    json_bool, json_escape, json_strings, member, optional_bool, optional_bool_json, optional_number, optional_u64_json,
    quoted_list,
};
use crate::resource::{ac_line, battery_line, format_ac, format_battery, PowerState};
use crate::sorted::{sort_and_dedup, sorted_unique, sorted_unique_is_sorted, strictly_sorted};
use crate::text::{
    decimal, decimal_of, decimals_are_digits, divided, first_word, is_digit, is_digits, join, lines, lines_of, number_of, parse_number,
    parsed_number, push_text, same, split_once, starts_with, texts, texts_divide_at_the_first_separator,
    trim, trimmed, word_of,
    all_chars, chars_of, digit, text_of,
};
use vstd::prelude::*;

verus! {

/// Most network interfaces that are listed.
pub const MAX_NETWORK_INTERFACES: usize = 64;

/// Most graphics devices that are counted.
pub const MAX_GPU_DEVICES: u16 = 64;

/// The inventory.
#[derive(Clone, Debug, PartialEq, Eq)]
pub struct HardwareSnapshot {
    /// Model of the processor, `unknown` where the kernel does not say.
    pub cpu_model: String,
    /// Logical processors.
    pub logical_cpus: u16,
    /// Memory in KiB.
    pub memory_total_kib: u64,
    /// Whether there is a battery.
    pub battery_present: bool,
    /// Charge of the battery, where known.
    pub battery_percent: Option<u8>,
    /// Whether external power is connected, where known.
    pub ac_online: Option<bool>,
    /// Network interfaces, sorted and bounded.
    pub network_interfaces: Vec<String>,
    /// Graphics devices, bounded.
    pub gpu_devices: u16,
}

/// Why there is no inventory.
#[derive(Clone, Debug, PartialEq, Eq)]
pub enum HardwareError {
    /// A file that is needed cannot be read.
    Read {
        /// The file.
        path: String,
        /// What the system reported.
        source: String,
    },
    /// A file does not hold what is needed.
    Malformed {
        /// The file.
        source: &'static str,
        /// What is wrong.
        detail: String,
    },
}

impl HardwareError {
    /// The message for people.
    pub open spec fn text(&self) -> Seq<char> {
        match self {
            HardwareError::Read { path, source } => "could not read "@ + path@ + ": "@ + source@,
            HardwareError::Malformed { source, detail } => "could not parse "@ + source@ + ": "@
                + detail@,
        }
    }

    /// Returns the message for people.
    pub fn message(&self) -> (message: String)
        ensures
            message@ == self.text(),
    {
        match self {
            HardwareError::Read { path, source } => {
                let mut message = join("could not read ", path.as_str());
                message.append(": ");
                message.append(source.as_str());
                message
            },
            HardwareError::Malformed { source, detail } => {
                let mut message = join("could not parse ", source);
                message.append(": ");
                message.append(detail.as_str());
                message
            },
        }
    }
}

/// The processor model that one line of the processor file names.
pub open spec fn model_in_line(line: Seq<char>) -> Option<Seq<char>> {
    match divided(line, ':') {
        Some((key, value)) => if (trimmed(key) == "model name"@ || trimmed(key) == "Hardware"@)
            && trimmed(value).len() > 0 {
            Some(trimmed(value))
        } else {
            None
        },
        None => None,
    }
}

/// The first processor model that a list of lines names.
pub open spec fn model_in_lines(list: Seq<Seq<char>>) -> Option<Seq<char>>
    decreases list.len(),
{
    if list.len() == 0 {
        None
    } else {
        match model_in_line(list[0]) {
            Some(model) => Some(model),
            None => model_in_lines(list.drop_first()),
        }
    }
}

/// The amount of memory that one line of the memory file gives.
pub open spec fn memory_in_line(line: Seq<char>) -> Option<nat> {
    match divided(line, ':') {
        Some((key, value)) => if trimmed(key) == "MemTotal"@ {
            match word_of(value) {
                Some(word) => parsed_number(word, u64::MAX as nat),
                None => None,
            }
        } else {
            None
        },
        None => None,
    }
}

/// The first amount of memory that a list of lines gives.
pub open spec fn memory_in_lines(list: Seq<Seq<char>>) -> Option<nat>
    decreases list.len(),
{
    if list.len() == 0 {
        None
    } else {
        match memory_in_line(list[0]) {
            Some(amount) => Some(amount),
            None => memory_in_lines(list.drop_first()),
        }
    }
}

/// Reads the processor model from the processor file.
pub fn parse_cpu_model(contents: &str) -> (model: Option<String>)
    ensures
        match model {
            Some(text) => model_in_lines(lines_of(contents@)) == Some(text@),
            None => model_in_lines(lines_of(contents@)) is None,
        },
{
    let list = lines(contents);
    let ghost all = lines_of(contents@);
    let mut i: usize = 0;
    assert(all.skip(0) =~= all);
    while i < list.len()
        invariant
            i <= list@.len(),
            texts(list@) == all,
            all == lines_of(contents@),
            model_in_lines(all) == model_in_lines(all.skip(i as int)),
        decreases list.len() - i,
    {
        assert(all.skip(i as int)[0] == list@[i as int]@);
        assert(all.skip(i as int).drop_first() =~= all.skip(i + 1));
        if let Some((key, value)) = split_once(list[i].as_str(), ':') {
            let name = trim(key.as_str());
            let model = trim(value.as_str());
            if (same(name.as_str(), "model name") || same(name.as_str(), "Hardware"))
                && !model.as_str().is_empty() {
                return Some(model);
            }
        }
        i = i + 1;
    }
    None
}

/// Reads the amount of memory from the memory file.
pub fn parse_memory_total(contents: &str) -> (result: Result<u64, HardwareError>)
    ensures
        match result {
            Ok(amount) => memory_in_lines(lines_of(contents@)) == Some(amount as nat),
            Err(HardwareError::Malformed { source, detail }) => memory_in_lines(
                lines_of(contents@),
            ) is None && source@ == "/proc/meminfo"@ && detail@
                == "MemTotal is missing or invalid"@,
            Err(_) => false,
        },
{
    let list = lines(contents);
    let ghost all = lines_of(contents@);
    let mut i: usize = 0;
    assert(all.skip(0) =~= all);
    while i < list.len()
        invariant
            i <= list@.len(),
            texts(list@) == all,
            all == lines_of(contents@),
            memory_in_lines(all) == memory_in_lines(all.skip(i as int)),
        decreases list.len() - i,
    {
        assert(all.skip(i as int)[0] == list@[i as int]@);
        assert(all.skip(i as int).drop_first() =~= all.skip(i + 1));
        if let Some((key, value)) = split_once(list[i].as_str(), ':') {
            let name = trim(key.as_str());
            if same(name.as_str(), "MemTotal") {
                if let Some(word) = first_word(value.as_str()) {
                    if let Some(amount) = parse_number(word.as_str(), u64::MAX) {
                        return Ok(amount);
                    }
                }
            }
        }
        i = i + 1;
    }
    Err(
        HardwareError::Malformed {
            source: "/proc/meminfo",
            detail: "MemTotal is missing or invalid".to_owned(),
        },
    )
}

/// The raw files of one power supply; a file that cannot be read is missing.
#[derive(Clone, Debug, PartialEq, Eq)]
pub struct PowerSupply {
    /// The file `type`.
    pub kind: Option<String>,
    /// The file `capacity`.
    pub capacity: Option<String>,
    /// The file `online`.
    pub online: Option<String>,
}

/// What a small file says: its text without surrounding white space, unless
/// nothing is left.
pub open spec fn reading(raw: Option<String>) -> Option<Seq<char>> {
    match raw {
        Some(text) => if trimmed(text@).len() > 0 {
            Some(trimmed(text@))
        } else {
            None
        },
        None => None,
    }
}

/// Cleans the text of a small file.
pub fn read_trimmed(raw: &Option<String>) -> (value: Option<String>)
    ensures
        match value {
            Some(text) => reading(*raw) == Some(text@),
            None => reading(*raw) is None,
        },
{
    match raw {
        Some(text) => {
            let value = trim(text.as_str());
            if value.as_str().is_empty() {
                None
            } else {
                Some(value)
            }
        },
        None => None,
    }
}

/// What the file `online` says.
pub open spec fn online_of(value: Seq<char>) -> Option<bool> {
    if value == "0"@ {
        Some(false)
    } else if value == "1"@ {
        Some(true)
    } else {
        None
    }
}

/// Reads the file `online`.
pub fn parse_online(value: &str) -> (online: Option<bool>)
    ensures
        online == online_of(value@),
{
    if same(value, "0") {
        proof {
            reveal_strlit("0");
            reveal_strlit("1");
        }
        Some(false)
    } else if same(value, "1") {
        Some(true)
    } else {
        None
    }
}

/// A supply of external power.
pub open spec fn is_external(kind: Seq<char>) -> bool {
    kind == "Mains"@ || kind == "USB"@ || kind == "USB_C"@ || kind == "Wireless"@
}

/// The charge that a supply reports.
pub open spec fn charge_of(supply: PowerSupply) -> Option<u8> {
    match reading(supply.capacity) {
        Some(text) => match parsed_number(text, 255) {
            Some(value) => Some(value as u8),
            None => None,
        },
        None => None,
    }
}

/// The connection that a supply reports.
pub open spec fn connection_of(supply: PowerSupply) -> Option<bool> {
    match reading(supply.online) {
        Some(text) => online_of(text),
        None => None,
    }
}

/// The power state with one more supply taken into account: a battery is noted
/// and the first charge and the first connection that are known stay.
pub open spec fn with_supply(state: PowerState, supply: PowerSupply) -> PowerState {
    match reading(supply.kind) {
        Some(kind) => if kind == "Battery"@ {
            PowerState {
                battery_present: true,
                battery_percent: if state.battery_percent is Some {
                    state.battery_percent
                } else {
                    charge_of(supply)
                },
                ac_online: state.ac_online,
            }
        } else if is_external(kind) {
            PowerState {
                battery_present: state.battery_present,
                battery_percent: state.battery_percent,
                ac_online: if state.ac_online is Some {
                    state.ac_online
                } else {
                    connection_of(supply)
                },
            }
        } else {
            state
        },
        None => state,
    }
}

/// The power state that a list of supplies gives.
pub open spec fn power_of(supplies: Seq<PowerSupply>) -> PowerState
    decreases supplies.len(),
{
    if supplies.len() == 0 {
        PowerState { battery_present: false, battery_percent: None, ac_online: None }
    } else {
        with_supply(power_of(supplies.drop_last()), supplies.last())
    }
}

fn add_supply(state: PowerState, supply: &PowerSupply) -> (next: PowerState)
    ensures
        next == with_supply(state, *supply),
{
    proof {
        reveal_strlit("Battery");
        reveal_strlit("Mains");
        reveal_strlit("USB");
        reveal_strlit("USB_C");
        reveal_strlit("Wireless");
    }
    match read_trimmed(&supply.kind) {
        Some(kind) => if same(kind.as_str(), "Battery") {
            let mut percent = state.battery_percent;
            if percent.is_none() {
                if let Some(text) = read_trimmed(&supply.capacity) {
                    if let Some(value) = parse_number(text.as_str(), 255) {
                        percent = Some(value as u8);
                    }
                }
            }
            PowerState {
                battery_present: true,
                battery_percent: percent,
                ac_online: state.ac_online,
            }
        } else if same(kind.as_str(), "Mains") || same(kind.as_str(), "USB") || same(
            kind.as_str(),
            "USB_C",
        ) || same(kind.as_str(), "Wireless") {
            let mut online = state.ac_online;
            if online.is_none() {
                if let Some(text) = read_trimmed(&supply.online) {
                    online = parse_online(text.as_str());
                }
            }
            PowerState {
                battery_present: state.battery_present,
                battery_percent: state.battery_percent,
                ac_online: online,
            }
        } else {
            state
        },
        None => state,
    }
}

/// Reads the power state from the supplies, in the order of the list.
pub fn read_power_state(supplies: &Vec<PowerSupply>) -> (state: PowerState)
    ensures
        state == power_of(supplies@),
{
    let mut state = PowerState {
        battery_present: false,
        battery_percent: None,
        ac_online: None,
    };
    let mut i: usize = 0;
    assert(supplies@.take(0) =~= Seq::empty());
    while i < supplies.len()
        invariant
            i <= supplies@.len(),
            state == power_of(supplies@.take(i as int)),
        decreases supplies.len() - i,
    {
        state = add_supply(state, &supplies[i]);
        assert(supplies@.take(i + 1).drop_last() =~= supplies@.take(i as int));
        assert(supplies@.take(i + 1).last() == supplies@[i as int]);
        i = i + 1;
    }
    assert(supplies@.take(i as int) =~= supplies@);
    state
}

/// The interfaces that are listed: the first entries up to the bound, sorted,
/// each once.
pub open spec fn interfaces_of(entries: Seq<Seq<char>>) -> Seq<Seq<char>> {
    sorted_unique(
        if entries.len() <= MAX_NETWORK_INTERFACES {
            entries
        } else {
            entries.take(MAX_NETWORK_INTERFACES as int)
        },
    )
}

/// Lists the network interfaces.
pub fn read_network_interfaces(entries: &Vec<String>) -> (interfaces: Vec<String>)
    ensures
        texts(interfaces@) == interfaces_of(texts(entries@)),
        strictly_sorted(texts(interfaces@)),
        interfaces@.len() <= MAX_NETWORK_INTERFACES,
{
    let ghost all = texts(entries@);
    let mut bounded: Vec<String> = Vec::new();
    let mut i: usize = 0;
    assert(texts(bounded@) =~= all.take(0));
    while i < entries.len() && i < MAX_NETWORK_INTERFACES
        invariant
            i <= entries@.len(),
            i <= MAX_NETWORK_INTERFACES,
            all == texts(entries@),
            texts(bounded@) == all.take(i as int),
        decreases entries.len() - i,
    {
        push_text(&mut bounded, entries[i].as_str());
        assert(all.take(i + 1) =~= all.take(i as int).push(entries@[i as int]@));
        i = i + 1;
    }
    proof {
        if all.len() <= MAX_NETWORK_INTERFACES {
            assert(all.take(i as int) =~= all);
        }
        sorted_unique_is_sorted(texts(bounded@));
    }
    let interfaces = sort_and_dedup(&bounded);
    assert(texts(interfaces@).len() == interfaces@.len());
    interfaces
}

/// A name of a primary graphics device: `card` and a number.
pub open spec fn is_card(name: Seq<char>) -> bool {
    "card"@.is_prefix_of(name) && is_digits(name.skip(4))
}

/// The number of primary graphics devices among a list of names.
pub open spec fn card_count(names: Seq<Seq<char>>) -> nat
    decreases names.len(),
{
    if names.len() == 0 {
        0
    } else {
        card_count(names.drop_last()) + if is_card(names.last()) {
            1nat
        } else {
            0nat
        }
    }
}

fn card(name: &str) -> (result: bool)
    ensures
        result == is_card(name@),
{
    proof {
        reveal_strlit("card");
        assert("card"@.len() == 4);
    }
    if !starts_with(name, "card") {
        return false;
    }
    let chars = chars_of(name);
    let number = text_of(&chars, 4, chars.len());
    assert(number@ =~= name@.skip(4));
    !number.as_str().is_empty() && all_chars(number.as_str(), digit)
}

/// Counts the primary graphics devices, up to the bound.
pub fn read_gpu_devices(entries: &Vec<String>) -> (count: u16)
    ensures
        count == if card_count(texts(entries@)) <= MAX_GPU_DEVICES {
            card_count(texts(entries@))
        } else {
            MAX_GPU_DEVICES as nat
        },
{
    let ghost all = texts(entries@);
    let mut count: u16 = 0;
    let mut i: usize = 0;
    assert(all.take(0) =~= Seq::empty());
    while i < entries.len()
        invariant
            i <= entries@.len(),
            all == texts(entries@),
            count <= MAX_GPU_DEVICES,
            count == if card_count(all.take(i as int)) <= MAX_GPU_DEVICES {
                card_count(all.take(i as int))
            } else {
                MAX_GPU_DEVICES as nat
            },
        decreases entries.len() - i,
    {
        assert(all.take(i + 1).drop_last() =~= all.take(i as int));
        assert(all.take(i + 1).last() == entries@[i as int]@);
        if card(entries[i].as_str()) && count < MAX_GPU_DEVICES {
            count = count + 1;
        }
        i = i + 1;
    }
    assert(all.take(i as int) =~= all);
    count
}

/// The number of logical processors for what the system reports.
pub open spec fn processors_of(parallelism: Option<usize>) -> int {
    match parallelism {
        Some(value) => if 0 < value <= u16::MAX {
            value as int
        } else {
            1
        },
        None => 1,
    }
}

/// The number of logical processors: what the system reports if it is positive
/// and fits, otherwise one.
pub fn logical_cpu_count(parallelism: Option<usize>) -> (count: u16)
    ensures
        count == processors_of(parallelism),
        count >= 1,
{
    match parallelism {
        Some(value) => if value > 0 && value <= 65535 {
            value as u16
        } else {
            1
        },
        None => 1,
    }
}

/// What was read from the system for one inventory. A file is its text or what
/// the system reported instead.
#[derive(Debug)]
pub struct HardwareReadings {
    /// The file `/proc/cpuinfo`.
    pub cpu_info: Result<String, String>,
    /// The file `/proc/meminfo`.
    pub memory_info: Result<String, String>,
    /// Processors that the system reports.
    pub parallelism: Option<usize>,
    /// Entries of `/sys/class/power_supply`.
    pub power_supplies: Vec<PowerSupply>,
    /// Entries of `/sys/class/net`.
    pub network_entries: Vec<String>,
    /// Entries of `/sys/class/drm`.
    pub drm_entries: Vec<String>,
}

/// The inventory that the readings give.
pub open spec fn is_inventory(readings: HardwareReadings, snapshot: HardwareSnapshot) -> bool {
    &&& readings.cpu_info is Ok
    &&& readings.memory_info is Ok
    &&& snapshot.cpu_model@ == match model_in_lines(lines_of(readings.cpu_info->Ok_0@)) {
        Some(model) => model,
        None => "unknown"@,
    }
    &&& snapshot.logical_cpus == processors_of(readings.parallelism)
    &&& memory_in_lines(lines_of(readings.memory_info->Ok_0@)) == Some(
        snapshot.memory_total_kib as nat,
    )
    &&& snapshot.battery_present == power_of(readings.power_supplies@).battery_present
    &&& snapshot.battery_percent == power_of(readings.power_supplies@).battery_percent
    &&& snapshot.ac_online == power_of(readings.power_supplies@).ac_online
    &&& texts(snapshot.network_interfaces@) == interfaces_of(texts(readings.network_entries@))
    &&& snapshot.gpu_devices == if card_count(texts(readings.drm_entries@)) <= MAX_GPU_DEVICES {
        card_count(texts(readings.drm_entries@))
    } else {
        MAX_GPU_DEVICES as nat
    }
}

/// Puts the readings together. The processor file is needed first, then the
/// memory file, then the amount of memory in it.
pub fn collect_snapshot(readings: &HardwareReadings) -> (result: Result<
    HardwareSnapshot,
    HardwareError,
>)
    ensures
        match result {
            Ok(snapshot) => is_inventory(*readings, snapshot),
            Err(HardwareError::Read { path, source }) => (readings.cpu_info is Err && path@
                == "/proc/cpuinfo"@ && source@ == readings.cpu_info->Err_0@) || (
            readings.cpu_info is Ok && readings.memory_info is Err && path@ == "/proc/meminfo"@
                && source@ == readings.memory_info->Err_0@),
            Err(HardwareError::Malformed { source, detail }) => readings.cpu_info is Ok
                && readings.memory_info is Ok && memory_in_lines(
                lines_of(readings.memory_info->Ok_0@),
            ) is None && source@ == "/proc/meminfo"@ && detail@
                == "MemTotal is missing or invalid"@,
        },
{
    match &readings.cpu_info {
        Err(source) => Err(
            HardwareError::Read { path: "/proc/cpuinfo".to_owned(), source: source.clone() },
        ),
        Ok(cpu_info) => match &readings.memory_info {
            Err(source) => Err(
                HardwareError::Read { path: "/proc/meminfo".to_owned(), source: source.clone() },
            ),
            Ok(memory_info) => match parse_memory_total(memory_info.as_str()) {
                Err(error) => Err(error),
                Ok(memory_total_kib) => {
                    let power = read_power_state(&readings.power_supplies);
                    let cpu_model = match parse_cpu_model(cpu_info.as_str()) {
                        Some(model) => model,
                        None => "unknown".to_owned(),
                    };
                    Ok(
                        HardwareSnapshot {
                            cpu_model,
                            logical_cpus: logical_cpu_count(readings.parallelism),
                            memory_total_kib,
                            battery_present: power.battery_present,
                            battery_percent: power.battery_percent,
                            ac_online: power.ac_online,
                            network_interfaces: read_network_interfaces(&readings.network_entries),
                            gpu_devices: read_gpu_devices(&readings.drm_entries),
                        },
                    )
                },
            },
        },
    }
}

/// Every inventory is bounded: at least one processor, no more interfaces and
/// graphics devices than the bounds, and the interfaces in order, each once.
pub proof fn inventory_is_bounded(readings: HardwareReadings, snapshot: HardwareSnapshot)
    requires
        is_inventory(readings, snapshot),
    ensures
        snapshot.logical_cpus >= 1,
        snapshot.network_interfaces@.len() <= MAX_NETWORK_INTERFACES,
        strictly_sorted(texts(snapshot.network_interfaces@)),
        snapshot.gpu_devices <= MAX_GPU_DEVICES,
{
    let entries = texts(readings.network_entries@);
    sorted_unique_is_sorted(
        if entries.len() <= MAX_NETWORK_INTERFACES {
            entries
        } else {
            entries.take(MAX_NETWORK_INTERFACES as int)
        },
    );
    assert(texts(snapshot.network_interfaces@).len() == snapshot.network_interfaces@.len());
}

/// The inventory as one JSON object.
pub open spec fn inventory_json(snapshot: HardwareSnapshot) -> Seq<char> {
    "{\"cpu_model\":\""@ + escaped(snapshot.cpu_model@) + "\",\"logical_cpus\":"@ + decimal_of(
        snapshot.logical_cpus as nat,
    ) + ",\"memory_total_kib\":"@ + decimal_of(snapshot.memory_total_kib as nat)
        + ",\"battery_present\":"@ + bool_text(snapshot.battery_present)
        + ",\"battery_percent\":"@ + optional_number(
        match snapshot.battery_percent {
            Some(value) => Some(value as nat),
            None => None,
        },
    ) + ",\"ac_online\":"@ + optional_bool(snapshot.ac_online) + ",\"network_interfaces\":["@
        + quoted_list(texts(snapshot.network_interfaces@)) + "],\"gpu_devices\":"@ + decimal_of(
        snapshot.gpu_devices as nat,
    ) + "}"@
}

/// Formats the inventory as one JSON object.
pub fn snapshot_as_json(snapshot: &HardwareSnapshot) -> (text: String)
    ensures
        text@ == inventory_json(*snapshot),
{
    let percent = match snapshot.battery_percent {
        Some(value) => Some(value as u64),
        None => None,
    };
    let mut text = "{\"cpu_model\":\"".to_owned();
    text.append(json_escape(snapshot.cpu_model.as_str()).as_str());
    text.append("\",\"logical_cpus\":");
    text.append(decimal(snapshot.logical_cpus as u64).as_str());
    text.append(",\"memory_total_kib\":");
    text.append(decimal(snapshot.memory_total_kib).as_str());
    text.append(",\"battery_present\":");
    text.append(json_bool(snapshot.battery_present));
    text.append(",\"battery_percent\":");
    text.append(optional_u64_json(percent).as_str());
    text.append(",\"ac_online\":");
    text.append(optional_bool_json(snapshot.ac_online));
    text.append(",\"network_interfaces\":[");
    text.append(json_strings(&snapshot.network_interfaces).as_str());
    text.append("],\"gpu_devices\":");
    text.append(decimal(snapshot.gpu_devices as u64).as_str());
    text.append("}");
    text
}

/// Texts separated by a comma and a blank.
pub open spec fn comma_list(list: Seq<Seq<char>>) -> Seq<char>
    decreases list.len(),
{
    if list.len() == 0 {
        Seq::empty()
    } else if list.len() == 1 {
        list[0]
    } else {
        comma_list(list.drop_last()) + ", "@ + list.last()
    }
}

/// Joins texts with a comma and a blank.
pub fn join_with_commas(list: &Vec<String>) -> (text: String)
    ensures
        text@ == comma_list(texts(list@)),
{
    let mut text = String::new();
    let ghost all = texts(list@);
    let mut i: usize = 0;
    assert(all.take(0) =~= Seq::empty());
    while i < list.len()
        invariant
            i <= list@.len(),
            all == texts(list@),
            text@ == comma_list(all.take(i as int)),
        decreases list.len() - i,
    {
        let ghost next = all.take(i + 1);
        assert(next.drop_last() =~= all.take(i as int));
        assert(next.last() == list@[i as int]@);
        if i > 0 {
            text.append(", ");
        } else {
            assert(next[0] == list@[0]@);
        }
        text.append(list[i].as_str());
        assert(i == 0 ==> text@ =~= next[0]);
        i = i + 1;
    }
    assert(all.take(i as int) =~= all);
    text
}

/// The report on an inventory, line by line.
pub open spec fn hardware_report(snapshot: HardwareSnapshot) -> Seq<Seq<char>> {
    seq![
        "DevCore hardware snapshot"@,
        "CPU: "@ + snapshot.cpu_model@,
        "logical CPUs: "@ + decimal_of(snapshot.logical_cpus as nat),
        "memory total: "@ + decimal_of(snapshot.memory_total_kib as nat) + " KiB"@,
        "GPU devices: "@ + decimal_of(snapshot.gpu_devices as nat),
        "network interfaces: "@ + comma_list(texts(snapshot.network_interfaces@)),
        "battery present: "@ + bool_text(snapshot.battery_present),
        battery_line(snapshot.battery_percent),
        ac_line(snapshot.ac_online),
    ]
}

/// Formats the report on an inventory, line by line.
pub fn format_report(snapshot: &HardwareSnapshot) -> (list: Vec<String>)
    ensures
        texts(list@) == hardware_report(*snapshot),
{
    let mut list: Vec<String> = Vec::new();
    assert(texts(list@) =~= Seq::empty());
    push_text(&mut list, "DevCore hardware snapshot");
    push_text(&mut list, join("CPU: ", snapshot.cpu_model.as_str()).as_str());
    push_text(
        &mut list,
        join("logical CPUs: ", decimal(snapshot.logical_cpus as u64).as_str()).as_str(),
    );
    let mut total = join("memory total: ", decimal(snapshot.memory_total_kib).as_str());
    total.append(" KiB");
    push_text(&mut list, total.as_str());
    push_text(
        &mut list,
        join("GPU devices: ", decimal(snapshot.gpu_devices as u64).as_str()).as_str(),
    );
    push_text(
        &mut list,
        join("network interfaces: ", join_with_commas(&snapshot.network_interfaces).as_str()).as_str(),
    );
    push_text(&mut list, join("battery present: ", json_bool(snapshot.battery_present)).as_str());
    push_text(&mut list, format_battery(snapshot.battery_percent).as_str());
    push_text(&mut list, format_ac(snapshot.ac_online));
    list
}

/// Usage of the hardware service.
pub open spec fn usage() -> Seq<char> {
    "usage: devcore-hardwared [snapshot] [--json] [--daemon]"@
}

/// Reads the command line of the hardware service.
pub fn parse_arguments(arguments: &Vec<String>) -> (result: Result<OutputMode, String>)
    ensures
        match result {
            Ok(mode) => mode_of(texts(arguments@), usage()) == Ok::<OutputMode, Seq<char>>(mode),
            Err(message) => mode_of(texts(arguments@), usage()) == Err::<OutputMode, Seq<char>>(
                message@,
            ),
        },
{
    output_mode(arguments, "usage: devcore-hardwared [snapshot] [--json] [--daemon]")
}

impl HardwareSnapshot {
    /// Returns the number of network interfaces, as far as it fits.
    pub fn network_interface_count(&self) -> (count: u16)
        ensures
            count == if self.network_interfaces@.len() <= u16::MAX {
                self.network_interfaces@.len() as int
            } else {
                u16::MAX as int
            },
    {
        if self.network_interfaces.len() <= 65535 {
            self.network_interfaces.len() as u16
        } else {
            65535
        }
    }
}

/// The model of the processor is what follows the colon on the first line that is
/// about it.
pub proof fn models_come_from_their_line(
    key: Seq<char>,
    value: Seq<char>,
    rest: Seq<Seq<char>>,
    other: Seq<char>,
)
    requires
        !key.contains(':'),
    ensures
        ({
            let line = key.push(':') + value;
            &&& (trimmed(key) == "model name"@ || trimmed(key) == "Hardware"@) && trimmed(
                value,
            ).len() > 0 ==> model_in_lines(seq![line] + rest) == Some(trimmed(value))
            &&& trimmed(key) != "model name"@ && trimmed(key) != "Hardware"@ ==> model_in_lines(
                seq![line] + rest,
            ) == model_in_lines(rest)
            &&& trimmed(value).len() == 0 ==> model_in_lines(seq![line] + rest) == model_in_lines(
                rest,
            )
        }),
        !other.contains(':') ==> model_in_lines(seq![other] + rest) == model_in_lines(rest),
        model_in_lines(Seq::empty()) is None,
{
    texts_divide_at_the_first_separator(key, value, ':');
    let line = key.push(':') + value;
    assert((seq![line] + rest).drop_first() =~= rest);
    assert((seq![other] + rest).drop_first() =~= rest);
    if !other.contains(':') {
        texts_divide_at_the_first_separator(other, value, ':');
    }
}

/// The memory is the number that follows the colon on the first line that is about
/// the total, whatever unit follows it.
pub proof fn memory_comes_from_its_line(key: Seq<char>, value: Seq<char>, rest: Seq<Seq<char>>)
    requires
        !key.contains(':'),
    ensures
        ({
            let line = key.push(':') + value;
            &&& trimmed(key) == "MemTotal"@ && word_of(value) is Some && is_digits(
                word_of(value)->0,
            ) && number_of(word_of(value)->0) <= u64::MAX ==> memory_in_lines(seq![line] + rest)
                == Some(number_of(word_of(value)->0))
            &&& trimmed(key) != "MemTotal"@ ==> memory_in_lines(seq![line] + rest)
                == memory_in_lines(rest)
        }),
        memory_in_lines(Seq::empty()) is None,
{
    texts_divide_at_the_first_separator(key, value, ':');
    let line = key.push(':') + value;
    assert((seq![line] + rest).drop_first() =~= rest);
    if word_of(value) is Some && is_digits(word_of(value)->0) {
        assert(is_digit(word_of(value)->0[0]));
    }
}

/// A battery tells only about the battery and a source of power only about the
/// connection. The first reading of each counts, and other devices say nothing.
pub proof fn supplies_tell_about_themselves(supplies: Seq<PowerSupply>, supply: PowerSupply)
    ensures
        ({
            let before = power_of(supplies);
            let after = power_of(supplies.push(supply));
            let kind = reading(supply.kind);
            &&& kind == Some("Battery"@) ==> after.battery_present && after.ac_online
                == before.ac_online
            &&& kind == Some("Battery"@) && before.battery_percent is None ==> after.battery_percent
                == charge_of(supply)
            &&& before.battery_percent is Some ==> after.battery_percent == before.battery_percent
            &&& kind == Some("Mains"@) || kind == Some("USB"@) || kind == Some("USB_C"@) || kind
                == Some("Wireless"@) ==> {
                &&& after.battery_present == before.battery_present
                &&& after.battery_percent == before.battery_percent
                &&& before.ac_online is None ==> after.ac_online == connection_of(supply)
            }
            &&& before.ac_online is Some ==> after.ac_online == before.ac_online
            &&& kind is None || (kind->0 != "Battery"@ && !is_external(kind->0)) ==> after == before
            &&& before.battery_present ==> after.battery_present
        }),
        power_of(Seq::empty()) == (PowerState {
            battery_present: false,
            battery_percent: None,
            ac_online: None,
        }),
        online_of("1"@) == Some(true),
        online_of("0"@) == Some(false),
{
    assert(supplies.push(supply).drop_last() =~= supplies);
    reveal_strlit("Battery");
    reveal_strlit("Mains");
    reveal_strlit("USB");
    reveal_strlit("USB_C");
    reveal_strlit("Wireless");
    reveal_strlit("0");
    reveal_strlit("1");
    assert("Battery"@.len() == 7 && "Mains"@.len() == 5 && "USB"@.len() == 3);
    assert("USB_C"@.len() == 5 && "Wireless"@.len() == 8);
    assert("0"@[0] == '0' && "1"@[0] == '1');
}

/// A charge is read as a number of at most one byte, and a connection is on or off.
pub proof fn readings_are_numbers_and_switches(supply: PowerSupply, value: Seq<char>)
    ensures
        charge_of(supply) matches Some(percent) ==> parsed_number(
            reading(supply.capacity)->0,
            255,
        ) == Some(percent as nat),
        reading(supply.capacity) matches Some(text) ==> (charge_of(supply) is Some <==> (
        parsed_number(text, 255) is Some)),
        reading(supply.capacity) is None ==> charge_of(supply) is None,
        online_of(value) is Some <==> value == "0"@ || value == "1"@,
{
    if let Some(text) = reading(supply.capacity) {
        if let Some(number) = parsed_number(text, 255) {
            assert(number <= 255);
        }
    }
}

/// The interfaces are those among the first entries that are looked at, in order
/// and each once.
pub proof fn interfaces_are_the_first_entries(entries: Seq<Seq<char>>, name: Seq<char>)
    ensures
        entries.len() <= 64 ==> (interfaces_of(entries).contains(name) <==> entries.contains(name)),
        entries.len() > 64 ==> (interfaces_of(entries).contains(name) <==> entries.take(
            64,
        ).contains(name)),
        strictly_sorted(interfaces_of(entries)),
        MAX_NETWORK_INTERFACES == 64,
        MAX_GPU_DEVICES == 64,
{
    sorted_unique_is_sorted(
        if entries.len() <= MAX_NETWORK_INTERFACES {
            entries
        } else {
            entries.take(MAX_NETWORK_INTERFACES as int)
        },
    );
    if entries.len() <= 64 {
        assert(interfaces_of(entries).contains(name) <==> entries.contains(name));
    } else {
        assert(interfaces_of(entries).contains(name) <==> entries.take(64).contains(name));
    }
}

/// A graphics device is a card with a number. A connector of a card is none, and
/// every card counts once.
pub proof fn cards_are_counted(
    names: Seq<Seq<char>>,
    number: nat,
    connector: Seq<char>,
    name: Seq<char>,
)
    ensures
        is_card("card"@ + decimal_of(number)),
        connector.contains('-') ==> !is_card("card"@ + connector),
        !is_card("card"@),
        card_count(names.push(name)) == card_count(names) + if is_card(name) {
            1nat
        } else {
            0nat
        },
        card_count(Seq::empty()) == 0,
        card_count(names) <= names.len(),
    decreases names.len(),
{
    reveal_strlit("card");
    decimals_are_digits(number);
    let numbered = "card"@ + decimal_of(number);
    assert(numbered.skip(4) =~= decimal_of(number));
    assert("card"@ =~= numbered.take(4));
    let connected = "card"@ + connector;
    assert(connected.skip(4) =~= connector);
    if connector.contains('-') {
        let k = choose|k: int| 0 <= k < connector.len() && connector[k] == '-';
        assert(!is_digit(connector[k]));
    }
    assert("card"@.skip(4).len() == 0);
    assert(names.push(name).drop_last() =~= names);
    if names.len() > 0 {
        cards_are_counted(names.drop_last(), number, connector, name);
    }
}

/// What the system reports counts where it is a number of processors at all.
pub proof fn there_is_a_processor(value: usize)
    ensures
        processors_of(None) == 1,
        1 <= value <= 65535 ==> processors_of(Some(value)) == value,
        value == 0 || value > 65535 ==> processors_of(Some(value)) == 1,
{
}

/// The report has one line for each part of the inventory, under its name.
pub proof fn hardware_reports_say_each_part(snapshot: HardwareSnapshot, percent: u8)
    ensures
        ({
            let report = hardware_report(snapshot);
            &&& report.len() == 9
            &&& report[1] == "CPU: "@ + snapshot.cpu_model@
            &&& report[2] == "logical CPUs: "@ + decimal_of(snapshot.logical_cpus as nat)
            &&& report[3] == "memory total: "@ + decimal_of(snapshot.memory_total_kib as nat)
                + " KiB"@
            &&& report[4] == "GPU devices: "@ + decimal_of(snapshot.gpu_devices as nat)
            &&& report[5] == "network interfaces: "@ + comma_list(
                texts(snapshot.network_interfaces@),
            )
            &&& report[6] == "battery present: "@ + bool_text(snapshot.battery_present)
            &&& snapshot.battery_percent == Some(percent) ==> report[7] == "battery: "@
                + decimal_of(percent as nat) + "%"@
            &&& snapshot.battery_percent is None ==> report[7] == "battery: unavailable"@
            &&& snapshot.ac_online == Some(true) ==> report[8] == "AC: online"@
            &&& snapshot.ac_online == Some(false) ==> report[8] == "AC: offline"@
            &&& snapshot.ac_online is None ==> report[8] == "AC: unavailable"@
        }),
{
}

/// Lists are written with a comma and a space between their items.
pub proof fn items_are_separated(list: Seq<Seq<char>>, item: Seq<char>)
    ensures
        comma_list(Seq::empty()) == Seq::<char>::empty(),
        comma_list(seq![item]) == item,
        list.len() > 0 ==> comma_list(list.push(item)) == comma_list(list) + ", "@ + item,
{
    assert(list.push(item).drop_last() =~= list);
}

/// The document has a member for each part of the inventory, under its name.
pub proof fn inventories_name_every_part(snapshot: HardwareSnapshot)
    ensures
        inventory_json(snapshot) == "{"@ + member(
            "cpu_model"@,
            "\""@ + escaped(snapshot.cpu_model@) + "\""@,
        ) + ","@ + member("logical_cpus"@, decimal_of(snapshot.logical_cpus as nat)) + ","@
            + member("memory_total_kib"@, decimal_of(snapshot.memory_total_kib as nat)) + ","@
            + member("battery_present"@, bool_text(snapshot.battery_present)) + ","@ + member(
            "battery_percent"@,
            optional_number(
                match snapshot.battery_percent {
                    Some(value) => Some(value as nat),
                    None => None,
                },
            ),
        ) + ","@ + member("ac_online"@, optional_bool(snapshot.ac_online)) + ","@ + member(
            "network_interfaces"@,
            "["@ + quoted_list(texts(snapshot.network_interfaces@)) + "]"@,
        ) + ","@ + member("gpu_devices"@, decimal_of(snapshot.gpu_devices as nat)) + "}"@,
{
    let percent = optional_number(
        match snapshot.battery_percent {
            Some(value) => Some(value as nat),
            None => None,
        },
    );
    let list = quoted_list(texts(snapshot.network_interfaces@));
    let model = "{"@ + member("cpu_model"@, "\""@ + escaped(snapshot.cpu_model@) + "\""@);
    let cpus = model + ","@ + member("logical_cpus"@, decimal_of(snapshot.logical_cpus as nat));
    let memory = cpus + ","@ + member(
        "memory_total_kib"@,
        decimal_of(snapshot.memory_total_kib as nat),
    );
    let present = memory + ","@ + member("battery_present"@, bool_text(snapshot.battery_present));
    let charge = present + ","@ + member("battery_percent"@, percent);
    let online = charge + ","@ + member("ac_online"@, optional_bool(snapshot.ac_online));
    let network = online + ","@ + member("network_interfaces"@, "["@ + list + "]"@);
    assert("{\"cpu_model\":\""@ == "{"@ + ("\""@ + "cpu_model"@ + "\":"@ + "\""@)) by {
        reveal_strlit("{");
        reveal_strlit("\"");
        reveal_strlit("cpu_model");
        reveal_strlit("\":");
        reveal_strlit("{\"cpu_model\":\"");
        assert("{\"cpu_model\":\""@ =~= "{"@ + ("\""@ + "cpu_model"@ + "\":"@ + "\""@));
    }
    assert("\",\"logical_cpus\":"@ == "\""@ + (","@ + "\""@ + "logical_cpus"@ + "\":"@)) by {
        reveal_strlit("\"");
        reveal_strlit(",");
        reveal_strlit("logical_cpus");
        reveal_strlit("\":");
        reveal_strlit("\",\"logical_cpus\":");
        assert("\",\"logical_cpus\":"@ =~= "\""@ + (","@ + "\""@ + "logical_cpus"@ + "\":"@));
    }
    assert(",\"memory_total_kib\":"@ == ","@ + "\""@ + "memory_total_kib"@ + "\":"@) by {
        reveal_strlit(",");
        reveal_strlit("\"");
        reveal_strlit("memory_total_kib");
        reveal_strlit("\":");
        reveal_strlit(",\"memory_total_kib\":");
        assert(",\"memory_total_kib\":"@ =~= ","@ + "\""@ + "memory_total_kib"@ + "\":"@);
    }
    assert(",\"battery_present\":"@ == ","@ + "\""@ + "battery_present"@ + "\":"@) by {
        reveal_strlit(",");
        reveal_strlit("\"");
        reveal_strlit("battery_present");
        reveal_strlit("\":");
        reveal_strlit(",\"battery_present\":");
        assert(",\"battery_present\":"@ =~= ","@ + "\""@ + "battery_present"@ + "\":"@);
    }
    assert(",\"battery_percent\":"@ == ","@ + "\""@ + "battery_percent"@ + "\":"@) by {
        reveal_strlit(",");
        reveal_strlit("\"");
        reveal_strlit("battery_percent");
        reveal_strlit("\":");
        reveal_strlit(",\"battery_percent\":");
        assert(",\"battery_percent\":"@ =~= ","@ + "\""@ + "battery_percent"@ + "\":"@);
    }
    assert(",\"ac_online\":"@ == ","@ + "\""@ + "ac_online"@ + "\":"@) by {
        reveal_strlit(",");
        reveal_strlit("\"");
        reveal_strlit("ac_online");
        reveal_strlit("\":");
        reveal_strlit(",\"ac_online\":");
        assert(",\"ac_online\":"@ =~= ","@ + "\""@ + "ac_online"@ + "\":"@);
    }
    assert(",\"network_interfaces\":["@ == (","@ + "\""@ + "network_interfaces"@ + "\":"@) + "["@) by {
        reveal_strlit(",");
        reveal_strlit("\"");
        reveal_strlit("network_interfaces");
        reveal_strlit("\":");
        reveal_strlit("[");
        reveal_strlit(",\"network_interfaces\":[");
        assert(",\"network_interfaces\":["@ =~= (","@ + "\""@ + "network_interfaces"@ + "\":"@) + "["@);
    }
    assert("],\"gpu_devices\":"@ == "]"@ + (","@ + "\""@ + "gpu_devices"@ + "\":"@)) by {
        reveal_strlit("]");
        reveal_strlit(",");
        reveal_strlit("\"");
        reveal_strlit("gpu_devices");
        reveal_strlit("\":");
        reveal_strlit("],\"gpu_devices\":");
        assert("],\"gpu_devices\":"@ =~= "]"@ + (","@ + "\""@ + "gpu_devices"@ + "\":"@));
    }
    let cpus_name = ","@ + "\""@ + "logical_cpus"@ + "\":"@;
    let network_name = ","@ + "\""@ + "network_interfaces"@ + "\":"@;
    let gpu_name = ","@ + "\""@ + "gpu_devices"@ + "\":"@;
    a_quoted_member_follows(
        "{"@,
        "\""@ + "cpu_model"@ + "\":"@ + "\""@,
        "cpu_model"@,
        escaped(snapshot.cpu_model@),
        cpus_name,
    );
    a_member_follows(
        model,
        cpus_name,
        "logical_cpus"@,
        decimal_of(snapshot.logical_cpus as nat),
    );
    a_member_follows(
        cpus,
        ",\"memory_total_kib\":"@,
        "memory_total_kib"@,
        decimal_of(snapshot.memory_total_kib as nat),
    );
    a_member_follows(
        memory,
        ",\"battery_present\":"@,
        "battery_present"@,
        bool_text(snapshot.battery_present),
    );
    a_member_follows(present, ",\"battery_percent\":"@, "battery_percent"@, percent);
    a_member_follows(
        charge,
        ",\"ac_online\":"@,
        "ac_online"@,
        optional_bool(snapshot.ac_online),
    );
    a_listed_member_follows(
        online,
        network_name,
        "network_interfaces"@,
        list,
        gpu_name,
    );
    a_member_follows(
        network,
        gpu_name,
        "gpu_devices"@,
        decimal_of(snapshot.gpu_devices as nat),
    );
}

/// Every part of an inventory comes from the reading that is meant for it.
pub proof fn inventories_come_from_their_readings(
    readings: HardwareReadings,
    snapshot: HardwareSnapshot,
)
    requires
        is_inventory(readings, snapshot),
    ensures
        snapshot.logical_cpus == processors_of(readings.parallelism),
        snapshot.battery_present == power_of(readings.power_supplies@).battery_present,
        snapshot.battery_percent == power_of(readings.power_supplies@).battery_percent,
        snapshot.ac_online == power_of(readings.power_supplies@).ac_online,
        texts(snapshot.network_interfaces@) == interfaces_of(texts(readings.network_entries@)),
        card_count(texts(readings.drm_entries@)) <= 64 ==> snapshot.gpu_devices == card_count(
            texts(readings.drm_entries@),
        ),
        card_count(texts(readings.drm_entries@)) > 64 ==> snapshot.gpu_devices == 64,
        memory_in_lines(lines_of(readings.memory_info->Ok_0@)) == Some(
            snapshot.memory_total_kib as nat,
        ),
        model_in_lines(lines_of(readings.cpu_info->Ok_0@)) matches Some(model)
            ==> snapshot.cpu_model@ == model,
        model_in_lines(lines_of(readings.cpu_info->Ok_0@)) is None ==> snapshot.cpu_model@
            == "unknown"@,
{
}

} // verus!
