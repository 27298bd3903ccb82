//! Resource profiles, workload classes and the telemetry report.

use crate::cli::{mode_of, output_mode, OutputMode};
use crate::json::{
    a_member_follows, a_quoted_member_follows, bool_text, json_bool, member, optional_number,
    optional_u64_json,
};
use crate::text::{debug_form, debug_text, decimal, decimal_of, join, push_text, same, texts};
use vstd::prelude::*;

verus! {

/// Capability class of a machine.
#[derive(Clone, Copy, Debug, PartialEq, Eq, Structural)]
pub enum MachineProfile {
    /// Little memory or few processors.
    Low,
    /// Enough for ordinary development.
    Balanced,
    /// Comfortable for development.
    Standard,
    /// Meant for heavy local work.
    Workstation,
}

impl MachineProfile {
    /// The stable identifier of a profile.
    pub open spec fn label(self) -> Seq<char> {
        match self {
            MachineProfile::Low => "low"@,
            MachineProfile::Balanced => "balanced"@,
            MachineProfile::Standard => "standard"@,
            MachineProfile::Workstation => "workstation"@,
        }
    }

    /// Returns the stable identifier of a profile.
    pub fn as_str(self) -> (text: &'static str)
        ensures
            text@ == self.label(),
    {
        match self {
            MachineProfile::Low => "low",
            MachineProfile::Balanced => "balanced",
            MachineProfile::Standard => "standard",
            MachineProfile::Workstation => "workstation",
        }
    }

    /// Reads the identifier of a profile.
    pub fn parse(value: &str) -> (profile: Option<MachineProfile>)
        ensures
            match profile {
                Some(found) => value@ == found.label(),
                None => forall|other: MachineProfile| value@ != #[trigger] other.label(),
            },
    {
        if same(value, "low") {
            Some(MachineProfile::Low)
        } else if same(value, "balanced") {
            Some(MachineProfile::Balanced)
        } else if same(value, "standard") {
            Some(MachineProfile::Standard)
        } else if same(value, "workstation") {
            Some(MachineProfile::Workstation)
        } else {
            None
        }
    }
}

/// Different profiles have different identifiers.
pub proof fn profile_labels_differ(a: MachineProfile, b: MachineProfile)
    requires
        a.label() == b.label(),
    ensures
        a == b,
{
    reveal_strlit("low");
    reveal_strlit("balanced");
    reveal_strlit("standard");
    reveal_strlit("workstation");
    assert("low"@.len() == 3);
    assert("balanced"@.len() == 8);
    assert("standard"@.len() == 8);
    assert("workstation"@.len() == 11);
    assert("balanced"@[0] != "standard"@[0]);
}

/// Kinds of background work that share a machine.
#[derive(Clone, Copy, Debug, PartialEq, Eq, Structural)]
pub enum WorkloadClass {
    /// The work that a person waits for.
    Interactive,
    /// Compilation and tests.
    Build,
    /// Indexing and static analysis.
    Indexer,
    /// Virtual devices.
    Emulator,
    /// Cache maintenance.
    Cache,
}

impl WorkloadClass {
    /// The stable identifier of a workload class.
    pub open spec fn label(self) -> Seq<char> {
        match self {
            WorkloadClass::Interactive => "interactive"@,
            WorkloadClass::Build => "build"@,
            WorkloadClass::Indexer => "indexer"@,
            WorkloadClass::Emulator => "emulator"@,
            WorkloadClass::Cache => "cache"@,
        }
    }

    /// Returns the stable identifier of a workload class.
    pub fn as_str(self) -> (text: &'static str)
        ensures
            text@ == self.label(),
    {
        match self {
            WorkloadClass::Interactive => "interactive",
            WorkloadClass::Build => "build",
            WorkloadClass::Indexer => "indexer",
            WorkloadClass::Emulator => "emulator",
            WorkloadClass::Cache => "cache",
        }
    }
}

/// Reads the identifier of a workload class.
pub fn parse_workload(value: &str) -> (workload: Option<WorkloadClass>)
    ensures
        match workload {
            Some(found) => value@ == found.label(),
            None => forall|other: WorkloadClass| value@ != #[trigger] other.label(),
        },
{
    if same(value, "interactive") {
        Some(WorkloadClass::Interactive)
    } else if same(value, "build") {
        Some(WorkloadClass::Build)
    } else if same(value, "indexer") {
        Some(WorkloadClass::Indexer)
    } else if same(value, "emulator") {
        Some(WorkloadClass::Emulator)
    } else if same(value, "cache") {
        Some(WorkloadClass::Cache)
    } else {
        None
    }
}

/// Different workload classes have different identifiers.
pub proof fn workload_labels_differ(a: WorkloadClass, b: WorkloadClass)
    requires
        a.label() == b.label(),
    ensures
        a == b,
{
    reveal_strlit("interactive");
    reveal_strlit("build");
    reveal_strlit("indexer");
    reveal_strlit("emulator");
    reveal_strlit("cache");
    assert("interactive"@.len() == 11);
    assert("build"@.len() == 5);
    assert("indexer"@.len() == 7);
    assert("emulator"@.len() == 8);
    assert("cache"@.len() == 5);
    assert("build"@[0] != "cache"@[0]);
}

/// Reads the identifier of a workload class for a scope preview.
pub fn preview_workload(value: &str) -> (result: Result<WorkloadClass, String>)
    ensures
        match result {
            Ok(workload) => workload.label() == value@,
            Err(message) => message@ == "unknown workload class "@ + debug_form(value@) && forall|
                other: WorkloadClass,
            |
                value@ != #[trigger] other.label(),
        },
{
    match parse_workload(value) {
        Some(workload) => Ok(workload),
        None => Err(join("unknown workload class ", debug_text(value).as_str())),
    }
}

/// How much of the machine a workload class may use at the moment.
#[derive(Clone, Copy, Debug, PartialEq, Eq, Structural)]
pub struct WorkloadBudget {
    /// Most parallel workers.
    pub max_workers: u16,
    /// Whether the work should wait.
    pub deferred: bool,
}

/// The budgets of all workload classes.
#[derive(Clone, Copy, Debug, PartialEq, Eq, Structural)]
pub struct WorkloadBudgets {
    /// Budget of interactive work.
    pub interactive: WorkloadBudget,
    /// Budget of builds.
    pub build: WorkloadBudget,
    /// Budget of indexing.
    pub indexer: WorkloadBudget,
    /// Budget of virtual devices.
    pub emulator: WorkloadBudget,
    /// Budget of cache maintenance.
    pub cache: WorkloadBudget,
}

impl WorkloadBudgets {
    /// The budget of a workload class.
    pub open spec fn of(self, workload: WorkloadClass) -> WorkloadBudget {
        match workload {
            WorkloadClass::Interactive => self.interactive,
            WorkloadClass::Build => self.build,
            WorkloadClass::Indexer => self.indexer,
            WorkloadClass::Emulator => self.emulator,
            WorkloadClass::Cache => self.cache,
        }
    }

    /// Returns the budget of a workload class.
    pub fn workload_budget(&self, workload: WorkloadClass) -> (budget: WorkloadBudget)
        ensures
            budget == self.of(workload),
    {
        match workload {
            WorkloadClass::Interactive => self.interactive,
            WorkloadClass::Build => self.build,
            WorkloadClass::Indexer => self.indexer,
            WorkloadClass::Emulator => self.emulator,
            WorkloadClass::Cache => self.cache,
        }
    }
}

/// A resource scope for one job.
#[derive(Clone, Debug, PartialEq, Eq)]
pub struct WorkloadScopePlan {
    /// Name of the unit.
    pub unit_name: String,
    /// Class of the job.
    pub workload: WorkloadClass,
    /// Most parallel workers.
    pub max_workers: u16,
    /// Relative processor weight.
    pub cpu_weight: u16,
    /// Memory that is protected from reclaim.
    pub memory_low_bytes: Option<u64>,
    /// Memory above which the job is throttled.
    pub memory_high_bytes: Option<u64>,
    /// Memory that the job may not exceed.
    pub memory_max_bytes: Option<u64>,
    /// Whether the job should wait.
    pub deferred: bool,
}

/// A scope that cannot be turned into a command.
#[derive(Clone, Debug, PartialEq, Eq)]
pub struct ScopePlanError {
    /// What is wrong with it.
    pub reason: String,
}

/// An optional number of bytes as a mathematical number.
pub open spec fn optional_nat(value: Option<u64>) -> Option<nat> {
    match value {
        Some(number) => Some(number as nat),
        None => None,
    }
}

/// The preview of a scope as one JSON object.
pub open spec fn scope_preview(plan: WorkloadScopePlan) -> Seq<char> {
    "{\"unit_name\":\""@ + plan.unit_name@ + "\",\"workload\":\""@ + plan.workload.label()
        + "\",\"max_workers\":"@ + decimal_of(plan.max_workers as nat) + ",\"cpu_weight\":"@
        + decimal_of(plan.cpu_weight as nat) + ",\"memory_low_bytes\":"@ + optional_number(
        optional_nat(plan.memory_low_bytes),
    ) + ",\"memory_high_bytes\":"@ + optional_number(optional_nat(plan.memory_high_bytes))
        + ",\"memory_max_bytes\":"@ + optional_number(optional_nat(plan.memory_max_bytes))
        + ",\"deferred\":"@ + bool_text(plan.deferred) + "}"@
}

/// Formats the preview of a scope.
pub fn format_scope_preview(plan: &WorkloadScopePlan) -> (text: String)
    ensures
        text@ == scope_preview(*plan),
{
    let mut text = "{\"unit_name\":\"".to_owned();
    text.append(plan.unit_name.as_str());
    text.append("\",\"workload\":\"");
    text.append(plan.workload.as_str());
    text.append("\",\"max_workers\":");
    text.append(decimal(plan.max_workers as u64).as_str());
    text.append(",\"cpu_weight\":");
    text.append(decimal(plan.cpu_weight as u64).as_str());
    text.append(",\"memory_low_bytes\":");
    text.append(optional_u64_json(plan.memory_low_bytes).as_str());
    text.append(",\"memory_high_bytes\":");
    text.append(optional_u64_json(plan.memory_high_bytes).as_str());
    text.append(",\"memory_max_bytes\":");
    text.append(optional_u64_json(plan.memory_max_bytes).as_str());
    text.append(",\"deferred\":");
    text.append(json_bool(plan.deferred));
    text.append("}");
    text
}

/// Size of a machine.
#[derive(Clone, Copy, Debug, PartialEq, Eq, Structural)]
pub struct HardwareCapacity {
    /// Logical processors.
    pub logical_cpus: u16,
    /// Memory in KiB.
    pub memory_total_kib: u64,
}

/// Power supply of a machine.
#[derive(Clone, Copy, Debug, PartialEq, Eq, Structural)]
pub struct PowerState {
    /// Whether there is a battery.
    pub battery_present: bool,
    /// Its charge, where known.
    pub battery_percent: Option<u8>,
    /// Whether external power is connected, where known.
    pub ac_online: Option<bool>,
}

/// Pressure stall averages in thousandths of a percent.
#[derive(Clone, Copy, Debug, PartialEq, Eq, Structural)]
pub struct PressureMetrics {
    /// Share of time in which some task waited.
    pub some_avg10_milli_percent: u32,
    /// Share of time in which all tasks waited.
    pub full_avg10_milli_percent: Option<u32>,
}

/// One reading of the machine's resources.
#[derive(Clone, Copy, Debug, PartialEq, Eq, Structural)]
pub struct ResourceSnapshot {
    /// Size of the machine.
    pub capacity: HardwareCapacity,
    /// Profile that follows from the size.
    pub initial_profile: MachineProfile,
    /// Memory that is available, where known.
    pub memory_available_kib: Option<u64>,
    /// Processor pressure, where known.
    pub cpu_pressure: Option<PressureMetrics>,
    /// Memory pressure, where known.
    pub memory_pressure: Option<PressureMetrics>,
    /// I/O pressure, where known.
    pub io_pressure: Option<PressureMetrics>,
    /// Power supply.
    pub power: PowerState,
}

/// One line of the report on pressure.
pub open spec fn pressure_line(name: Seq<char>, pressure: Option<PressureMetrics>) -> Seq<char> {
    match pressure {
        Some(metrics) => name + " PSI some avg10: "@ + decimal_of(
            metrics.some_avg10_milli_percent as nat / 1000,
        ) + "."@ + decimal_of(metrics.some_avg10_milli_percent as nat % 1000) + "%"@,
        None => name + " PSI: unavailable"@,
    }
}

/// The line of a report on the charge of the battery.
pub open spec fn battery_line(percent: Option<u8>) -> Seq<char> {
    match percent {
        Some(value) => "battery: "@ + decimal_of(value as nat) + "%"@,
        None => "battery: unavailable"@,
    }
}

/// The line of a report on external power.
pub open spec fn ac_line(online: Option<bool>) -> Seq<char> {
    match online {
        Some(true) => "AC: online"@,
        Some(false) => "AC: offline"@,
        None => "AC: unavailable"@,
    }
}

/// The report on a reading, line by line.
pub open spec fn resource_report(snapshot: ResourceSnapshot) -> Seq<Seq<char>> {
    seq![
        "DevCore resource snapshot"@,
        "profile: "@ + snapshot.initial_profile.label(),
        "logical CPUs: "@ + decimal_of(snapshot.capacity.logical_cpus as nat),
        "memory total: "@ + decimal_of(snapshot.capacity.memory_total_kib as nat) + " KiB"@,
        match snapshot.memory_available_kib {
            Some(memory) => "memory available: "@ + decimal_of(memory as nat) + " KiB"@,
            None => "memory available: unavailable"@,
        },
        pressure_line("CPU"@, snapshot.cpu_pressure),
        pressure_line("memory"@, snapshot.memory_pressure),
        pressure_line("I/O"@, snapshot.io_pressure),
        "battery present: "@ + bool_text(snapshot.power.battery_present),
        battery_line(snapshot.power.battery_percent),
        ac_line(snapshot.power.ac_online),
    ]
}

/// Formats one line of the report on pressure.
pub fn format_pressure(name: &str, pressure: Option<PressureMetrics>) -> (line: String)
    ensures
        line@ == pressure_line(name@, pressure),
{
    let mut line = name.to_owned();
    match pressure {
        Some(metrics) => {
            line.append(" PSI some avg10: ");
            line.append(decimal((metrics.some_avg10_milli_percent / 1000) as u64).as_str());
            line.append(".");
            line.append(decimal((metrics.some_avg10_milli_percent % 1000) as u64).as_str());
            line.append("%");
        },
        None => {
            line.append(" PSI: unavailable");
        },
    }
    line
}

/// Formats the line of a report on the charge of the battery.
pub fn format_battery(percent: Option<u8>) -> (line: String)
    ensures
        line@ == battery_line(percent),
{
    match percent {
        Some(value) => {
            let mut line = "battery: ".to_owned();
            line.append(decimal(value as u64).as_str());
            line.append("%");
            line
        },
        None => "battery: unavailable".to_owned(),
    }
}

/// Formats the line of a report on external power.
pub fn format_ac(online: Option<bool>) -> (line: &'static str)
    ensures
        line@ == ac_line(online),
{
    match online {
        Some(true) => "AC: online",
        Some(false) => "AC: offline",
        None => "AC: unavailable",
    }
}

/// Formats the report on a reading, line by line.
pub fn format_report(snapshot: &ResourceSnapshot) -> (lines: Vec<String>)
    ensures
        texts(lines@) == resource_report(*snapshot),
{
    let mut lines: Vec<String> = Vec::new();
    assert(texts(lines@) =~= Seq::empty());
    push_text(&mut lines, "DevCore resource snapshot");
    push_text(&mut lines, join("profile: ", snapshot.initial_profile.as_str()).as_str());
    push_text(
        &mut lines,
        join("logical CPUs: ", decimal(snapshot.capacity.logical_cpus as u64).as_str()).as_str(),
    );
    let mut total = join(
        "memory total: ",
        decimal(snapshot.capacity.memory_total_kib).as_str(),
    );
    total.append(" KiB");
    push_text(&mut lines, total.as_str());
    match snapshot.memory_available_kib {
        Some(memory) => {
            let mut available = join("memory available: ", decimal(memory).as_str());
            available.append(" KiB");
            push_text(&mut lines, available.as_str());
        },
        None => {
            push_text(&mut lines, "memory available: unavailable");
        },
    }
    push_text(&mut lines, format_pressure("CPU", snapshot.cpu_pressure).as_str());
    push_text(&mut lines, format_pressure("memory", snapshot.memory_pressure).as_str());
    push_text(&mut lines, format_pressure("I/O", snapshot.io_pressure).as_str());
    push_text(
        &mut lines,
        join("battery present: ", json_bool(snapshot.power.battery_present)).as_str(),
    );
    push_text(&mut lines, format_battery(snapshot.power.battery_percent).as_str());
    push_text(&mut lines, format_ac(snapshot.power.ac_online));
    lines
}

/// Usage of the resource service.
pub open spec fn usage() -> Seq<char> {
    "usage: devcored [snapshot] [--json] [--daemon]"@
}

/// Reads the command line of the resource service.
pub fn parse_arguments(arguments: &Vec<String>) -> (result: Result<OutputMode, String>)
    ensures
        match result {
            Ok(mode) => mode_of(texts(arguments@), usage()) == Ok::<OutputMode, Seq<char>>(mode),
            Err(message) => mode_of(texts(arguments@), usage()) == Err::<OutputMode, Seq<char>>(
                message@,
            ),
        },
{
    output_mode(arguments, "usage: devcored [snapshot] [--json] [--daemon]")
}

/// The words for profiles and classes of work.
pub proof fn resource_words_are_stable()
    ensures
        MachineProfile::Low.label() == "low"@,
        MachineProfile::Balanced.label() == "balanced"@,
        MachineProfile::Standard.label() == "standard"@,
        MachineProfile::Workstation.label() == "workstation"@,
        WorkloadClass::Interactive.label() == "interactive"@,
        WorkloadClass::Build.label() == "build"@,
        WorkloadClass::Indexer.label() == "indexer"@,
        WorkloadClass::Emulator.label() == "emulator"@,
        WorkloadClass::Cache.label() == "cache"@,
{
}

/// Each class of work has its own budget: changing one leaves the others alone.
pub proof fn budgets_are_separate(budgets: WorkloadBudgets, workload: WorkloadClass)
    ensures
        budgets.of(WorkloadClass::Interactive) == budgets.interactive,
        budgets.of(WorkloadClass::Build) == budgets.build,
        budgets.of(WorkloadClass::Indexer) == budgets.indexer,
        budgets.of(WorkloadClass::Emulator) == budgets.emulator,
        budgets.of(WorkloadClass::Cache) == budgets.cache,
        forall|other: WorkloadBudget|
            workload != WorkloadClass::Emulator ==> (#[trigger] (WorkloadBudgets {
                emulator: other,
                ..budgets
            }).of(workload)) == budgets.of(workload),
{
}

/// The preview of a scope is a document with a member for each property of the
/// scope, under its name.
pub proof fn previews_name_every_property(plan: WorkloadScopePlan)
    ensures
        scope_preview(plan) == "{"@ + member(
            "unit_name"@,
            "\""@ + plan.unit_name@ + "\""@,
        ) + ","@ + member("workload"@, "\""@ + plan.workload.label() + "\""@) + ","@ + member(
            "max_workers"@,
            decimal_of(plan.max_workers as nat),
        ) + ","@ + member("cpu_weight"@, decimal_of(plan.cpu_weight as nat)) + ","@ + member(
            "memory_low_bytes"@,
            optional_number(optional_nat(plan.memory_low_bytes)),
        ) + ","@ + member(
            "memory_high_bytes"@,
            optional_number(optional_nat(plan.memory_high_bytes)),
        ) + ","@ + member(
            "memory_max_bytes"@,
            optional_number(optional_nat(plan.memory_max_bytes)),
        ) + ","@ + member("deferred"@, bool_text(plan.deferred)) + "}"@,
{
    let unit = "{"@ + member("unit_name"@, "\""@ + plan.unit_name@ + "\""@);
    let workload = unit + ","@ + member("workload"@, "\""@ + plan.workload.label() + "\""@);
    let workers = workload + ","@ + member("max_workers"@, decimal_of(plan.max_workers as nat));
    let weight = workers + ","@ + member("cpu_weight"@, decimal_of(plan.cpu_weight as nat));
    let low = weight + ","@ + member(
        "memory_low_bytes"@,
        optional_number(optional_nat(plan.memory_low_bytes)),
    );
    let high = low + ","@ + member(
        "memory_high_bytes"@,
        optional_number(optional_nat(plan.memory_high_bytes)),
    );
    let most = high + ","@ + member(
        "memory_max_bytes"@,
        optional_number(optional_nat(plan.memory_max_bytes)),
    );
    assert("{\"unit_name\":\""@ == "{"@ + ("\""@ + "unit_name"@ + "\":"@ + "\""@)) by {
        reveal_strlit("\"");
        reveal_strlit("\":");
        reveal_strlit("{");
        reveal_strlit("unit_name");
        reveal_strlit("{\"unit_name\":\"");
        assert("{\"unit_name\":\""@ =~= "{"@ + ("\""@ + "unit_name"@ + "\":"@ + "\""@));
    }
    assert("\",\"workload\":\""@ == "\""@ + (","@ + ("\""@ + "workload"@ + "\":"@ + "\""@)))
        by {
        reveal_strlit("\"");
        reveal_strlit("\":");
        reveal_strlit(",");
        reveal_strlit("workload");
        reveal_strlit("\",\"workload\":\"");
        assert("\",\"workload\":\""@ =~= "\""@ + (","@ + ("\""@ + "workload"@ + "\":"@
            + "\""@)));
    }
    assert("\",\"max_workers\":"@ == "\""@ + (","@ + "\""@ + "max_workers"@ + "\":"@)) by {
        reveal_strlit("\"");
        reveal_strlit("\":");
        reveal_strlit(",");
        reveal_strlit("max_workers");
        reveal_strlit("\",\"max_workers\":");
        assert("\",\"max_workers\":"@ =~= "\""@ + (","@ + "\""@ + "max_workers"@ + "\":"@));
    }
    assert(",\"cpu_weight\":"@ == ","@ + "\""@ + "cpu_weight"@ + "\":"@) by {
        reveal_strlit("\"");
        reveal_strlit("\":");
        reveal_strlit(",");
        reveal_strlit("cpu_weight");
        reveal_strlit(",\"cpu_weight\":");
        assert(",\"cpu_weight\":"@ =~= ","@ + "\""@ + "cpu_weight"@ + "\":"@);
    }
    assert(",\"memory_low_bytes\":"@ == ","@ + "\""@ + "memory_low_bytes"@ + "\":"@) by {
        reveal_strlit("\"");
        reveal_strlit("\":");
        reveal_strlit(",");
        reveal_strlit("memory_low_bytes");
        reveal_strlit(",\"memory_low_bytes\":");
        assert(",\"memory_low_bytes\":"@ =~= ","@ + "\""@ + "memory_low_bytes"@ + "\":"@);
    }
    assert(",\"memory_high_bytes\":"@ == ","@ + "\""@ + "memory_high_bytes"@ + "\":"@) by {
        reveal_strlit("\"");
        reveal_strlit("\":");
        reveal_strlit(",");
        reveal_strlit("memory_high_bytes");
        reveal_strlit(",\"memory_high_bytes\":");
        assert(",\"memory_high_bytes\":"@ =~= ","@ + "\""@ + "memory_high_bytes"@ + "\":"@);
    }
    assert(",\"memory_max_bytes\":"@ == ","@ + "\""@ + "memory_max_bytes"@ + "\":"@) by {
        reveal_strlit("\"");
        reveal_strlit("\":");
        reveal_strlit(",");
        reveal_strlit("memory_max_bytes");
        reveal_strlit(",\"memory_max_bytes\":");
        assert(",\"memory_max_bytes\":"@ =~= ","@ + "\""@ + "memory_max_bytes"@ + "\":"@);
    }
    assert(",\"deferred\":"@ == ","@ + "\""@ + "deferred"@ + "\":"@) by {
        reveal_strlit("\"");
        reveal_strlit("\":");
        reveal_strlit(",");
        reveal_strlit("deferred");
        reveal_strlit(",\"deferred\":");
        assert(",\"deferred\":"@ =~= ","@ + "\""@ + "deferred"@ + "\":"@);
    }
    let workload_name = "\""@ + "workload"@ + "\":"@ + "\""@;
    let workers_name = ","@ + "\""@ + "max_workers"@ + "\":"@;
    a_quoted_member_follows(
        "{"@,
        "\""@ + "unit_name"@ + "\":"@ + "\""@,
        "unit_name"@,
        plan.unit_name@,
        ","@ + workload_name,
    );
    assert(unit + (","@ + workload_name) =~= unit + ","@ + workload_name);
    a_quoted_member_follows(
        unit + ","@,
        workload_name,
        "workload"@,
        plan.workload.label(),
        workers_name,
    );
    a_member_follows(
        workload,
        workers_name,
        "max_workers"@,
        decimal_of(plan.max_workers as nat),
    );
    a_member_follows(
        workers,
        ",\"cpu_weight\":"@,
        "cpu_weight"@,
        decimal_of(plan.cpu_weight as nat),
    );
    a_member_follows(
        weight,
        ",\"memory_low_bytes\":"@,
        "memory_low_bytes"@,
        optional_number(optional_nat(plan.memory_low_bytes)),
    );
    a_member_follows(
        low,
        ",\"memory_high_bytes\":"@,
        "memory_high_bytes"@,
        optional_number(optional_nat(plan.memory_high_bytes)),
    );
    a_member_follows(
        high,
        ",\"memory_max_bytes\":"@,
        "memory_max_bytes"@,
        optional_number(optional_nat(plan.memory_max_bytes)),
    );
    a_member_follows(most, ",\"deferred\":"@, "deferred"@, bool_text(plan.deferred));
}

/// The report has one line for each reading, under its name, and says of a
/// reading that is missing that it is. Pressures are for the processor, the
/// memory and the storage, in this order and each from its own reading.
pub proof fn reports_say_each_reading(snapshot: ResourceSnapshot)
    ensures
        ({
            let report = resource_report(snapshot);
            &&& report.len() == 11
            &&& report[1] == "profile: "@ + snapshot.initial_profile.label()
            &&& report[2] == "logical CPUs: "@ + decimal_of(snapshot.capacity.logical_cpus as nat)
            &&& report[3] == "memory total: "@ + decimal_of(
                snapshot.capacity.memory_total_kib as nat,
            ) + " KiB"@
            &&& snapshot.memory_available_kib is None ==> report[4]
                == "memory available: unavailable"@
            &&& snapshot.memory_available_kib matches Some(amount) ==> report[4]
                == "memory available: "@ + decimal_of(amount as nat) + " KiB"@
            &&& snapshot.cpu_pressure is None ==> report[5] == "CPU"@ + " PSI: unavailable"@
            &&& snapshot.memory_pressure is None ==> report[6] == "memory"@ + " PSI: unavailable"@
            &&& snapshot.io_pressure is None ==> report[7] == "I/O"@ + " PSI: unavailable"@
            &&& snapshot.cpu_pressure matches Some(metrics) ==> report[5] == "CPU"@
                + " PSI some avg10: "@ + decimal_of(
                metrics.some_avg10_milli_percent as nat / 1000,
            ) + "."@ + decimal_of(metrics.some_avg10_milli_percent as nat % 1000) + "%"@
            &&& snapshot.memory_pressure == snapshot.cpu_pressure ==> report[6].skip(6)
                == report[5].skip(3)
            &&& snapshot.io_pressure == snapshot.cpu_pressure ==> report[7].skip(3)
                == report[5].skip(3)
            &&& report[8] == "battery present: "@ + bool_text(snapshot.power.battery_present)
            &&& snapshot.power.battery_percent is None ==> report[9] == "battery: unavailable"@
            &&& snapshot.power.battery_percent matches Some(percent) ==> report[9] == "battery: "@
                + decimal_of(percent as nat) + "%"@
            &&& snapshot.power.ac_online == Some(true) ==> report[10] == "AC: online"@
            &&& snapshot.power.ac_online == Some(false) ==> report[10] == "AC: offline"@
            &&& snapshot.power.ac_online is None ==> report[10] == "AC: unavailable"@
        }),
{
    reveal_strlit("CPU");
    reveal_strlit("memory");
    reveal_strlit("I/O");
    let report = resource_report(snapshot);
    if snapshot.memory_pressure == snapshot.cpu_pressure {
        assert(report[6].skip(6) =~= report[5].skip(3));
    }
    if snapshot.io_pressure == snapshot.cpu_pressure {
        assert(report[7].skip(3) =~= report[5].skip(3));
    }
}

} // verus!
