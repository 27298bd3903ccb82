//! Software that is installed after the first start: the catalog, the plans,
//! and the runs that carry a plan out.
//!
//! Planning reads nothing and starts nothing. A plan is a list of argument
//! vectors of fixed programs.

use crate::resource::MachineProfile;
use crate::text::{
    all_hex, chars_of, contains_white_space, debug_form, debug_text, decimal, decimal_of,
    digests_have_64_digits, ends_in, ends_in_digest, has_white_space, is_digest_reference, join, optional_text, push_text, same,
    text_of, texts,
};
use vstd::prelude::*;

verus! {

/// Where applications come from.
pub const FLATHUB_REPO: &'static str = "https://dl.flathub.org/repo/flathub.flatpakrepo";

/// Free bytes that a plan leaves alone.
pub const MIN_DISK_RESERVE_BYTES: u64 = 4_294_967_296;

/// Program that installs applications.
pub const FLATPAK_PROGRAM: &'static str = "/usr/bin/flatpak";

/// Program that fetches container images.
pub const PODMAN_PROGRAM: &'static str = "/usr/bin/podman";

/// Program that tells whether the network is ready.
pub const NETWORK_PROBE_PROGRAM: &'static str = "/usr/bin/nm-online";

/// How a bundle is delivered.
#[derive(Clone, Copy, Debug, PartialEq, Eq, Structural)]
pub enum BundleKind {
    /// An application for the user.
    Flatpak,
    /// A container image settled by a digest.
    OciEnvironment,
    /// Something that the user gets from its provider.
    ExternalProvider,
}

impl BundleKind {
    /// The stable identifier of a kind.
    pub open spec fn label(self) -> Seq<char> {
        match self {
            BundleKind::Flatpak => "flatpak"@,
            BundleKind::OciEnvironment => "oci-environment"@,
            BundleKind::ExternalProvider => "external-provider"@,
        }
    }

    /// Returns the stable identifier of a kind.
    pub fn as_str(self) -> (text: &'static str)
        ensures
            text@ == self.label(),
    {
        match self {
            BundleKind::Flatpak => "flatpak",
            BundleKind::OciEnvironment => "oci-environment",
            BundleKind::ExternalProvider => "external-provider",
        }
    }
}

/// An entry of the catalog.
#[derive(Clone, Copy, Debug, PartialEq, Eq)]
pub struct Bundle {
    /// Identifier.
    pub id: &'static str,
    /// Name for people.
    pub display_name: &'static str,
    /// How it is delivered.
    pub kind: BundleKind,
    /// What is done.
    pub description: &'static str,
    /// Cautious estimate of its size.
    pub estimated_bytes: u64,
    /// Smallest profile that may have it.
    pub minimum_profile: MachineProfile,
    /// Name at its source.
    pub source: Option<&'static str>,
}

/// The entries of the catalog.
pub open spec fn catalog_entries() -> Seq<Bundle> {
    seq![
        Bundle {
            id: "rust",
            display_name: "Rust development environment",
            kind: BundleKind::OciEnvironment,
            description: "Pull a digest-pinned OCI environment for Rust and Cargo.",
            estimated_bytes: 2147483648,
            minimum_profile: MachineProfile::Low,
            source: None,
        },
        Bundle {
            id: "go",
            display_name: "Go development environment",
            kind: BundleKind::OciEnvironment,
            description: "Pull a digest-pinned OCI environment for Go.",
            estimated_bytes: 1073741824,
            minimum_profile: MachineProfile::Low,
            source: None,
        },
        Bundle {
            id: "python",
            display_name: "Python development environment",
            kind: BundleKind::OciEnvironment,
            description: "Pull a digest-pinned OCI environment for Python.",
            estimated_bytes: 1073741824,
            minimum_profile: MachineProfile::Low,
            source: None,
        },
        Bundle {
            id: "node",
            display_name: "Node.js development environment",
            kind: BundleKind::OciEnvironment,
            description: "Pull a digest-pinned OCI environment for Node.js, npm, or pnpm.",
            estimated_bytes: 2147483648,
            minimum_profile: MachineProfile::Balanced,
            source: None,
        },
        Bundle {
            id: "flutter",
            display_name: "Flutter development environment",
            kind: BundleKind::OciEnvironment,
            description: "Pull a digest-pinned OCI environment for Flutter and Dart.",
            estimated_bytes: 5368709120,
            minimum_profile: MachineProfile::Standard,
            source: None,
        },
        Bundle {
            id: "android-sdk",
            display_name: "Android SDK environment",
            kind: BundleKind::OciEnvironment,
            description: "Pull a digest-pinned OCI environment for Android SDK and Gradle builds.",
            estimated_bytes: 8589934592,
            minimum_profile: MachineProfile::Standard,
            source: None,
        },
        Bundle {
            id: "android-studio",
            display_name: "Android Studio",
            kind: BundleKind::Flatpak,
            description: "Install Android Studio for the current user from Flathub.",
            estimated_bytes: 3221225472,
            minimum_profile: MachineProfile::Standard,
            source: Some("com.google.AndroidStudio"),
        },
        Bundle {
            id: "chrome",
            display_name: "Google Chrome",
            kind: BundleKind::Flatpak,
            description: "Install the reviewed Chrome Flatpak source for the current user.",
            estimated_bytes: 1073741824,
            minimum_profile: MachineProfile::Balanced,
            source: Some("com.google.Chrome"),
        },
        Bundle {
            id: "java",
            display_name: "Java development environment",
            kind: BundleKind::OciEnvironment,
            description: "Pull a digest-pinned OCI environment for Java and Gradle.",
            estimated_bytes: 2147483648,
            minimum_profile: MachineProfile::Balanced,
            source: None,
        },
        Bundle {
            id: "qt",
            display_name: "Qt development environment",
            kind: BundleKind::OciEnvironment,
            description: "Pull a digest-pinned OCI environment for Qt development.",
            estimated_bytes: 3221225472,
            minimum_profile: MachineProfile::Standard,
            source: None,
        },
        Bundle {
            id: "cmake",
            display_name: "C/C++ and CMake environment",
            kind: BundleKind::OciEnvironment,
            description: "Pull a digest-pinned OCI environment for C/C++ and CMake.",
            estimated_bytes: 2147483648,
            minimum_profile: MachineProfile::Balanced,
            source: None,
        },
        Bundle {
            id: "codex",
            display_name: "Codex provider",
            kind: BundleKind::ExternalProvider,
            description: "Configure Codex from a provider-approved package or binary supplied by the user.",
            estimated_bytes: 0,
            minimum_profile: MachineProfile::Low,
            source: None,
        },
    ]
}

/// Returns the catalog.
pub fn catalog() -> (list: Vec<Bundle>)
    ensures
        list@ == catalog_entries(),
{
    let list = vec![
        Bundle {
            id: "rust",
            display_name: "Rust development environment",
            kind: BundleKind::OciEnvironment,
            description: "Pull a digest-pinned OCI environment for Rust and Cargo.",
            estimated_bytes: 2147483648,
            minimum_profile: MachineProfile::Low,
            source: None,
        },
        Bundle {
            id: "go",
            display_name: "Go development environment",
            kind: BundleKind::OciEnvironment,
            description: "Pull a digest-pinned OCI environment for Go.",
            estimated_bytes: 1073741824,
            minimum_profile: MachineProfile::Low,
            source: None,
        },
        Bundle {
            id: "python",
            display_name: "Python development environment",
            kind: BundleKind::OciEnvironment,
            description: "Pull a digest-pinned OCI environment for Python.",
            estimated_bytes: 1073741824,
            minimum_profile: MachineProfile::Low,
            source: None,
        },
        Bundle {
            id: "node",
            display_name: "Node.js development environment",
            kind: BundleKind::OciEnvironment,
            description: "Pull a digest-pinned OCI environment for Node.js, npm, or pnpm.",
            estimated_bytes: 2147483648,
            minimum_profile: MachineProfile::Balanced,
            source: None,
        },
        Bundle {
            id: "flutter",
            display_name: "Flutter development environment",
            kind: BundleKind::OciEnvironment,
            description: "Pull a digest-pinned OCI environment for Flutter and Dart.",
            estimated_bytes: 5368709120,
            minimum_profile: MachineProfile::Standard,
            source: None,
        },
        Bundle {
            id: "android-sdk",
            display_name: "Android SDK environment",
            kind: BundleKind::OciEnvironment,
            description: "Pull a digest-pinned OCI environment for Android SDK and Gradle builds.",
            estimated_bytes: 8589934592,
            minimum_profile: MachineProfile::Standard,
            source: None,
        },
        Bundle {
            id: "android-studio",
            display_name: "Android Studio",
            kind: BundleKind::Flatpak,
            description: "Install Android Studio for the current user from Flathub.",
            estimated_bytes: 3221225472,
            minimum_profile: MachineProfile::Standard,
            source: Some("com.google.AndroidStudio"),
        },
        Bundle {
            id: "chrome",
            display_name: "Google Chrome",
            kind: BundleKind::Flatpak,
            description: "Install the reviewed Chrome Flatpak source for the current user.",
            estimated_bytes: 1073741824,
            minimum_profile: MachineProfile::Balanced,
            source: Some("com.google.Chrome"),
        },
        Bundle {
            id: "java",
            display_name: "Java development environment",
            kind: BundleKind::OciEnvironment,
            description: "Pull a digest-pinned OCI environment for Java and Gradle.",
            estimated_bytes: 2147483648,
            minimum_profile: MachineProfile::Balanced,
            source: None,
        },
        Bundle {
            id: "qt",
            display_name: "Qt development environment",
            kind: BundleKind::OciEnvironment,
            description: "Pull a digest-pinned OCI environment for Qt development.",
            estimated_bytes: 3221225472,
            minimum_profile: MachineProfile::Standard,
            source: None,
        },
        Bundle {
            id: "cmake",
            display_name: "C/C++ and CMake environment",
            kind: BundleKind::OciEnvironment,
            description: "Pull a digest-pinned OCI environment for C/C++ and CMake.",
            estimated_bytes: 2147483648,
            minimum_profile: MachineProfile::Balanced,
            source: None,
        },
        Bundle {
            id: "codex",
            display_name: "Codex provider",
            kind: BundleKind::ExternalProvider,
            description: "Configure Codex from a provider-approved package or binary supplied by the user.",
            estimated_bytes: 0,
            minimum_profile: MachineProfile::Low,
            source: None,
        },
    ];
    assert(list@ =~= catalog_entries());
    list
}

/// The place of an entry in the catalog.
pub open spec fn is_entry(id: Seq<char>, at: int) -> bool {
    0 <= at < catalog_entries().len() && catalog_entries()[at].id@ == id
}

/// No two entries of the catalog have the same identifier.
pub proof fn catalog_identifiers_differ(a: int, b: int)
    requires
        0 <= a < catalog_entries().len(),
        0 <= b < catalog_entries().len(),
        catalog_entries()[a].id@ == catalog_entries()[b].id@,
    ensures
        a == b,
{
    reveal_strlit("rust");
    reveal_strlit("go");
    reveal_strlit("python");
    reveal_strlit("node");
    reveal_strlit("flutter");
    reveal_strlit("android-sdk");
    reveal_strlit("android-studio");
    reveal_strlit("chrome");
    reveal_strlit("java");
    reveal_strlit("qt");
    reveal_strlit("cmake");
    reveal_strlit("codex");
    assert("rust"@.len() == 4);
    assert("go"@.len() == 2);
    assert("python"@.len() == 6);
    assert("node"@.len() == 4);
    assert("flutter"@.len() == 7);
    assert("android-sdk"@.len() == 11);
    assert("android-studio"@.len() == 14);
    assert("chrome"@.len() == 6);
    assert("java"@.len() == 4);
    assert("qt"@.len() == 2);
    assert("cmake"@.len() == 5);
    assert("codex"@.len() == 5);
    assert("rust"@[0] != "node"@[0]);
    assert("rust"@[0] != "java"@[0]);
    assert("go"@[0] != "qt"@[0]);
    assert("python"@[0] != "chrome"@[0]);
    assert("node"@[0] != "java"@[0]);
    assert("cmake"@[1] != "codex"@[1]);
}

/// Every application of the catalog has a source.
pub proof fn applications_have_a_source(at: int)
    requires
        0 <= at < catalog_entries().len(),
    ensures
        catalog_entries()[at].kind == BundleKind::Flatpak <==> catalog_entries()[at].source is Some,
{
}

/// The entry of the catalog with an identifier.
pub open spec fn entry_of(id: Seq<char>) -> Option<Bundle> {
    if exists|at: int| is_entry(id, at) {
        Some(catalog_entries()[choose|at: int| is_entry(id, at)])
    } else {
        None
    }
}

/// Finds an entry of the catalog.
pub fn catalog_item(id: &str) -> (item: Option<Bundle>)
    ensures
        item == entry_of(id@),
        item is Some ==> item->0.id@ == id@ && exists|at: int| #[trigger]
            is_entry(id@, at) && item->0 == catalog_entries()[at],
{
    let list = catalog();
    let mut i: usize = 0;
    while i < list.len()
        invariant
            i <= list@.len(),
            list@ == catalog_entries(),
            forall|at: int| at < i ==> !#[trigger] is_entry(id@, at),
        decreases list.len() - i,
    {
        if same(list[i].id, id) {
            assert(is_entry(id@, i as int));
            proof {
                catalog_identifiers_differ(i as int, choose|at: int| is_entry(id@, at));
            }
            return Some(list[i]);
        }
        i = i + 1;
    }
    None
}

/// Whether the network is ready.
#[derive(Clone, Copy, Debug, PartialEq, Eq, Structural)]
pub enum NetworkState {
    /// It is.
    Connected,
    /// It is not.
    Offline,
    /// It could not be told.
    Unknown,
}

impl NetworkState {
    /// The stable identifier of a state.
    pub open spec fn label(self) -> Seq<char> {
        match self {
            NetworkState::Connected => "connected"@,
            NetworkState::Offline => "offline"@,
            NetworkState::Unknown => "unknown"@,
        }
    }

    /// Returns the stable identifier of a state.
    pub fn as_str(self) -> (text: &'static str)
        ensures
            text@ == self.label(),
    {
        match self {
            NetworkState::Connected => "connected",
            NetworkState::Offline => "offline",
            NetworkState::Unknown => "unknown",
        }
    }
}

/// A command of a plan.
#[derive(Clone, Debug, PartialEq, Eq)]
pub struct ProvisionOperation {
    /// Bundle that it belongs to.
    pub bundle_id: String,
    /// What it does.
    pub description: String,
    /// Program and arguments.
    pub argv: Vec<String>,
}

/// A command of a plan in mathematical terms.
#[verifier::ext_equal]
pub struct OperationView {
    /// Bundle that it belongs to.
    pub bundle_id: Seq<char>,
    /// What it does.
    pub description: Seq<char>,
    /// Program and arguments.
    pub argv: Seq<Seq<char>>,
}

impl View for ProvisionOperation {
    type V = OperationView;

    open spec fn view(&self) -> OperationView {
        OperationView {
            bundle_id: self.bundle_id@,
            description: self.description@,
            argv: texts(self.argv@),
        }
    }
}

/// A plan.
#[derive(Clone, Debug, PartialEq, Eq)]
pub struct ProvisionPlan {
    /// Bundles, each one once.
    pub bundle_ids: Vec<String>,
    /// Profile that the bundles were admitted for.
    pub profile: MachineProfile,
    /// Sum of the estimates.
    pub estimated_bytes: u64,
    /// Whether the network has to be ready.
    pub network_required: bool,
    /// Commands.
    pub operations: Vec<ProvisionOperation>,
    /// Bundles that the user gets from their providers.
    pub external_provider_bundle_ids: Vec<String>,
}

/// A plan in mathematical terms.
#[verifier::ext_equal]
pub struct PlanView {
    /// Bundles, each one once.
    pub bundle_ids: Seq<Seq<char>>,
    /// Profile that the bundles were admitted for.
    pub profile: MachineProfile,
    /// Sum of the estimates.
    pub estimated_bytes: nat,
    /// Whether the network has to be ready.
    pub network_required: bool,
    /// Commands.
    pub operations: Seq<OperationView>,
    /// Bundles that the user gets from their providers.
    pub external_provider_bundle_ids: Seq<Seq<char>>,
}

/// The commands of a list.
pub open spec fn operation_views(list: Seq<ProvisionOperation>) -> Seq<OperationView> {
    Seq::new(list.len(), |i: int| list[i]@)
}

impl View for ProvisionPlan {
    type V = PlanView;

    open spec fn view(&self) -> PlanView {
        PlanView {
            bundle_ids: texts(self.bundle_ids@),
            profile: self.profile,
            estimated_bytes: self.estimated_bytes as nat,
            network_required: self.network_required,
            operations: operation_views(self.operations@),
            external_provider_bundle_ids: texts(self.external_provider_bundle_ids@),
        }
    }
}

/// What a user asks for.
#[derive(Clone, Debug, PartialEq, Eq)]
pub struct ProvisionRequest {
    /// Identifiers of the bundles.
    pub bundle_ids: Vec<String>,
    /// Profile of the machine.
    pub profile: MachineProfile,
    /// Free bytes where the bundles will lie.
    pub available_disk_bytes: u64,
    /// Whether the user agreed to the downloads.
    pub consent: bool,
    /// Image of the container environments.
    pub environment_image: Option<String>,
}

/// Why there is no plan.
#[derive(Clone, Debug, PartialEq, Eq)]
pub enum ProvisionError {
    /// The user did not agree.
    ConsentRequired,
    /// Nothing was chosen.
    NoBundles,
    /// The catalog has no such bundle.
    UnknownBundle(String),
    /// The machine is too small for a bundle.
    ProfileTooSmall {
        /// The bundle.
        bundle: &'static str,
        /// Profile of the machine.
        profile: MachineProfile,
        /// Smallest profile that may have it.
        minimum: MachineProfile,
    },
    /// The sum of the estimates is out of range.
    EstimateOverflow,
    /// There is not enough room.
    InsufficientDisk {
        /// Free bytes.
        available: u64,
        /// Bytes that are needed.
        required: u64,
    },
    /// Container environments need an image.
    EnvironmentImageRequired,
    /// The image is not settled by a digest.
    InvalidEnvironmentImage(String),
}

impl ProvisionError {
    /// The message for people.
    pub open spec fn text(&self) -> Seq<char> {
        match self {
            ProvisionError::ConsentRequired => "explicit user consent is required"@,
            ProvisionError::NoBundles => "select at least one developer bundle"@,
            ProvisionError::UnknownBundle(id) => "unknown developer bundle "@ + debug_form(id@),
            ProvisionError::ProfileTooSmall { bundle, profile, minimum } => "bundle "@ + bundle@
                + " requires profile "@ + minimum.label() + ", current profile is "@
                + profile.label(),
            ProvisionError::EstimateOverflow => "developer bundle size estimate overflowed"@,
            ProvisionError::InsufficientDisk { available, required } =>
                "insufficient disk space: "@ + decimal_of(*available as nat)
                + " bytes available, "@ + decimal_of(*required as nat)
                + " required including reserve"@,
            ProvisionError::EnvironmentImageRequired =>
                "OCI bundles require a digest-pinned environment image"@,
            ProvisionError::InvalidEnvironmentImage(image) =>
                "invalid digest-pinned environment image "@ + debug_form(image@),
        }
    }

    /// Returns the message for people.
    pub fn message(&self) -> (message: String)
        ensures
            message@ == self.text(),
    {
        match self {
            ProvisionError::ConsentRequired => "explicit user consent is required".to_owned(),
            ProvisionError::NoBundles => "select at least one developer bundle".to_owned(),
            ProvisionError::UnknownBundle(id) => join(
                "unknown developer bundle ",
                debug_text(id.as_str()).as_str(),
            ),
            ProvisionError::ProfileTooSmall { bundle, profile, minimum } => {
                let mut message = join("bundle ", bundle);
                message.append(" requires profile ");
                message.append(minimum.as_str());
                message.append(", current profile is ");
                message.append(profile.as_str());
                message
            },
            ProvisionError::EstimateOverflow =>
                "developer bundle size estimate overflowed".to_owned(),
            ProvisionError::InsufficientDisk { available, required } => {
                let mut message = join("insufficient disk space: ", decimal(*available).as_str());
                message.append(" bytes available, ");
                message.append(decimal(*required).as_str());
                message.append(" required including reserve");
                message
            },
            ProvisionError::EnvironmentImageRequired =>
                "OCI bundles require a digest-pinned environment image".to_owned(),
            ProvisionError::InvalidEnvironmentImage(image) => join(
                "invalid digest-pinned environment image ",
                debug_text(image.as_str()).as_str(),
            ),
        }
    }
}

/// Returns the message of an error.
pub fn plan_error(error: &ProvisionError) -> (message: String)
    ensures
        message@ == error.text(),
{
    error.message()
}

/// The profiles from the smallest to the largest.
pub open spec fn rank(profile: MachineProfile) -> u8 {
    match profile {
        MachineProfile::Low => 0,
        MachineProfile::Balanced => 1,
        MachineProfile::Standard => 2,
        MachineProfile::Workstation => 3,
    }
}

fn profile_rank(profile: MachineProfile) -> (result: u8)
    ensures
        result == rank(profile),
{
    match profile {
        MachineProfile::Low => 0,
        MachineProfile::Balanced => 1,
        MachineProfile::Standard => 2,
        MachineProfile::Workstation => 3,
    }
}

/// An image of container environments: a name without white space and a digest.
pub open spec fn valid_environment_image(image: Seq<char>) -> bool {
    &&& ends_in_digest(image)
    &&& image.len() > 72
    &&& !has_white_space(image.take(image.len() - 72))
}

fn validate_digest_image(image: &str) -> (result: bool)
    ensures
        result == valid_environment_image(image@),
{
    if !is_digest_reference(image) {
        return false;
    }
    let chars = chars_of(image);
    if chars.len() <= 72 {
        return false;
    }
    let name = text_of(&chars, 0, chars.len() - 72);
    assert(name@ =~= image@.take(image@.len() - 72));
    !contains_white_space(name.as_str())
}

/// What a list of identifiers chooses.
pub enum Selection {
    /// These entries.
    Chosen(Seq<Bundle>),
    /// Nothing: there is no such entry.
    Unknown(Seq<char>),
    /// Nothing: the machine is too small for this entry.
    TooSmall(Bundle),
}

/// An entry is chosen already.
pub open spec fn is_chosen(list: Seq<Bundle>, id: Seq<char>) -> bool {
    exists|i: int| 0 <= i < list.len() && (#[trigger] list[i]).id@ == id
}

/// What a list of identifiers chooses: each entry once, where it is named first.
/// The first identifier that is unknown or asks for too much ends the choice.
pub open spec fn selection(ids: Seq<Seq<char>>, profile: MachineProfile) -> Selection
    decreases ids.len(),
{
    if ids.len() == 0 {
        Selection::Chosen(Seq::empty())
    } else {
        match selection(ids.drop_last(), profile) {
            Selection::Chosen(list) => match entry_of(ids.last()) {
                None => Selection::Unknown(ids.last()),
                Some(bundle) => if is_chosen(list, ids.last()) {
                    Selection::Chosen(list)
                } else if rank(profile) < rank(bundle.minimum_profile) {
                    Selection::TooSmall(bundle)
                } else {
                    Selection::Chosen(list.push(bundle))
                },
            },
            stopped => stopped,
        }
    }
}

proof fn lemma_selection_stops(ids: Seq<Seq<char>>, profile: MachineProfile, n: int)
    requires
        0 <= n <= ids.len(),
        !(selection(ids.take(n), profile) is Chosen),
    ensures
        selection(ids, profile) == selection(ids.take(n), profile),
    decreases ids.len(),
{
    if n == ids.len() {
        assert(ids.take(n) =~= ids);
    } else {
        assert(ids.drop_last().take(n) =~= ids.take(n));
        lemma_selection_stops(ids.drop_last(), profile, n);
    }
}

/// A choice holds entries of the catalog that suit the machine, each one once.
pub proof fn choices_are_admitted(ids: Seq<Seq<char>>, profile: MachineProfile)
    requires
        selection(ids, profile) is Chosen,
    ensures
        ({
            let list = selection(ids, profile)->Chosen_0;
            &&& forall|i: int|
                0 <= i < list.len() ==> entry_of((#[trigger] list[i]).id@) == Some(list[i])
                    && ids.contains(list[i].id@) && rank(list[i].minimum_profile) <= rank(profile)
            &&& forall|i: int, j: int|
                0 <= i < j < list.len() ==> (#[trigger] list[i]).id@ != (#[trigger] list[j]).id@
        }),
    decreases ids.len(),
{
    if ids.len() > 0 {
        choices_are_admitted(ids.drop_last(), profile);
        let before = selection(ids.drop_last(), profile)->Chosen_0;
        let list = selection(ids, profile)->Chosen_0;
        let last = ids.last();
        let bundle = entry_of(last)->0;
        assert(is_entry(last, choose|at: int| is_entry(last, at)));
        assert(bundle.id@ == last);
        assert forall|i: int| 0 <= i < list.len() implies entry_of((#[trigger] list[i]).id@)
            == Some(list[i]) && ids.contains(list[i].id@) && rank(list[i].minimum_profile) <= rank(
            profile,
        ) by {
            if i < before.len() {
                assert(list[i] == before[i]);
                let k = choose|k: int|
                    0 <= k < ids.drop_last().len() && ids.drop_last()[k] == before[i].id@;
                assert(ids[k] == before[i].id@);
            } else {
                assert(ids[ids.len() - 1] == last);
            }
        }
        assert forall|i: int, j: int| 0 <= i < j < list.len() implies (#[trigger] list[i]).id@ != (
        #[trigger] list[j]).id@ by {
            assert(list[i] == before[i]);
            if j < before.len() {
                assert(list[j] == before[j]);
            } else {
                assert(!is_chosen(before, last));
            }
        }
    }
}

/// Sum of the estimates.
pub open spec fn estimate(list: Seq<Bundle>) -> nat
    decreases list.len(),
{
    if list.len() == 0 {
        0
    } else {
        estimate(list.drop_last()) + list.last().estimated_bytes as nat
    }
}

proof fn lemma_estimate_grows(list: Seq<Bundle>, n: int)
    requires
        0 <= n <= list.len(),
    ensures
        estimate(list.take(n)) <= estimate(list),
    decreases list.len(),
{
    if n == list.len() {
        assert(list.take(n) =~= list);
    } else {
        assert(list.drop_last().take(n) =~= list.take(n));
        lemma_estimate_grows(list.drop_last(), n);
    }
}

proof fn lemma_estimate_is_bounded(list: Seq<Bundle>)
    requires
        forall|i: int| 0 <= i < list.len() ==> (#[trigger] list[i]).estimated_bytes <= 8_589_934_592,
    ensures
        estimate(list) <= 8_589_934_592 * list.len(),
    decreases list.len(),
{
    if list.len() > 0 {
        assert forall|i: int| 0 <= i < list.drop_last().len() implies (#[trigger] list.drop_last()[
            i
        ]).estimated_bytes <= 8_589_934_592 by {
            assert(list.drop_last()[i] == list[i]);
        }
        lemma_estimate_is_bounded(list.drop_last());
        assert(list[list.len() - 1].estimated_bytes <= 8_589_934_592);
    }
}

/// The sum of the estimates stays in range whatever is chosen, so there is
/// always an answer about the room on the disk.
pub proof fn estimates_stay_in_range(ids: Seq<Seq<char>>, profile: MachineProfile)
    requires
        selection(ids, profile) is Chosen,
    ensures
        estimate(selection(ids, profile)->Chosen_0) + MIN_DISK_RESERVE_BYTES <= u64::MAX,
{
    let list = selection(ids, profile)->Chosen_0;
    choices_are_admitted(ids, profile);
    let places = Seq::new(list.len(), |i: int| choose|at: int| is_entry(list[i].id@, at));
    assert forall|i: int| 0 <= i < list.len() implies is_entry(
        list[i].id@,
        #[trigger] places[i],
    ) && list[i] == catalog_entries()[places[i]] by {
        assert(entry_of(list[i].id@) == Some(list[i]));
    }
    assert(places.no_duplicates()) by {
        assert forall|i: int, j: int| 0 <= i < j < places.len() implies places[i] != places[j] by {
            assert(list[i].id@ != list[j].id@);
        }
    }
    places.unique_seq_to_set();
    let all = vstd::set_lib::set_int_range(0, 12);
    vstd::set_lib::lemma_int_range(0, 12);
    assert(places.to_set().subset_of(all)) by {
        assert forall|at: int| places.to_set().contains(at) implies all.contains(at) by {
            let i = choose|i: int| 0 <= i < places.len() && places[i] == at;
            assert(is_entry(list[i].id@, places[i]));
        }
    }
    vstd::set_lib::lemma_len_subset(places.to_set(), all);
    assert forall|i: int| 0 <= i < list.len() implies (#[trigger] list[i]).estimated_bytes
        <= 8_589_934_592 by {
        assert(is_entry(list[i].id@, places[i]));
    }
    lemma_estimate_is_bounded(list);
}

/// A list holds an entry of a kind.
pub open spec fn holds_kind(list: Seq<Bundle>, kind: BundleKind) -> bool {
    exists|i: int| 0 <= i < list.len() && (#[trigger] list[i]).kind == kind
}

fn any_of_kind(list: &Vec<Bundle>, kind: BundleKind) -> (result: bool)
    ensures
        result == holds_kind(list@, kind),
{
    let mut i: usize = 0;
    while i < list.len()
        invariant
            i <= list@.len(),
            forall|k: int| 0 <= k < i ==> (#[trigger] list@[k]).kind != kind,
        decreases list.len() - i,
    {
        if list[i].kind == kind {
            assert(list@[i as int].kind == kind);
            return true;
        }
        i = i + 1;
    }
    false
}

/// The command that names the source of applications.
pub open spec fn source_setup() -> OperationView {
    OperationView {
        bundle_id: "flatpak-runtime"@,
        description: "Configure the user Flathub remote if it is not already present"@,
        argv: seq![
            FLATPAK_PROGRAM@,
            "remote-add"@,
            "--user"@,
            "--if-not-exists"@,
            "flathub"@,
            FLATHUB_REPO@,
        ],
    }
}

/// The command that installs an application.
pub open spec fn application_install(bundle: Bundle) -> OperationView {
    OperationView {
        bundle_id: bundle.id@,
        description: "Install "@ + bundle.display_name@ + " for the current user"@,
        argv: seq![
            FLATPAK_PROGRAM@,
            "install"@,
            "--user"@,
            "--noninteractive"@,
            "flathub"@,
            bundle.source->0@,
        ],
    }
}

/// The command that fetches a container environment.
pub open spec fn environment_pull(bundle: Bundle, image: Seq<char>) -> OperationView {
    OperationView {
        bundle_id: bundle.id@,
        description: "Pull the selected OCI environment for "@ + bundle.display_name@,
        argv: seq![PODMAN_PROGRAM@, "pull"@, image],
    }
}

/// The commands of the chosen entries.
pub open spec fn entry_operations(list: Seq<Bundle>, image: Seq<char>) -> Seq<OperationView>
    decreases list.len(),
{
    if list.len() == 0 {
        Seq::empty()
    } else {
        let before = entry_operations(list.drop_last(), image);
        match list.last().kind {
            BundleKind::Flatpak => before.push(application_install(list.last())),
            BundleKind::OciEnvironment => before.push(environment_pull(list.last(), image)),
            BundleKind::ExternalProvider => before,
        }
    }
}

/// All commands of a plan.
pub open spec fn plan_operations(list: Seq<Bundle>, image: Seq<char>) -> Seq<OperationView> {
    if holds_kind(list, BundleKind::Flatpak) {
        seq![source_setup()] + entry_operations(list, image)
    } else {
        entry_operations(list, image)
    }
}

/// The identifiers of the chosen entries.
pub open spec fn identifiers(list: Seq<Bundle>) -> Seq<Seq<char>> {
    Seq::new(list.len(), |i: int| list[i].id@)
}

/// The identifiers of the chosen entries that the user gets from their
/// providers.
pub open spec fn external_identifiers(list: Seq<Bundle>) -> Seq<Seq<char>>
    decreases list.len(),
{
    if list.len() == 0 {
        Seq::empty()
    } else if list.last().kind == BundleKind::ExternalProvider {
        external_identifiers(list.drop_last()).push(list.last().id@)
    } else {
        external_identifiers(list.drop_last())
    }
}

/// The plan of chosen entries.
pub open spec fn plan_for(
    list: Seq<Bundle>,
    profile: MachineProfile,
    image: Option<Seq<char>>,
) -> PlanView {
    PlanView {
        bundle_ids: identifiers(list),
        profile,
        estimated_bytes: estimate(list),
        network_required: plan_operations(list, image->0).len() > 0,
        operations: plan_operations(list, image->0),
        external_provider_bundle_ids: external_identifiers(list),
    }
}

/// Each answer to a request, and the requests that get it. What is chosen is
/// settled first, then the room on the disk, then the image.
pub open spec fn answers(
    request: ProvisionRequest,
    result: Result<ProvisionPlan, ProvisionError>,
) -> bool {
    let ids = texts(request.bundle_ids@);
    if ids.len() == 0 {
        result == Err::<ProvisionPlan, ProvisionError>(ProvisionError::NoBundles)
    } else {
        match selection(ids, request.profile) {
            Selection::Unknown(id) => result matches Err(ProvisionError::UnknownBundle(text))
                && text@ == id,
            Selection::TooSmall(entry) => result == Err::<ProvisionPlan, ProvisionError>(
                ProvisionError::ProfileTooSmall {
                    bundle: entry.id,
                    profile: request.profile,
                    minimum: entry.minimum_profile,
                },
            ),
            Selection::Chosen(list) => {
                let needed = estimate(list) + MIN_DISK_RESERVE_BYTES;
                let image = optional_text(request.environment_image);
                if needed > u64::MAX {
                    result == Err::<ProvisionPlan, ProvisionError>(ProvisionError::EstimateOverflow)
                } else if request.available_disk_bytes < needed {
                    result == Err::<ProvisionPlan, ProvisionError>(
                        ProvisionError::InsufficientDisk {
                            available: request.available_disk_bytes,
                            required: needed as u64,
                        },
                    )
                } else if holds_kind(list, BundleKind::OciEnvironment) && image is None {
                    result == Err::<ProvisionPlan, ProvisionError>(
                        ProvisionError::EnvironmentImageRequired,
                    )
                } else if holds_kind(list, BundleKind::OciEnvironment) && !valid_environment_image(
                    image->0,
                ) {
                    result matches Err(ProvisionError::InvalidEnvironmentImage(text)) && text@
                        == image->0
                } else {
                    result matches Ok(plan) && plan@ == plan_for(list, request.profile, image)
                }
            },
        }
    }
}

fn chosen_already(list: &Vec<Bundle>, id: &str) -> (result: bool)
    ensures
        result == is_chosen(list@, id@),
{
    let mut i: usize = 0;
    while i < list.len()
        invariant
            i <= list@.len(),
            forall|k: int| 0 <= k < i ==> (#[trigger] list@[k]).id@ != id@,
        decreases list.len() - i,
    {
        if same(list[i].id, id) {
            assert(list@[i as int].id@ == id@);
            return true;
        }
        i = i + 1;
    }
    false
}

fn select(ids: &Vec<String>, profile: MachineProfile) -> (result: Result<
    Vec<Bundle>,
    ProvisionError,
>)
    ensures
        match selection(texts(ids@), profile) {
            Selection::Unknown(id) => result matches Err(ProvisionError::UnknownBundle(text))
                && text@ == id,
            Selection::TooSmall(entry) => result == Err::<Vec<Bundle>, ProvisionError>(
                ProvisionError::ProfileTooSmall {
                    bundle: entry.id,
                    profile,
                    minimum: entry.minimum_profile,
                },
            ),
            Selection::Chosen(list) => result matches Ok(chosen) && chosen@ == list,
        },
{
    let ghost all = texts(ids@);
    let mut chosen: Vec<Bundle> = Vec::new();
    let mut i: usize = 0;
    assert(all.take(0) =~= Seq::empty());
    while i < ids.len()
        invariant
            i <= ids@.len(),
            all == texts(ids@),
            selection(all.take(i as int), profile) == Selection::Chosen(chosen@),
        decreases ids.len() - i,
    {
        proof {
            assert(all.take(i + 1).drop_last() =~= all.take(i as int));
            assert(all.take(i + 1).last() == ids@[i as int]@);
        }
        match catalog_item(ids[i].as_str()) {
            None => {
                proof {
                    lemma_selection_stops(all, profile, i + 1);
                }
                return Err(ProvisionError::UnknownBundle(ids[i].clone()));
            },
            Some(bundle) => {
                if !chosen_already(&chosen, bundle.id) {
                    if profile_rank(profile) < profile_rank(bundle.minimum_profile) {
                        proof {
                            lemma_selection_stops(all, profile, i + 1);
                        }
                        return Err(
                            ProvisionError::ProfileTooSmall {
                                bundle: bundle.id,
                                profile,
                                minimum: bundle.minimum_profile,
                            },
                        );
                    }
                    chosen.push(bundle);
                }
            },
        }
        i = i + 1;
    }
    assert(all.take(ids@.len() as int) =~= all);
    Ok(chosen)
}

fn sum_of_estimates(list: &Vec<Bundle>) -> (total: Option<u64>)
    ensures
        match total {
            Some(sum) => sum == estimate(list@),
            None => estimate(list@) > u64::MAX,
        },
{
    let mut sum: u64 = 0;
    let mut i: usize = 0;
    assert(list@.take(0) =~= Seq::empty());
    while i < list.len()
        invariant
            i <= list@.len(),
            sum == estimate(list@.take(i as int)),
        decreases list.len() - i,
    {
        proof {
            assert(list@.take(i + 1).drop_last() =~= list@.take(i as int));
            lemma_estimate_grows(list@, i + 1);
        }
        match sum.checked_add(list[i].estimated_bytes) {
            Some(next) => {
                sum = next;
            },
            None => {
                return None;
            },
        }
        i = i + 1;
    }
    assert(list@.take(list@.len() as int) =~= list@);
    Some(sum)
}

fn words(list: &[&str]) -> (argv: Vec<String>)
    ensures
        argv@.len() == list@.len(),
        forall|i: int| 0 <= i < list@.len() ==> (#[trigger] argv@[i])@ == list@[i]@,
{
    let mut argv: Vec<String> = Vec::new();
    let mut i: usize = 0;
    while i < list.len()
        invariant
            i <= list@.len(),
            argv@.len() == i,
            forall|k: int| 0 <= k < i ==> (#[trigger] argv@[k])@ == list@[k]@,
        decreases list.len() - i,
    {
        argv.push(list[i].to_owned());
        i = i + 1;
    }
    argv
}

fn operation_for(bundle: &Bundle, image: &str) -> (operation: Option<ProvisionOperation>)
    requires
        bundle.kind == BundleKind::Flatpak ==> bundle.source is Some,
    ensures
        match bundle.kind {
            BundleKind::Flatpak => operation is Some && operation->0@ == application_install(
                *bundle,
            ),
            BundleKind::OciEnvironment => operation is Some && operation->0@ == environment_pull(
                *bundle,
                image@,
            ),
            BundleKind::ExternalProvider => operation is None,
        },
{
    match bundle.kind {
        BundleKind::Flatpak => {
            let source = bundle.source.unwrap();
            let mut description = join("Install ", bundle.display_name);
            description.append(" for the current user");
            let operation = ProvisionOperation {
                bundle_id: bundle.id.to_owned(),
                description,
                argv: words(
                    &[FLATPAK_PROGRAM, "install", "--user", "--noninteractive", "flathub", source],
                ),
            };
            assert(operation@ =~~= application_install(*bundle));
            Some(operation)
        },
        BundleKind::OciEnvironment => {
            let operation = ProvisionOperation {
                bundle_id: bundle.id.to_owned(),
                description: join("Pull the selected OCI environment for ", bundle.display_name),
                argv: words(&[PODMAN_PROGRAM, "pull", image]),
            };
            assert(operation@ =~~= environment_pull(*bundle, image@));
            Some(operation)
        },
        BundleKind::ExternalProvider => None,
    }
}

fn operations_for(list: &Vec<Bundle>, image: &str) -> (operations: Vec<ProvisionOperation>)
    requires
        forall|i: int|
            0 <= i < list@.len() && (#[trigger] list@[i]).kind == BundleKind::Flatpak
                ==> list@[i].source is Some,
    ensures
        operation_views(operations@) == plan_operations(list@, image@),
{
    let mut operations: Vec<ProvisionOperation> = Vec::new();
    if any_of_kind(list, BundleKind::Flatpak) {
        let setup = ProvisionOperation {
            bundle_id: "flatpak-runtime".to_owned(),
            description:
                "Configure the user Flathub remote if it is not already present".to_owned(),
            argv: words(
                &[
                    FLATPAK_PROGRAM,
                    "remote-add",
                    "--user",
                    "--if-not-exists",
                    "flathub",
                    FLATHUB_REPO,
                ],
            ),
        };
        assert(setup@ =~~= source_setup());
        operations.push(setup);
    }
    let ghost lead = operation_views(operations@);
    let mut i: usize = 0;
    assert(list@.take(0) =~= Seq::empty());
    assert(lead + Seq::<OperationView>::empty() =~= lead);
    while i < list.len()
        invariant
            i <= list@.len(),
            operation_views(operations@) == lead + entry_operations(list@.take(i as int), image@),
            forall|i: int|
                0 <= i < list@.len() && (#[trigger] list@[i]).kind == BundleKind::Flatpak
                    ==> list@[i].source is Some,
        decreases list.len() - i,
    {
        let ghost before = operations@;
        assert(list@.take(i + 1).drop_last() =~= list@.take(i as int));
        match operation_for(&list[i], image) {
            Some(operation) => {
                operations.push(operation);
                assert(operation_views(operations@) =~= operation_views(before).push(operation@));
                assert(lead + entry_operations(list@.take(i as int), image@).push(operation@) =~= (
                lead + entry_operations(list@.take(i as int), image@)).push(operation@));
            },
            None => {},
        }
        i = i + 1;
    }
    proof {
        assert(list@.take(list@.len() as int) =~= list@);
        if holds_kind(list@, BundleKind::Flatpak) {
            assert(lead =~= seq![source_setup()]);
        } else {
            assert(lead =~= Seq::empty());
            assert(lead + entry_operations(list@, image@) =~= entry_operations(list@, image@));
        }
    }
    operations
}

/// Whether what is asked for may be carried out.
pub open spec fn consent_check(consent: bool) -> Result<(), ProvisionError> {
    if consent {
        Ok::<(), ProvisionError>(())
    } else {
        Err(ProvisionError::ConsentRequired)
    }
}

impl ProvisionRequest {
    /// Plans what was asked for. The user need not have agreed yet.
    pub fn plan(&self) -> (result: Result<ProvisionPlan, ProvisionError>)
        ensures
            answers(*self, result),
    {
        if self.bundle_ids.len() == 0 {
            return Err(ProvisionError::NoBundles);
        }
        let chosen = match select(&self.bundle_ids, self.profile) {
            Ok(chosen) => chosen,
            Err(error) => {
                return Err(error);
            },
        };
        let estimated_bytes = match sum_of_estimates(&chosen) {
            Some(total) => total,
            None => {
                return Err(ProvisionError::EstimateOverflow);
            },
        };
        let required = match estimated_bytes.checked_add(MIN_DISK_RESERVE_BYTES) {
            Some(required) => required,
            None => {
                return Err(ProvisionError::EstimateOverflow);
            },
        };
        if self.available_disk_bytes < required {
            return Err(
                ProvisionError::InsufficientDisk {
                    available: self.available_disk_bytes,
                    required,
                },
            );
        }
        let ghost given = optional_text(self.environment_image);
        if any_of_kind(&chosen, BundleKind::OciEnvironment) {
            match &self.environment_image {
                None => {
                    return Err(ProvisionError::EnvironmentImageRequired);
                },
                Some(image) => {
                    if !validate_digest_image(image.as_str()) {
                        return Err(ProvisionError::InvalidEnvironmentImage(image.clone()));
                    }
                },
            }
        }
        proof {
            choices_are_admitted(texts(self.bundle_ids@), self.profile);
            assert forall|i: int|
                0 <= i < chosen@.len() && (#[trigger] chosen@[i]).kind
                    == BundleKind::Flatpak implies chosen@[i].source is Some by {
                let at = choose|at: int| is_entry(chosen@[i].id@, at);
                applications_have_a_source(at);
            }
        }
        let operations = match &self.environment_image {
            Some(image) => operations_for(&chosen, image.as_str()),
            None => operations_for(&chosen, ""),
        };
        proof {
            if given is None {
                lemma_operations_without_environments(chosen@, ""@, given->0);
            }
        }
        let mut bundle_ids: Vec<String> = Vec::new();
        let mut external: Vec<String> = Vec::new();
        let mut i: usize = 0;
        assert(chosen@.take(0) =~= Seq::empty());
        while i < chosen.len()
            invariant
                i <= chosen@.len(),
                texts(bundle_ids@) == identifiers(chosen@.take(i as int)),
                texts(external@) == external_identifiers(chosen@.take(i as int)),
            decreases chosen.len() - i,
        {
            assert(chosen@.take(i + 1).drop_last() =~= chosen@.take(i as int));
            push_text(&mut bundle_ids, chosen[i].id);
            assert(identifiers(chosen@.take(i + 1)) =~= identifiers(chosen@.take(i as int)).push(
                chosen@[i as int].id@,
            ));
            if chosen[i].kind == BundleKind::ExternalProvider {
                push_text(&mut external, chosen[i].id);
            }
            i = i + 1;
        }
        assert(chosen@.take(chosen@.len() as int) =~= chosen@);
        let plan = ProvisionPlan {
            bundle_ids,
            profile: self.profile,
            estimated_bytes,
            network_required: operations.len() > 0,
            operations,
            external_provider_bundle_ids: external,
        };
        assert(plan@ =~= plan_for(chosen@, self.profile, given));
        Ok(plan)
    }

    /// Checks that the user agreed.
    pub fn validate_consent(&self) -> (result: Result<(), ProvisionError>)
        ensures
            result == consent_check(self.consent),
    {
        if self.consent {
            Ok(())
        } else {
            Err(ProvisionError::ConsentRequired)
        }
    }
}

proof fn lemma_operations_without_environments(list: Seq<Bundle>, a: Seq<char>, b: Seq<char>)
    requires
        !holds_kind(list, BundleKind::OciEnvironment),
    ensures
        entry_operations(list, a) == entry_operations(list, b),
        plan_operations(list, a) == plan_operations(list, b),
    decreases list.len(),
{
    if list.len() > 0 {
        assert(!holds_kind(list.drop_last(), BundleKind::OciEnvironment)) by {
            if holds_kind(list.drop_last(), BundleKind::OciEnvironment) {
                let i = choose|i: int|
                    0 <= i < list.drop_last().len() && (#[trigger] list.drop_last()[i]).kind
                        == BundleKind::OciEnvironment;
                assert(list[i].kind == BundleKind::OciEnvironment);
            }
        }
        assert(list[list.len() - 1].kind != BundleKind::OciEnvironment);
        lemma_operations_without_environments(list.drop_last(), a, b);
    }
}

/// A command runs one of the two fixed programs.
pub open spec fn runs_fixed_program(operation: OperationView) -> bool {
    operation.argv.len() > 0 && (operation.argv[0] == FLATPAK_PROGRAM@ || operation.argv[0]
        == PODMAN_PROGRAM@)
}

/// Every command of a plan runs one of the two fixed programs.
pub proof fn plans_run_fixed_programs(list: Seq<Bundle>, image: Seq<char>, i: int)
    requires
        0 <= i < plan_operations(list, image).len(),
    ensures
        runs_fixed_program(plan_operations(list, image)[i]),
{
    assert(runs_fixed_program(source_setup()));
    lemma_entry_programs(list, image);
    if holds_kind(list, BundleKind::Flatpak) {
        if i > 0 {
            assert(plan_operations(list, image)[i] == entry_operations(list, image)[i - 1]);
        }
    }
}

proof fn lemma_entry_programs(list: Seq<Bundle>, image: Seq<char>)
    ensures
        forall|i: int|
            0 <= i < entry_operations(list, image).len() ==> runs_fixed_program(
                #[trigger] entry_operations(list, image)[i],
            ),
    decreases list.len(),
{
    if list.len() > 0 {
        let before = entry_operations(list.drop_last(), image);
        let all = entry_operations(list, image);
        lemma_entry_programs(list.drop_last(), image);
        assert(runs_fixed_program(application_install(list.last())));
        assert(runs_fixed_program(environment_pull(list.last(), image)));
        assert forall|i: int| 0 <= i < all.len() implies runs_fixed_program(#[trigger] all[i]) by {
            if i < before.len() {
                assert(all[i] == before[i]);
            }
        }
    }
}

/// What a user is told before choosing.
#[derive(Clone, Copy, Debug, PartialEq, Eq, Structural)]
pub struct ProvisionReadiness {
    /// Whether the network is ready.
    pub network: NetworkState,
    /// Whether the user has to agree.
    pub consent_required: bool,
    /// Free bytes that a plan leaves alone.
    pub minimum_disk_reserve_bytes: u64,
}

/// Returns what a user is told before choosing.
pub fn readiness(network: NetworkState) -> (readiness: ProvisionReadiness)
    ensures
        readiness == (ProvisionReadiness {
            network,
            consent_required: true,
            minimum_disk_reserve_bytes: MIN_DISK_RESERVE_BYTES,
        }),
{
    ProvisionReadiness {
        network,
        consent_required: true,
        minimum_disk_reserve_bytes: MIN_DISK_RESERVE_BYTES,
    }
}

/// The command that asks whether there is a network.
pub open spec fn probe_words() -> Seq<Seq<char>> {
    seq![NETWORK_PROBE_PROGRAM@, "--quiet"@, "--timeout=5"@]
}

/// Returns the command that tells whether the network is ready.
pub fn network_probe_argv() -> (argv: Vec<String>)
    ensures
        texts(argv@) == probe_words(),
{
    let argv = words(&[NETWORK_PROBE_PROGRAM, "--quiet", "--timeout=5"]);
    assert(texts(argv@) =~= seq![NETWORK_PROBE_PROGRAM@, "--quiet"@, "--timeout=5"@]);
    argv
}

/// The order of the profiles, smallest first.
pub open spec fn is_smaller(a: MachineProfile, b: MachineProfile) -> bool {
    match (a, b) {
        (MachineProfile::Low, MachineProfile::Balanced) => true,
        (MachineProfile::Low, MachineProfile::Standard) => true,
        (MachineProfile::Low, MachineProfile::Workstation) => true,
        (MachineProfile::Balanced, MachineProfile::Standard) => true,
        (MachineProfile::Balanced, MachineProfile::Workstation) => true,
        (MachineProfile::Standard, MachineProfile::Workstation) => true,
        _ => false,
    }
}

/// A bundle is refused as too large exactly for the profiles below its minimum:
/// what is refused needs a larger profile, and nothing that is chosen does. So a
/// workstation is never refused for its profile.
pub proof fn profiles_below_the_minimum_are_refused(ids: Seq<Seq<char>>, profile: MachineProfile)
    ensures
        selection(ids, profile) matches Selection::TooSmall(bundle) ==> is_smaller(
            profile,
            bundle.minimum_profile,
        ) && ids.contains(bundle.id@),
        selection(ids, profile) matches Selection::Chosen(list) ==> forall|i: int|
            0 <= i < list.len() ==> !is_smaller(profile, (#[trigger] list[i]).minimum_profile),
        profile == MachineProfile::Workstation ==> !(selection(ids, profile) is TooSmall),
    decreases ids.len(),
{
    if ids.len() > 0 {
        let rest = ids.drop_last();
        profiles_below_the_minimum_are_refused(rest, profile);
        if let Selection::TooSmall(bundle) = selection(ids, profile) {
            if selection(rest, profile) is TooSmall {
                let k = rest.index_of(bundle.id@);
                assert(ids[k] == bundle.id@);
            } else {
                assert(ids[ids.len() - 1] == ids.last());
                lemma_entry_has_its_name(ids.last());
            }
        }
    }
}

proof fn lemma_entry_has_its_name(id: Seq<char>)
    ensures
        entry_of(id) matches Some(bundle) ==> bundle.id@ == id,
{
    if exists|at: int| is_entry(id, at) {
        let at = choose|at: int| is_entry(id, at);
        assert(is_entry(id, at));
    }
}

/// A larger machine may have whatever a smaller one may have, and it chooses the
/// same bundles.
pub proof fn larger_profiles_choose_the_same(
    ids: Seq<Seq<char>>,
    smaller: MachineProfile,
    larger: MachineProfile,
)
    requires
        is_smaller(smaller, larger),
        selection(ids, smaller) is Chosen,
    ensures
        selection(ids, larger) == selection(ids, smaller),
    decreases ids.len(),
{
    if ids.len() > 0 {
        larger_profiles_choose_the_same(ids.drop_last(), smaller, larger);
    }
}

/// Every bundle that was asked for is chosen, once, where all of them are known
/// and the machine is large enough.
pub proof fn choices_are_complete(ids: Seq<Seq<char>>, profile: MachineProfile)
    requires
        selection(ids, profile) is Chosen,
    ensures
        forall|i: int|
            0 <= i < ids.len() ==> is_chosen(selection(ids, profile)->Chosen_0, #[trigger] ids[i]),
    decreases ids.len(),
{
    if ids.len() > 0 {
        let rest = ids.drop_last();
        choices_are_complete(rest, profile);
        let before = selection(rest, profile)->Chosen_0;
        let list = selection(ids, profile)->Chosen_0;
        lemma_entry_has_its_name(ids.last());
        assert forall|i: int| 0 <= i < ids.len() implies is_chosen(list, #[trigger] ids[i]) by {
            if i < rest.len() {
                assert(is_chosen(before, rest[i]));
                let k = choose|k: int|
                    0 <= k < before.len() && (#[trigger] before[k]).id@ == rest[i];
                assert(list[k] == before[k]);
            } else if !is_chosen(before, ids.last()) {
                assert(list[list.len() - 1].id@ == ids.last());
            }
        }
    }
}

/// The machine that a bundle needs.
pub open spec fn needs(id: Seq<char>) -> MachineProfile {
    if id == "flutter"@ || id == "android-sdk"@ || id == "android-studio"@ || id == "qt"@ {
        MachineProfile::Standard
    } else if id == "node"@ || id == "chrome"@ || id == "java"@ || id == "cmake"@ {
        MachineProfile::Balanced
    } else {
        MachineProfile::Low
    }
}

/// What the catalog offers: development environments are images, Android Studio
/// and Chrome are applications from their publisher, and Codex is left to its
/// provider. Heavy environments need a standard machine and browsers and
/// managed runtimes a balanced one; every bundle that is installed is counted
/// with 1 to 8 GiB.
pub proof fn the_catalog_offers_known_bundles(at: int)
    requires
        0 <= at < catalog_entries().len(),
    ensures
        ({
            let bundle = catalog_entries()[at];
            &&& bundle.minimum_profile == needs(bundle.id@)
            &&& bundle.kind == BundleKind::ExternalProvider <==> bundle.id@ == "codex"@
            &&& bundle.kind == BundleKind::Flatpak <==> bundle.id@ == "android-studio"@ || bundle.id@
                == "chrome"@
            &&& bundle.id@ == "android-studio"@ ==> bundle.source == Some(
                "com.google.AndroidStudio",
            )
            &&& bundle.id@ == "chrome"@ ==> bundle.source == Some("com.google.Chrome")
            &&& bundle.kind == BundleKind::ExternalProvider ==> bundle.estimated_bytes == 0
            &&& bundle.kind != BundleKind::ExternalProvider ==> 1_073_741_824
                <= bundle.estimated_bytes <= 8_589_934_592
        }),
{
    reveal_strlit("rust");
    reveal_strlit("go");
    reveal_strlit("python");
    reveal_strlit("node");
    reveal_strlit("flutter");
    reveal_strlit("android-sdk");
    reveal_strlit("android-studio");
    reveal_strlit("chrome");
    reveal_strlit("java");
    reveal_strlit("qt");
    reveal_strlit("cmake");
    reveal_strlit("codex");
    let id = catalog_entries()[at].id@;
    assert(id.len() > 1 ==> id[0] == id[0] && id[1] == id[1]);
    assert("rust"@.len() == 4 && "node"@.len() == 4 && "java"@.len() == 4);
    assert("go"@.len() == 2 && "qt"@.len() == 2);
    assert("python"@.len() == 6 && "chrome"@.len() == 6);
    assert("cmake"@.len() == 5 && "codex"@.len() == 5);
    assert("flutter"@.len() == 7 && "android-sdk"@.len() == 11 && "android-studio"@.len() == 14);
    assert("rust"@[0] != "node"@[0] && "rust"@[0] != "java"@[0]);
    assert("go"@[0] != "qt"@[0] && "python"@[0] != "chrome"@[0] && "cmake"@[1] != "codex"@[1]);
}

/// The bundle with an identifier, and the size that is counted for it.
pub proof fn the_catalog_knows_every_bundle()
    ensures
        exists|at: int| is_entry("rust"@, at) && catalog_entries()[at].estimated_bytes == 0x8000_0000,
        exists|at: int| is_entry("go"@, at) && catalog_entries()[at].estimated_bytes == 0x4000_0000,
        exists|at: int|
            is_entry("python"@, at) && catalog_entries()[at].estimated_bytes == 0x4000_0000,
        exists|at: int| is_entry("node"@, at) && catalog_entries()[at].estimated_bytes == 0x8000_0000,
        exists|at: int|
            is_entry("flutter"@, at) && catalog_entries()[at].estimated_bytes == 0x1_4000_0000,
        exists|at: int|
            is_entry("android-sdk"@, at) && catalog_entries()[at].estimated_bytes == 0x2_0000_0000,
        exists|at: int|
            is_entry("android-studio"@, at) && catalog_entries()[at].estimated_bytes == 0xc000_0000,
        exists|at: int|
            is_entry("chrome"@, at) && catalog_entries()[at].estimated_bytes == 0x4000_0000,
        exists|at: int| is_entry("java"@, at) && catalog_entries()[at].estimated_bytes == 0x8000_0000,
        exists|at: int| is_entry("qt"@, at) && catalog_entries()[at].estimated_bytes == 0xc000_0000,
        exists|at: int|
            is_entry("cmake"@, at) && catalog_entries()[at].estimated_bytes == 0x8000_0000,
        exists|at: int| is_entry("codex"@, at) && catalog_entries()[at].estimated_bytes == 0,
        catalog_entries().len() == 12,
{
    assert(is_entry("rust"@, 0));
    assert(is_entry("go"@, 1));
    assert(is_entry("python"@, 2));
    assert(is_entry("node"@, 3));
    assert(is_entry("flutter"@, 4));
    assert(is_entry("android-sdk"@, 5));
    assert(is_entry("android-studio"@, 6));
    assert(is_entry("chrome"@, 7));
    assert(is_entry("java"@, 8));
    assert(is_entry("qt"@, 9));
    assert(is_entry("cmake"@, 10));
    assert(is_entry("codex"@, 11));
}

/// What a plan that was made costs and does. The machine has room for the sum of
/// what was chosen and 4 GiB besides; the plan names what was chosen; it has one
/// operation for each bundle that is installed, in their order, behind the one
/// that adds the source of applications where there are any; an environment is
/// pulled by its digest; and what is left to a provider is named and not touched.
pub proof fn plans_do_what_was_chosen(request: ProvisionRequest, plan: ProvisionPlan)
    requires
        answers(request, Ok(plan)),
    ensures
        ({
            let list = selection(texts(request.bundle_ids@), request.profile)->Chosen_0;
            &&& request.bundle_ids@.len() > 0
            &&& selection(texts(request.bundle_ids@), request.profile) is Chosen
            &&& plan@.bundle_ids.len() == list.len()
            &&& forall|i: int|
                0 <= i < list.len() ==> #[trigger] plan@.bundle_ids[i] == list[i].id@
            &&& plan@.profile == request.profile
            &&& request.available_disk_bytes >= plan@.estimated_bytes + 4_294_967_296
            &&& plan@.network_required <==> plan@.operations.len() > 0
            &&& holds_kind(list, BundleKind::OciEnvironment) ==> request.environment_image is Some
                && ends_in_digest(request.environment_image->0@)
            &&& plan@.operations.len() + plan@.external_provider_bundle_ids.len() == list.len()
                + if holds_kind(list, BundleKind::Flatpak) {
                1int
            } else {
                0
            }
            &&& forall|id: Seq<char>| #[trigger]
                plan@.external_provider_bundle_ids.contains(id) ==> exists|i: int|
                    0 <= i < list.len() && (#[trigger] list[i]).id@ == id && list[i].kind
                        == BundleKind::ExternalProvider
        }),
{
    let list = selection(texts(request.bundle_ids@), request.profile)->Chosen_0;
    let image = optional_text(request.environment_image)->0;
    lemma_operations_are_counted(list, image);
    lemma_external_bundles(list);
}

proof fn lemma_operations_are_counted(list: Seq<Bundle>, image: Seq<char>)
    ensures
        entry_operations(list, image).len() + external_identifiers(list).len() == list.len(),
    decreases list.len(),
{
    if list.len() > 0 {
        lemma_operations_are_counted(list.drop_last(), image);
    }
}

proof fn lemma_external_bundles(list: Seq<Bundle>)
    ensures
        forall|id: Seq<char>| #[trigger]
            external_identifiers(list).contains(id) ==> exists|i: int|
                0 <= i < list.len() && (#[trigger] list[i]).id@ == id && list[i].kind
                    == BundleKind::ExternalProvider,
    decreases list.len(),
{
    if list.len() > 0 {
        let rest = list.drop_last();
        lemma_external_bundles(rest);
        assert forall|id: Seq<char>| #[trigger] external_identifiers(list).contains(id) implies exists|
            i: int,
        |
            0 <= i < list.len() && (#[trigger] list[i]).id@ == id && list[i].kind
                == BundleKind::ExternalProvider by {
            let all = external_identifiers(list);
            let k = all.index_of(id);
            if k < external_identifiers(rest).len() {
                assert(external_identifiers(rest)[k] == id);
                assert(external_identifiers(rest).contains(id));
                let i = choose|i: int|
                    0 <= i < rest.len() && (#[trigger] rest[i]).id@ == id && rest[i].kind
                        == BundleKind::ExternalProvider;
                assert(list[i] == rest[i]);
            } else {
                assert(list[list.len() - 1].id@ == id);
            }
        }
    }
}

/// The operation for a bundle: an application is installed for the user, without
/// questions, from its source; an environment is pulled by the reference that
/// was given; and the source of applications is added for the user where it is
/// not there yet.
pub proof fn operations_reach_their_tool(bundle: Bundle, image: Seq<char>)
    requires
        bundle.source is Some,
    ensures
        application_install(bundle).bundle_id == bundle.id@,
        application_install(bundle).argv.take(2) == seq!["/usr/bin/flatpak"@, "install"@],
        application_install(bundle).argv.contains("--user"@),
        application_install(bundle).argv.contains("--noninteractive"@),
        ends_in(application_install(bundle).argv, seq!["flathub"@, bundle.source->0@]),
        environment_pull(bundle, image).bundle_id == bundle.id@,
        environment_pull(bundle, image).argv.take(2) == seq!["/usr/bin/podman"@, "pull"@],
        ends_in(environment_pull(bundle, image).argv, seq!["pull"@, image]),
        environment_pull(bundle, image).argv.len() == 3,
        source_setup().argv.take(2) == seq!["/usr/bin/flatpak"@, "remote-add"@],
        source_setup().argv.contains("--user"@),
        source_setup().argv.contains("--if-not-exists"@),
        ends_in(
            source_setup().argv,
            seq!["flathub"@, "https://dl.flathub.org/repo/flathub.flatpakrepo"@],
        ),
{
    let install = application_install(bundle).argv;
    let pull = environment_pull(bundle, image).argv;
    let setup = source_setup().argv;
    assert(install.take(2) =~= seq!["/usr/bin/flatpak"@, "install"@]);
    assert(install[2] == "--user"@ && install[3] == "--noninteractive"@);
    assert(install.skip(4) =~= seq!["flathub"@, bundle.source->0@]);
    assert(pull.take(2) =~= seq!["/usr/bin/podman"@, "pull"@]);
    assert(pull.skip(1) =~= seq!["pull"@, image]);
    assert(setup.take(2) =~= seq!["/usr/bin/flatpak"@, "remote-add"@]);
    assert(setup[2] == "--user"@ && setup[3] == "--if-not-exists"@);
    assert(setup.skip(4) =~= seq![
        "flathub"@,
        "https://dl.flathub.org/repo/flathub.flatpakrepo"@,
    ]);
}

/// The operations of a plan stand in the order of what was chosen: the last one
/// is for the last bundle that is installed, and what comes before does not
/// depend on it.
pub proof fn operations_stand_in_order(list: Seq<Bundle>, bundle: Bundle, image: Seq<char>)
    ensures
        bundle.kind == BundleKind::ExternalProvider ==> entry_operations(list.push(bundle), image)
            == entry_operations(list, image),
        bundle.kind == BundleKind::OciEnvironment ==> entry_operations(list.push(bundle), image)
            == entry_operations(list, image).push(environment_pull(bundle, image)),
        bundle.kind == BundleKind::Flatpak ==> entry_operations(list.push(bundle), image)
            == entry_operations(list, image).push(application_install(bundle)),
        holds_kind(list, BundleKind::Flatpak) ==> plan_operations(list, image).len() > 0
            && plan_operations(list, image)[0] == source_setup(),
        !holds_kind(list, BundleKind::Flatpak) ==> plan_operations(list, image)
            == entry_operations(list, image),
        estimate(list.push(bundle)) == estimate(list) + bundle.estimated_bytes,
{
    assert(list.push(bundle).drop_last() =~= list);
}

/// The words for kinds of bundles and for the network, and how the network is asked
/// for.
pub proof fn provisioning_words_are_stable()
    ensures
        BundleKind::Flatpak.label() == "flatpak"@,
        BundleKind::OciEnvironment.label() == "oci-environment"@,
        BundleKind::ExternalProvider.label() == "external-provider"@,
        NetworkState::Connected.label() == "connected"@,
        NetworkState::Offline.label() == "offline"@,
        NetworkState::Unknown.label() == "unknown"@,
        probe_words() == seq!["/usr/bin/nm-online"@, "--quiet"@, "--timeout=5"@],
{
}

/// A plan is made wherever everything that was asked for is in the catalog and suits
/// the machine, the disk has room for the sum and the reserve, just so or more, and
/// the environments have an image; it is then the plan for what was chosen.
pub proof fn plans_are_made_where_they_can_be(
    request: ProvisionRequest,
    result: Result<ProvisionPlan, ProvisionError>,
    list: Seq<Bundle>,
)
    requires
        answers(request, result),
        request.bundle_ids@.len() > 0,
        selection(texts(request.bundle_ids@), request.profile) == Selection::Chosen(list),
        holds_kind(list, BundleKind::OciEnvironment) ==> request.environment_image is Some
            && valid_environment_image(request.environment_image->0@),
    ensures
        request.available_disk_bytes >= estimate(list) + 4_294_967_296 ==> (result matches Ok(plan)
            && plan@.operations == plan_operations(
            list,
            optional_text(request.environment_image)->0,
        ) && plan@.estimated_bytes == estimate(list) && plan@.bundle_ids == identifiers(list)),
        request.available_disk_bytes < estimate(list) + 4_294_967_296 ==> (result matches Err(
            ProvisionError::InsufficientDisk { available, required },
        ) && available == request.available_disk_bytes && required == estimate(list)
            + 4_294_967_296),
{
    estimates_stay_in_range(texts(request.bundle_ids@), request.profile);
    assert(texts(request.bundle_ids@).len() == request.bundle_ids@.len());
}

/// Nothing is planned where nothing was asked for, where a bundle is unknown, or
/// where environments are asked for without a usable image.
pub proof fn impossible_requests_are_refused(
    request: ProvisionRequest,
    result: Result<ProvisionPlan, ProvisionError>,
)
    requires
        answers(request, result),
    ensures
        request.bundle_ids@.len() == 0 ==> result == Err::<ProvisionPlan, ProvisionError>(
            ProvisionError::NoBundles,
        ),
        result matches Ok(plan) ==> (selection(
            texts(request.bundle_ids@),
            request.profile,
        ) matches Selection::Chosen(list) && (holds_kind(list, BundleKind::OciEnvironment) ==> (
        request.environment_image matches Some(image) && valid_environment_image(image@)))),
        result matches Err(ProvisionError::EnvironmentImageRequired) ==> request.environment_image
            is None,
        !(result matches Err(ProvisionError::EstimateOverflow)),
        !(result matches Err(ProvisionError::ConsentRequired)),
        consent_check(true) is Ok,
        consent_check(false) == Err::<(), ProvisionError>(ProvisionError::ConsentRequired),
{
    assert(texts(request.bundle_ids@).len() == request.bundle_ids@.len());
    if selection(texts(request.bundle_ids@), request.profile) is Chosen {
        estimates_stay_in_range(texts(request.bundle_ids@), request.profile);
    }
}

/// An unknown bundle is one that was asked for and that the catalog does not have.
pub proof fn unknown_bundles_are_not_in_the_catalog(ids: Seq<Seq<char>>, profile: MachineProfile)
    ensures
        selection(ids, profile) matches Selection::Unknown(id) ==> ids.contains(id) && entry_of(
            id,
        ) is None,
    decreases ids.len(),
{
    if ids.len() > 0 {
        let rest = ids.drop_last();
        unknown_bundles_are_not_in_the_catalog(rest, profile);
        if let Selection::Unknown(id) = selection(ids, profile) {
            if selection(rest, profile) is Unknown {
                let k = rest.index_of(id);
                assert(ids[k] == id);
            } else {
                assert(ids[ids.len() - 1] == id);
            }
        }
    }
}

/// The image of environments is a name without white space and the digest behind
/// it; neither can be missing.
pub proof fn environment_images_have_a_name_and_a_digest(name: Seq<char>, digest: Seq<char>)
    requires
        all_hex(digest),
        digest.len() == 64,
    ensures
        valid_environment_image(name + "@sha256:"@ + digest) <==> name.len() > 0
            && !has_white_space(name),
        name.len() < 72 ==> !valid_environment_image(name),
{
    reveal_strlit("@sha256:");
    digests_have_64_digits(name, digest);
    let image = name + "@sha256:"@ + digest;
    assert(image.len() == name.len() + 72);
    assert(image.take(image.len() - 72) =~= name);
}

} // verus!
