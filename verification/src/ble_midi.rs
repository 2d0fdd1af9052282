//! The wireless MIDI connectivity manager.
//!
//! This module holds the decision core of the manager: prerequisite
//! checking, adapter selection, scan classification, connection
//! establishment, bounded reconnection, packet framing, and the ordered
//! event stream that carries every state change to the foreground loop.
//!
//! Radio I/O itself is asynchronous and lives outside the library.  The
//! driver performs each outward action (starting a scan, connecting,
//! writing a characteristic, running a diagnostic command) and hands the
//! observed outcome back as plain values; every function here is a total,
//! verified step from the previous state and that outcome to the next
//! state and the events it emits.

use vstd::prelude::*;
use vstd::string::*;

use crate::text::{
    chars_of, contains_chars, contains_seq, count_matches, dec_spec, eq_chars, match_count,
    str_eq, trim_chars, trim_seq, u64_to_string, upper_chars, upper_seq,
};

verus! {

broadcast use
    vstd::seq_lib::lemma_seq_contains_after_push,
    vstd::seq::Seq::lemma_push_map_commute,
    vstd::seq::Seq::add_empty_left,
    vstd::seq::Seq::add_empty_right,
    vstd::seq::Seq::push_distributes_over_add,
;

/// The BLE-MIDI service advertised by MIDI peripherals.
pub const BLE_MIDI_SERVICE_UUID: u128 = 0x03b80e5a_ede8_4b33_a751_6ce34ec4c700;

/// The BLE-MIDI data characteristic written for every outgoing packet.
pub const BLE_MIDI_CHAR_UUID: u128 = 0x7772e5db_3868_4112_a1a9_f2669d106bf3;

/// Identity of a peripheral discovered during a scan.
#[derive(Debug, Clone)]
pub struct BleDeviceInfo {
    pub id: String,
    pub name: String,
    pub address: String,
}

/// The connection phase of the manager.
#[derive(Debug, Clone, Copy, PartialEq, Eq, Structural)]
pub enum BleConnectionState {
    Disconnected,
    Scanning,
    Connecting,
    Connected,
    Reconnecting(u32),
}

/// An event pushed from the connectivity tasks to the foreground loop.
#[derive(Debug, Clone)]
pub enum BleEvent {
    StateChanged(BleConnectionState),
    DeviceDiscovered(BleDeviceInfo),
    Connected(String),
    Disconnected,
    Error(String),
    /// Prerequisite check result: check name, pass flag, guidance text.
    PrerequisiteCheck(String, bool, String),
}

/// Ghost mirror of [`BleEvent`] with strings as character sequences, so
/// that contracts can state full event-sequence equalities.
pub enum EventView {
    StateChanged(BleConnectionState),
    DeviceDiscovered(Seq<char>, Seq<char>, Seq<char>),
    Connected(Seq<char>),
    Disconnected,
    Error(Seq<char>),
    PrerequisiteCheck(Seq<char>, bool, Seq<char>),
}

/// The ghost view of one event.
pub open spec fn event_view(e: BleEvent) -> EventView {
    match e {
        BleEvent::StateChanged(s) => EventView::StateChanged(s),
        BleEvent::DeviceDiscovered(d) => EventView::DeviceDiscovered(d.id@, d.name@, d.address@),
        BleEvent::Connected(n) => EventView::Connected(n@),
        BleEvent::Disconnected => EventView::Disconnected,
        BleEvent::Error(m) => EventView::Error(m@),
        BleEvent::PrerequisiteCheck(n, p, g) => EventView::PrerequisiteCheck(n@, p, g@),
    }
}

/// The ghost view of a queue of events.
pub open spec fn events_view(es: Seq<BleEvent>) -> Seq<EventView> {
    es.map_values(|e: BleEvent| event_view(e))
}

/// Raw output of the host's Bluetooth diagnostic tools, gathered by the
/// caller.  `None` stands for a command that could not be run at all.
#[derive(Debug, Clone)]
pub struct HostProbe {
    /// Whether the Bluetooth management utility is on the `PATH`.
    pub bluetoothctl_found: bool,
    /// Output of the service-active query.
    pub service_stdout: Option<String>,
    /// Output of the adapter listing.
    pub list_stdout: Option<String>,
    /// Output of the default-adapter status query.
    pub show_stdout: Option<String>,
}

impl HostProbe {
    /// Whether the management stack is installed.
    pub open spec fn spec_installed(self) -> bool {
        self.bluetoothctl_found
    }

    /// Whether the Bluetooth service reports itself active.
    pub open spec fn spec_service_running(self) -> bool {
        match self.service_stdout {
            Some(s) => trim_seq(s@) == "active"@,
            None => false,
        }
    }

    /// Whether at least one adapter is listed.
    pub open spec fn spec_adapter_available(self) -> bool {
        match self.list_stdout {
            Some(s) => contains_seq(s@, "Controller"@),
            None => false,
        }
    }

    /// How many adapters are listed.
    pub open spec fn spec_adapter_count(self) -> int {
        match self.list_stdout {
            Some(s) => match_count(s@, "Controller"@),
            None => 0,
        }
    }

    /// Whether the default adapter reports itself powered.
    pub open spec fn spec_adapter_powered(self) -> bool {
        self.spec_adapter_available() && match self.show_stdout {
            Some(s) => contains_seq(s@, "Powered: yes"@),
            None => false,
        }
    }

    /// Whether every prerequisite holds.
    pub open spec fn spec_all_passed(self) -> bool {
        self.spec_installed() && self.spec_service_running() && self.spec_adapter_available()
            && self.spec_adapter_powered()
    }

    /// The issue lines of a prerequisite report: one per failing check,
    /// whether or not the diagnostic behind the check could be run.
    pub open spec fn spec_issues(self) -> Seq<Seq<char>> {
        let a: Seq<Seq<char>> = if !self.spec_installed() {
            seq!["BlueZ not installed"@]
        } else {
            Seq::empty()
        };
        let b: Seq<Seq<char>> = if !self.spec_service_running() {
            seq!["Bluetooth service not running"@]
        } else {
            Seq::empty()
        };
        let c: Seq<Seq<char>> = if !self.spec_adapter_available() {
            seq!["No Bluetooth adapter found"@]
        } else {
            Seq::empty()
        };
        let d: Seq<Seq<char>> = if !self.spec_adapter_powered() {
            seq!["Bluetooth adapter not powered on"@]
        } else {
            Seq::empty()
        };
        a + b + c + d
    }

    /// The guidance lines of a prerequisite report: one remediation per
    /// failing check, plus a hint when several adapters are listed.
    pub open spec fn spec_guidance(self) -> Seq<Seq<char>> {
        let a: Seq<Seq<char>> = if !self.spec_installed() {
            seq![
                "Install bluez: sudo pacman -S bluez bluez-utils (Arch) or sudo apt install bluez (Debian)"@,
            ]
        } else {
            Seq::empty()
        };
        let b: Seq<Seq<char>> = if !self.spec_service_running() {
            seq!["Start bluetooth: sudo systemctl enable --now bluetooth"@]
        } else {
            Seq::empty()
        };
        let c: Seq<Seq<char>> = if !self.spec_adapter_available() {
            seq!["Connect a USB Bluetooth adapter or enable built-in Bluetooth"@]
        } else {
            Seq::empty()
        };
        let d: Seq<Seq<char>> = if !self.spec_adapter_powered() {
            seq!["Power on adapter: bluetoothctl power on"@]
        } else {
            Seq::empty()
        };
        let e: Seq<Seq<char>> = if self.spec_adapter_available() && self.spec_adapter_count() > 1 {
            seq![
                "Multiple adapters detected ("@ + dec_spec(self.spec_adapter_count())
                    + "). USB BLE dongle preferred for better BLE support."@,
            ]
        } else {
            Seq::empty()
        };
        a + b + c + d + e
    }
}

/// Result of checking the host's Bluetooth stack.
#[derive(Debug, Clone)]
pub struct BlePrerequisites {
    pub bluetooth_installed: bool,
    pub bluetooth_service_running: bool,
    pub adapter_available: bool,
    pub adapter_powered: bool,
    pub issues: Vec<String>,
    pub guidance: Vec<String>,
}

impl BlePrerequisites {
    /// Whether every check passed.
    pub fn all_passed(&self) -> (r: bool)
        ensures
            r == (self.bluetooth_installed && self.bluetooth_service_running
                && self.adapter_available && self.adapter_powered),
    {
        self.bluetooth_installed && self.bluetooth_service_running && self.adapter_available
            && self.adapter_powered
    }
}

/// The view of a vector of strings as a sequence of character sequences.
pub open spec fn strings_view(v: Seq<String>) -> Seq<Seq<char>> {
    v.map_values(|s: String| s@)
}

/// Derive a prerequisite report from the host probe: which of the four
/// checks hold, and one issue plus one guidance line for each failure.
pub fn check_ble_prerequisites(probe: &HostProbe) -> (r: BlePrerequisites)
    ensures
        r.bluetooth_installed == probe.spec_installed(),
        r.bluetooth_service_running == probe.spec_service_running(),
        r.adapter_available == probe.spec_adapter_available(),
        r.adapter_powered == probe.spec_adapter_powered(),
        strings_view(r.issues@) == probe.spec_issues(),
        strings_view(r.guidance@) == probe.spec_guidance(),
{
    let installed = probe.bluetoothctl_found;

    let mut service_running = false;
    if let Some(out) = &probe.service_stdout {
        let trimmed = trim_chars(&chars_of(out.as_str()));
        let active = chars_of("active");
        if eq_chars(&trimmed, &active) {
            service_running = true;
        }
    }

    let mut adapter_available = false;
    let mut adapter_powered = false;
    let mut adapter_count: usize = 0;
    if let Some(out) = &probe.list_stdout {
        let listing = chars_of(out.as_str());
        let marker = chars_of("Controller");
        if contains_chars(&listing, &marker) {
            adapter_available = true;
            proof {
                reveal_strlit("Controller");
            }
            adapter_count = count_matches(&listing, &marker);
        }
    }
    if adapter_available {
        if let Some(show) = &probe.show_stdout {
            let status = chars_of(show.as_str());
            let powered = chars_of("Powered: yes");
            if contains_chars(&status, &powered) {
                adapter_powered = true;
            }
        }
    }

    let mut issues: Vec<String> = Vec::new();
    let mut guidance: Vec<String> = Vec::new();
    if !installed {
        issues.push(String::from_str("BlueZ not installed"));
        guidance.push(
            String::from_str(
                "Install bluez: sudo pacman -S bluez bluez-utils (Arch) or sudo apt install bluez (Debian)",
            ),
        );
    }
    if !service_running {
        issues.push(String::from_str("Bluetooth service not running"));
        guidance.push(String::from_str("Start bluetooth: sudo systemctl enable --now bluetooth"));
    }
    if !adapter_available {
        issues.push(String::from_str("No Bluetooth adapter found"));
        guidance.push(
            String::from_str("Connect a USB Bluetooth adapter or enable built-in Bluetooth"),
        );
    }
    if !adapter_powered {
        issues.push(String::from_str("Bluetooth adapter not powered on"));
        guidance.push(String::from_str("Power on adapter: bluetoothctl power on"));
    }
    if adapter_available && adapter_count > 1 {
        let mut line = String::from_str("Multiple adapters detected (");
        let count = u64_to_string(adapter_count as u64);
        line.append(count.as_str());
        line.append("). USB BLE dongle preferred for better BLE support.");
        guidance.push(line);
    }

    proof {
        assert(strings_view(issues@) =~= probe.spec_issues());
        assert(strings_view(guidance@) =~= probe.spec_guidance());
    }

    BlePrerequisites {
        bluetooth_installed: installed,
        bluetooth_service_running: service_running,
        adapter_available,
        adapter_powered,
        issues,
        guidance,
    }
}

/// Advertisement data observed for one peripheral during a scan.
#[derive(Debug, Clone)]
pub struct PeripheralProps {
    /// The advertised local name, if the peripheral sent one.
    pub local_name: Option<String>,
    /// The hardware address, possibly empty when unknown.
    pub address: String,
}

/// Ghost view of [`PeripheralProps`].
pub struct PeripheralPropsView {
    pub local_name: Option<Seq<char>>,
    pub address: Seq<char>,
}

impl View for PeripheralProps {
    type V = PeripheralPropsView;

    open spec fn view(&self) -> PeripheralPropsView {
        PeripheralPropsView {
            local_name: match self.local_name {
                Some(ref n) => Some(n@),
                None => None,
            },
            address: self.address@,
        }
    }
}

impl PeripheralPropsView {
    /// The name shown for the peripheral; a placeholder when it sent none.
    pub open spec fn display_name(self) -> Seq<char> {
        match self.local_name {
            Some(n) => n,
            None => "Unknown"@,
        }
    }

    /// A sighting with the placeholder name and no address is not a real
    /// device and is discarded outright.
    pub open spec fn is_discarded(self) -> bool {
        self.display_name() == "Unknown"@ && self.address.len() == 0
    }
}

impl PeripheralProps {
    /// The name shown for the peripheral; a placeholder when it sent none.
    pub fn display_name(&self) -> (r: String)
        ensures
            r@ == self@.display_name(),
    {
        match &self.local_name {
            Some(n) => n.clone(),
            None => String::from_str("Unknown"),
        }
    }
}

/// Whether a display name looks like a MIDI device: a case-insensitive
/// match against a fixed vocabulary of MIDI markers and vendor tokens.
pub open spec fn is_midi_name(name: Seq<char>) -> bool {
    let u = upper_seq(name);
    contains_seq(u, "MIDI"@) || contains_seq(u, "MD-BT"@) || contains_seq(u, "YAMAHA"@)
        || contains_seq(u, "ROLAND"@) || contains_seq(u, "KORG"@) || contains_seq(u, "CME"@)
        || contains_seq(u, "WIDI"@)
}

/// Executable counterpart of [`is_midi_name`].
pub fn classify_midi_name(name: &str) -> (r: bool)
    ensures
        r == is_midi_name(name@),
{
    let upper = upper_chars(&chars_of(name));
    contains_chars(&upper, &chars_of("MIDI")) || contains_chars(&upper, &chars_of("MD-BT"))
        || contains_chars(&upper, &chars_of("YAMAHA")) || contains_chars(&upper, &chars_of("ROLAND"))
        || contains_chars(&upper, &chars_of("KORG")) || contains_chars(&upper, &chars_of("CME"))
        || contains_chars(&upper, &chars_of("WIDI"))
}

/// The observed outcome of one connection attempt against a peripheral:
/// physical connect, service discovery, the characteristics found, and
/// the notification subscription.
#[derive(Debug, Clone)]
pub struct ConnectAttempt {
    /// Whether the physical connect succeeded.
    pub connected: bool,
    /// Whether service discovery succeeded afterwards.
    pub services_discovered: bool,
    /// The characteristic identifiers reported by discovery.
    pub characteristics: Vec<u128>,
    /// The subscription error, or `None` when subscribing succeeded.
    pub subscribe_error: Option<String>,
}

impl ConnectAttempt {
    /// Whether the attempt establishes a usable connection: connect and
    /// discovery succeeded and the MIDI characteristic is present.  A
    /// failed subscription is reported but does not fail the attempt.
    pub open spec fn establishes(self) -> bool {
        self.connected && self.services_discovered && self.characteristics@.contains(
            BLE_MIDI_CHAR_UUID)
    }
}

/// The error report pushed when establishment subscribes and fails: one
/// event on a failed subscription of an otherwise successful attempt.
pub open spec fn subscribe_events(a: ConnectAttempt) -> Seq<EventView> {
    if a.establishes() {
        match a.subscribe_error {
            Some(e) => seq![EventView::Error("Subscribe failed: "@ + e@)],
            None => Seq::empty(),
        }
    } else {
        Seq::empty()
    }
}

/// The four prerequisite report events of one scan pass, in order.
pub open spec fn prereq_check_events(p: HostProbe) -> Seq<EventView> {
    seq![
        EventView::PrerequisiteCheck(
            "BlueZ installed"@,
            p.spec_installed(),
            if p.spec_installed() {
                "OK"@
            } else {
                "Install: sudo pacman -S bluez bluez-utils"@
            },
        ),
        EventView::PrerequisiteCheck(
            "Bluetooth service"@,
            p.spec_service_running(),
            if p.spec_service_running() {
                "Running"@
            } else {
                "Run: sudo systemctl enable --now bluetooth"@
            },
        ),
        EventView::PrerequisiteCheck(
            "Bluetooth adapter"@,
            p.spec_adapter_available(),
            if p.spec_adapter_available() {
                "Found"@
            } else {
                "Connect USB Bluetooth adapter"@
            },
        ),
        EventView::PrerequisiteCheck(
            "Adapter powered"@,
            p.spec_adapter_powered(),
            if p.spec_adapter_powered() {
                "On"@
            } else {
                "Run: bluetoothctl power on"@
            },
        ),
    ]
}

/// One error event per issue line.
pub open spec fn error_events(msgs: Seq<Seq<char>>) -> Seq<EventView> {
    msgs.map_values(|m: Seq<char>| EventView::Error(m))
}

/// One error event per guidance line, under a remediation prefix.
pub open spec fn fix_events(msgs: Seq<Seq<char>>) -> Seq<EventView> {
    msgs.map_values(|m: Seq<char>| EventView::Error("Fix: "@ + m))
}

/// The views of a batch of sightings.
pub open spec fn props_views(seen: Seq<PeripheralProps>) -> Seq<PeripheralPropsView> {
    seen.map_values(|p: PeripheralProps| p@)
}

/// The discovery report of one sighting against the addresses already
/// reported this pass: a `DeviceDiscovered` event exactly when the name
/// looks like a MIDI device, the sighting is not discarded, and its
/// address has not been reported yet.
pub open spec fn emits_discovery(p: PeripheralPropsView, reported: Seq<Seq<char>>) -> bool {
    !p.is_discarded() && is_midi_name(p.display_name()) && !reported.contains(p.address)
}

/// The event a sighting contributes, if any.
pub open spec fn sighting_events(p: PeripheralPropsView, reported: Seq<Seq<char>>) -> Seq<
    EventView,
> {
    if emits_discovery(p, reported) {
        seq![EventView::DeviceDiscovered(p.address, p.display_name(), p.address)]
    } else {
        Seq::empty()
    }
}

/// Whether a sighting triggers an automatic connection attempt: a match
/// of the preference hint when one is set, else any MIDI-looking name.
pub open spec fn is_candidate(p: PeripheralPropsView, pref: Option<Seq<char>>) -> bool {
    !p.is_discarded() && match pref {
        Some(pr) => contains_seq(p.address, pr) || contains_seq(p.display_name(), pr),
        None => is_midi_name(p.display_name()),
    }
}

/// The discovery events of the sightings in `from..to`, in order, with
/// each reported address suppressing later duplicates.
pub open spec fn discovery_events(
    seen: Seq<PeripheralPropsView>,
    reported: Seq<Seq<char>>,
    from: int,
    to: int,
) -> Seq<EventView>
    decreases to - from,
{
    if from < to {
        if emits_discovery(seen[from], reported) {
            sighting_events(seen[from], reported) + discovery_events(
                seen,
                reported.push(seen[from].address),
                from + 1,
                to,
            )
        } else {
            discovery_events(seen, reported, from + 1, to)
        }
    } else {
        Seq::empty()
    }
}

/// The reported addresses after processing the sightings in `from..to`.
pub open spec fn reported_after(
    seen: Seq<PeripheralPropsView>,
    reported: Seq<Seq<char>>,
    from: int,
    to: int,
) -> Seq<Seq<char>>
    decreases to - from,
{
    if from < to {
        if emits_discovery(seen[from], reported) {
            reported_after(seen, reported.push(seen[from].address), from + 1, to)
        } else {
            reported_after(seen, reported, from + 1, to)
        }
    } else {
        reported
    }
}

/// Processing one more sighting appends its events against the reported
/// addresses accumulated so far, and extends those addresses in turn.
pub proof fn lemma_discovery_snoc(
    seen: Seq<PeripheralPropsView>,
    reported: Seq<Seq<char>>,
    from: int,
    to: int,
)
    requires
        from <= to,
    ensures
        discovery_events(seen, reported, from, to + 1) == discovery_events(
            seen,
            reported,
            from,
            to,
        ) + sighting_events(seen[to], reported_after(seen, reported, from, to)),
        reported_after(seen, reported, from, to + 1) == (
        if emits_discovery(seen[to], reported_after(seen, reported, from, to)) {
            reported_after(seen, reported, from, to).push(seen[to].address)
        } else {
            reported_after(seen, reported, from, to)
        }),
    decreases to - from,
{
    if from < to {
        if emits_discovery(seen[from], reported) {
            lemma_discovery_snoc(seen, reported.push(seen[from].address), from + 1, to);
            assert(sighting_events(seen[from], reported) + (discovery_events(
                seen,
                reported.push(seen[from].address),
                from + 1,
                to,
            ) + sighting_events(seen[to], reported_after(seen, reported, from, to)))
                =~= (sighting_events(seen[from], reported) + discovery_events(
                seen,
                reported.push(seen[from].address),
                from + 1,
                to,
            )) + sighting_events(seen[to], reported_after(seen, reported, from, to)));
        } else {
            lemma_discovery_snoc(seen, reported, from + 1, to);
        }
    } else {
        assert(discovery_events(seen, reported, from, to) == Seq::<EventView>::empty());
        assert(reported_after(seen, reported, from, to) == reported);
        if emits_discovery(seen[to], reported) {
            assert(discovery_events(seen, reported.push(seen[to].address), to + 1, to + 1)
                == Seq::<EventView>::empty());
            assert(reported_after(seen, reported.push(seen[to].address), to + 1, to + 1)
                == reported.push(seen[to].address));
            assert(discovery_events(seen, reported, from, to + 1) =~= Seq::<
                EventView,
            >::empty() + sighting_events(seen[to], reported));
        } else {
            assert(discovery_events(seen, reported, to + 1, to + 1) == Seq::<EventView>::empty());
            assert(reported_after(seen, reported, to + 1, to + 1) == reported);
            assert(discovery_events(seen, reported, from, to + 1) =~= Seq::<
                EventView,
            >::empty() + sighting_events(seen[to], reported));
        }
    }
}

/// The first sighting at or after `from` that warrants a connection
/// attempt.
pub open spec fn first_candidate(
    seen: Seq<PeripheralPropsView>,
    pref: Option<Seq<char>>,
    from: int,
) -> Option<int>
    decreases seen.len() - from,
{
    if from < 0 || from >= seen.len() {
        None
    } else if is_candidate(seen[from], pref) {
        Some(from)
    } else {
        first_candidate(seen, pref, from + 1)
    }
}

/// Whether an address is among those already reported this pass.
fn reported_contains(v: &Vec<String>, address: &str) -> (b: bool)
    ensures
        b == strings_view(v@).contains(address@),
{
    let mut i: usize = 0;
    while i < v.len()
        invariant
            i <= v@.len(),
            forall|j: int| 0 <= j < i ==> (#[trigger] v@[j])@ != address@,
        decreases v@.len() - i,
    {
        if str_eq(v[i].as_str(), address) {
            proof {
                assert(strings_view(v@)[i as int] == address@);
            }
            return true;
        }
        i += 1;
    }
    proof {
        assert forall|k: int|
            0 <= k < strings_view(v@).len() implies strings_view(v@)[k] != address@ by {
            assert(strings_view(v@)[k] == v@[k]@);
        }
    }
    false
}

/// Whether a vector of characteristic identifiers holds the given one.
fn contains_u128(v: &Vec<u128>, x: u128) -> (b: bool)
    ensures
        b == v@.contains(x),
{
    let mut i: usize = 0;
    while i < v.len()
        invariant
            i <= v@.len(),
            forall|j: int| 0 <= j < i ==> v@[j] != x,
        decreases v@.len() - i,
    {
        if v[i] == x {
            return true;
        }
        i += 1;
    }
    false
}

/// The backoff before a reconnection attempt, in seconds: 1, 2, 4, 8, 16.
pub fn backoff_secs(attempt: u32) -> (r: u64)
    requires
        1 <= attempt <= 5,
    ensures
        attempt == 1 ==> r == 1,
        attempt == 2 ==> r == 2,
        attempt == 3 ==> r == 4,
        attempt == 4 ==> r == 8,
        attempt == 5 ==> r == 16,
{
    let sh: u32 = attempt - 1;
    let r = 1u64 << sh;
    proof {
        assert((sh == 0 ==> 1u64 << sh == 1) && (sh == 1 ==> 1u64 << sh == 2) && (sh == 2
            ==> 1u64 << sh == 4) && (sh == 3 ==> 1u64 << sh == 8) && (sh == 4 ==> 1u64 << sh
            == 16)) by (bit_vector);
    }
    r
}

/// What the transport observes about the link just before a write: the
/// peripheral's own connectivity report and the characteristics it
/// currently exposes.
#[derive(Debug, Clone)]
pub struct LinkProbe {
    /// Whether the peripheral reports itself connected.
    pub connected: bool,
    /// The characteristic identifiers the peripheral exposes.
    pub characteristics: Vec<u128>,
}

/// A BLE-MIDI packet: the fixed two-byte timestamp header followed by the
/// raw MIDI bytes.
pub open spec fn ble_midi_packet(data: Seq<u8>) -> Seq<u8> {
    seq![0x80u8, 0x80u8] + data
}

/// Frame raw MIDI bytes as one BLE-MIDI packet, under the constant
/// minimal timestamp header.
pub fn encode_ble_midi_packet(data: &Vec<u8>) -> (p: Vec<u8>)
    ensures
        p@ == ble_midi_packet(data@),
{
    let mut p: Vec<u8> = Vec::new();
    p.push(0x80);
    p.push(0x80);
    let mut i: usize = 0;
    while i < data.len()
        invariant
            i <= data@.len(),
            p@ =~= seq![0x80u8, 0x80u8] + data@.subrange(0, i as int),
        decreases data@.len() - i,
    {
        p.push(data[i]);
        proof {
            assert(p@ =~= seq![0x80u8, 0x80u8] + data@.subrange(0, i + 1));
        }
        i += 1;
    }
    proof {
        assert(p@ =~= ble_midi_packet(data@));
    }
    p
}

/// The transport's transition on one send: how the manager's view and the
/// call's outcome follow from the remembered handle and the link probe.
pub open spec fn spec_send(pre: BackendView, data: Seq<u8>, link_connected: bool, has_char: bool) -> (
    BackendView,
    Result<Seq<u8>, Seq<char>>,
) {
    if pre.peripheral is None {
        (pre, Err("No peripheral connected"@))
    } else if !link_connected {
        (
            BackendView {
                state: BleConnectionState::Disconnected,
                events: pre.events + seq![
                    EventView::Disconnected,
                    EventView::StateChanged(BleConnectionState::Disconnected),
                ],
                ..pre
            },
            Err("Peripheral disconnected"@),
        )
    } else if !has_char {
        (pre, Err("MIDI characteristic not found"@))
    } else {
        (pre, Ok(ble_midi_packet(data)))
    }
}

/// The supervisor's step transition: while budget remains and recovery
/// is wanted, issue the next attempt number with its `Reconnecting`
/// transition; otherwise finish the run as a reported, terminal failure.
pub open spec fn spec_reconnect_next(v: BackendView) -> (BackendView, Option<u32>) {
    if v.reconnect_attempt < 5 && v.should_reconnect {
        let n = (v.reconnect_attempt + 1) as u32;
        (
            BackendView {
                state: BleConnectionState::Reconnecting(n),
                reconnect_attempt: n,
                events: v.events.push(EventView::StateChanged(BleConnectionState::Reconnecting(n))),
                ..v
            },
            Some(n),
        )
    } else {
        (
            BackendView {
                state: BleConnectionState::Disconnected,
                events: v.events + seq![
                    EventView::Disconnected,
                    EventView::StateChanged(BleConnectionState::Disconnected),
                    EventView::Error("Reconnection failed after 5 attempts"@),
                ],
                ..v
            },
            None,
        )
    }
}

/// The drain transition of the event channel: everything pending is
/// handed over and the queue is left empty.
pub open spec fn spec_poll(v: BackendView) -> (BackendView, Seq<EventView>) {
    (BackendView { events: Seq::empty(), ..v }, v.events)
}

/// The scan-start transition.  When any prerequisite fails, the four
/// check reports, the issues, and the prefixed guidance are emitted and
/// nothing else moves.  When all pass but no adapter was selected, the
/// state still reaches `Scanning` before the missing adapter is
/// reported.  Otherwise the pass begins: the preference hint is
/// snapshotted, the reported addresses are cleared, and the caller may
/// start the broadcast scan.
pub open spec fn spec_start_scan(v: BackendView, probe: HostProbe) -> (BackendView, bool) {
    if !probe.spec_all_passed() {
        (
            BackendView {
                events: v.events + prereq_check_events(probe) + error_events(probe.spec_issues())
                    + fix_events(probe.spec_guidance()),
                ..v
            },
            false,
        )
    } else if !v.has_adapter {
        (
            BackendView {
                state: BleConnectionState::Scanning,
                events: v.events + prereq_check_events(probe) + seq![
                    EventView::StateChanged(BleConnectionState::Scanning),
                    EventView::Error("No adapter available"@),
                ],
                ..v
            },
            false,
        )
    } else {
        (
            BackendView {
                state: BleConnectionState::Scanning,
                scan_preferred: v.preferred_device_address,
                reported: Seq::<Seq<char>>::empty(),
                events: v.events + prereq_check_events(probe) + seq![
                    EventView::StateChanged(BleConnectionState::Scanning),
                ],
                ..v
            },
            true,
        )
    }
}

/// The intentional-disconnect transition: recovery is disarmed, the
/// remembered handle and device name return to their initial empty
/// values, and the forced state change is emitted.
pub open spec fn spec_disconnect(v: BackendView) -> BackendView {
    BackendView {
        state: BleConnectionState::Disconnected,
        should_reconnect: false,
        peripheral: None,
        connected_device_name: None,
        events: v.events.push(EventView::StateChanged(BleConnectionState::Disconnected)),
        ..v
    }
}

/// Whether an executable send outcome carries the values its
/// specification-level counterpart prescribes.
pub open spec fn send_result_matches(r: Result<Vec<u8>, String>, s: Result<Seq<u8>, Seq<char>>) -> bool {
    match (r, s) {
        (Ok(p), Ok(q)) => p@ == q,
        (Err(m), Err(t)) => m@ == t,
        _ => false,
    }
}

/// Ghost view of [`BleMidiBackend`].
pub struct BackendView {
    pub state: BleConnectionState,
    pub events: Seq<EventView>,
    pub should_reconnect: bool,
    pub connected_device_name: Option<Seq<char>>,
    pub preferred_device_address: Option<Seq<char>>,
    pub scan_preferred: Option<Seq<char>>,
    pub reported: Seq<Seq<char>>,
    pub peripheral: Option<PeripheralPropsView>,
    pub reconnect_attempt: u32,
    pub has_adapter: bool,
    pub auto_scan_started: bool,
}

/// The connectivity manager's decision core.
///
/// It owns the connection state machine, the remembered peripheral, the
/// reconnect budget, and the pending event queue.  The driver around it
/// performs the radio I/O and reports outcomes through the step methods.
pub struct BleMidiBackend {
    state: BleConnectionState,
    events: Vec<BleEvent>,
    should_reconnect: bool,
    connected_device_name: Option<String>,
    preferred_device_address: Option<String>,
    scan_preferred: Option<String>,
    reported_addresses: Vec<String>,
    peripheral: Option<PeripheralProps>,
    reconnect_attempt: u32,
    has_adapter: bool,
    auto_scan_started: bool,
}

impl View for BleMidiBackend {
    type V = BackendView;

    closed spec fn view(&self) -> BackendView {
        BackendView {
            state: self.state,
            events: events_view(self.events@),
            should_reconnect: self.should_reconnect,
            connected_device_name: match self.connected_device_name {
                Some(ref n) => Some(n@),
                None => None,
            },
            preferred_device_address: match self.preferred_device_address {
                Some(ref a) => Some(a@),
                None => None,
            },
            scan_preferred: match self.scan_preferred {
                Some(ref a) => Some(a@),
                None => None,
            },
            reported: strings_view(self.reported_addresses@),
            peripheral: match self.peripheral {
                Some(ref p) => Some(p@),
                None => None,
            },
            reconnect_attempt: self.reconnect_attempt,
            has_adapter: self.has_adapter,
            auto_scan_started: self.auto_scan_started,
        }
    }
}

impl BackendView {
    /// The freshly constructed manager: disconnected, queue empty,
    /// recovery armed.
    pub open spec fn initial(self, has_adapter: bool, should_reconnect: bool) -> bool {
        &&& self.state == BleConnectionState::Disconnected
        &&& self.events == Seq::<EventView>::empty()
        &&& self.should_reconnect == should_reconnect
        &&& self.connected_device_name is None
        &&& self.preferred_device_address is None
        &&& self.scan_preferred is None
        &&& self.reported == Seq::<Seq<char>>::empty()
        &&& self.peripheral is None
        &&& self.reconnect_attempt == 0
        &&& self.has_adapter == has_adapter
        &&& !self.auto_scan_started
    }

    /// Everything but the event queue and the state, unchanged.
    pub open spec fn same_but_state_events(self, other: BackendView) -> bool {
        &&& self.should_reconnect == other.should_reconnect
        &&& self.connected_device_name == other.connected_device_name
        &&& self.preferred_device_address == other.preferred_device_address
        &&& self.scan_preferred == other.scan_preferred
        &&& self.reported == other.reported
        &&& self.peripheral == other.peripheral
        &&& self.reconnect_attempt == other.reconnect_attempt
        &&& self.has_adapter == other.has_adapter
        &&& self.auto_scan_started == other.auto_scan_started
    }
}

/// The view of a freshly built manager that never touches a radio:
/// disconnected, queue empty, recovery disarmed.
pub open spec fn inert_view() -> BackendView {
    BackendView {
        state: BleConnectionState::Disconnected,
        events: Seq::empty(),
        should_reconnect: false,
        connected_device_name: None,
        preferred_device_address: None,
        scan_preferred: None,
        reported: Seq::empty(),
        peripheral: None,
        reconnect_attempt: 0,
        has_adapter: false,
        auto_scan_started: false,
    }
}

/// The marker that identifies the preferred USB radio in an adapter's
/// identity string.
pub open spec fn is_preferred_adapter(info: Seq<char>) -> bool {
    contains_seq(info, "60:F8:1D"@) || contains_seq(info, "hci1"@)
}

/// The adapter the manager picks from the enumerated radios: the first
/// whose identity marks it as the USB dongle, else the first listed.
pub open spec fn spec_selected_adapter(infos: Seq<Seq<char>>) -> Option<int> {
    if exists|i: int| 0 <= i < infos.len() && is_preferred_adapter(infos[i]) {
        Some(choose|i: int|
            0 <= i < infos.len() && is_preferred_adapter(infos[i]) && forall|j: int|
                0 <= j < i ==> !is_preferred_adapter(infos[j]))
    } else if infos.len() > 0 {
        Some(0)
    } else {
        None
    }
}

/// Pick an adapter: the first whose identity string marks the USB dongle,
/// else the first enumerated one.
pub fn select_adapter(infos: &Vec<String>) -> (r: Option<usize>)
    ensures
        r is None <==> infos@.len() == 0,
        match r {
            Some(i) => {
                &&& i < infos@.len()
                &&& (is_preferred_adapter(infos@[i as int]@) || (i == 0 && forall|j: int|
                    0 <= j < infos@.len() ==> !is_preferred_adapter(#[trigger] infos@[j]@)))
                &&& forall|j: int| 0 <= j < i ==> !is_preferred_adapter(#[trigger] infos@[j]@)
            },
            None => true,
        },
{
    let usb = chars_of("60:F8:1D");
    let internal = chars_of("hci1");
    let mut i: usize = 0;
    while i < infos.len()
        invariant
            usb@ == "60:F8:1D"@,
            internal@ == "hci1"@,
            i <= infos@.len(),
            forall|j: int| 0 <= j < i ==> !is_preferred_adapter(#[trigger] infos@[j]@),
        decreases infos@.len() - i,
    {
        let info = chars_of(infos[i].as_str());
        if contains_chars(&info, &usb) || contains_chars(&info, &internal) {
            return Some(i);
        }
        i += 1;
    }
    if infos.len() > 0 {
        Some(0)
    } else {
        None
    }
}

impl BleMidiBackend {
    /// Construct the manager and select an adapter from the enumerated
    /// radios' identity strings.  With no radio at all, construction
    /// fails, but never silently: the failure comes back as an inert
    /// manager with the missing-adapter error already queued for the
    /// foreground loop to drain, beside the failed state itself.
    pub fn new(adapter_infos: &Vec<String>) -> (r: Result<(BleMidiBackend, usize), BleMidiBackend>)
        ensures
            match r {
                Ok((b, i)) => {
                    &&& adapter_infos@.len() > 0
                    &&& b@.initial(true, true)
                    &&& i < adapter_infos@.len()
                },
                Err(b) => {
                    &&& adapter_infos@.len() == 0
                    &&& b@ == (BackendView {
                        events: seq![EventView::Error("No Bluetooth adapter found"@)],
                        ..inert_view()
                    })
                },
            },
    {
        match select_adapter(adapter_infos) {
            Some(i) => {
                let b = BleMidiBackend {
                    state: BleConnectionState::Disconnected,
                    events: Vec::new(),
                    should_reconnect: true,
                    connected_device_name: None,
                    preferred_device_address: None,
                    scan_preferred: None,
                    reported_addresses: Vec::new(),
                    peripheral: None,
                    reconnect_attempt: 0,
                    has_adapter: true,
                    auto_scan_started: false,
                };
                proof {
                    assert(b@.events =~= Seq::<EventView>::empty());
                    assert(b@.reported =~= Seq::<Seq<char>>::empty());
                }
                Ok((b, i))
            },
            None => {
                let mut b = Self::new_dummy();
                b.events.push(BleEvent::Error(String::from_str("No Bluetooth adapter found")));
                proof {
                    assert(b@.events =~= seq![EventView::Error("No Bluetooth adapter found"@)]);
                    assert(b@.reported =~= Seq::<Seq<char>>::empty());
                    assert(b@ == (BackendView {
                        events: seq![EventView::Error("No Bluetooth adapter found"@)],
                        ..inert_view()
                    }));
                }
                Err(b)
            },
        }
    }

    /// A manager that never touches a radio, for hosts without usable
    /// Bluetooth: permanently disconnected, with recovery disarmed.
    pub fn new_dummy() -> (b: BleMidiBackend)
        ensures
            b@.initial(false, false),
            b@ == inert_view(),
    {
        let b = BleMidiBackend {
            state: BleConnectionState::Disconnected,
            events: Vec::new(),
            should_reconnect: false,
            connected_device_name: None,
            preferred_device_address: None,
            scan_preferred: None,
            reported_addresses: Vec::new(),
            peripheral: None,
            reconnect_attempt: 0,
            has_adapter: false,
            auto_scan_started: false,
        };
        proof {
            assert(b@.events =~= Seq::<EventView>::empty());
            assert(b@.reported =~= Seq::<Seq<char>>::empty());
            assert(b@ == inert_view());
        }
        b
    }

    /// Update the scan-match hint.  A scan already in progress keeps the
    /// snapshot it took when it started.
    pub fn set_preferred_device(&mut self, address: Option<String>)
        ensures
            final(self)@ == (BackendView {
                preferred_device_address: match address {
                    Some(a) => Some(a@),
                    None => None,
                },
                ..old(self)@
            }),
    {
        self.preferred_device_address = address;
    }

    /// Run the prerequisite checks for this manager.
    pub fn check_prerequisites(&self, probe: &HostProbe) -> (r: BlePrerequisites)
        ensures
            r.bluetooth_installed == probe.spec_installed(),
            r.bluetooth_service_running == probe.spec_service_running(),
            r.adapter_available == probe.spec_adapter_available(),
            r.adapter_powered == probe.spec_adapter_powered(),
            strings_view(r.issues@) == probe.spec_issues(),
            strings_view(r.guidance@) == probe.spec_guidance(),
    {
        check_ble_prerequisites(probe)
    }

    /// The current connection phase; an instantaneous snapshot read.
    pub fn get_state(&self) -> (r: BleConnectionState)
        ensures
            r == self@.state,
    {
        self.state
    }

    /// Whether the manager currently holds an established connection.
    pub fn is_connected(&self) -> (r: bool)
        ensures
            r == (self@.state == BleConnectionState::Connected),
    {
        self.state == BleConnectionState::Connected
    }

    /// The display name of the connected device, if any.
    pub fn get_connected_device_name(&self) -> (r: Option<String>)
        ensures
            match r {
                Some(n) => self@.connected_device_name == Some(n@),
                None => self@.connected_device_name is None,
            },
    {
        match &self.connected_device_name {
            Some(n) => Some(n.clone()),
            None => None,
        }
    }

    /// Whether a peripheral handle is remembered from an earlier attempt.
    pub fn has_peripheral(&self) -> (r: bool)
        ensures
            r == (self@.peripheral is Some),
    {
        self.peripheral.is_some()
    }

    /// Drain the event queue: everything queued since the last call, in
    /// emission order.  Each event is delivered exactly once, so a second
    /// drain with no intervening activity returns nothing.
    pub fn poll_events(&mut self) -> (r: Vec<BleEvent>)
        ensures
            events_view(r@) == old(self)@.events,
            final(self)@ == (BackendView { events: Seq::<EventView>::empty(), ..old(self)@ }),
            (final(self)@, events_view(r@)) == spec_poll(old(self)@),
    {
        let mut drained: Vec<BleEvent> = Vec::new();
        core::mem::swap(&mut drained, &mut self.events);
        proof {
            assert(events_view(Seq::<BleEvent>::empty()) =~= Seq::<EventView>::empty());
        }
        drained
    }

    /// Begin a scan pass.  The four prerequisite checks are run and
    /// reported first; when any fails, their issues and guidance are
    /// emitted as errors and the radio is never touched.  Otherwise the
    /// state moves to `Scanning`, the preference hint is snapshotted for
    /// this pass, and the caller may start the broadcast scan; `true`
    /// says so.
    #[verifier::rlimit(100)]
    pub fn start_scan(&mut self, probe: &HostProbe) -> (proceed: bool)
        ensures
            (final(self)@, proceed) == spec_start_scan(old(self)@, *probe),
    {
        let prereqs = check_ble_prerequisites(probe);

        self.events.push(
            BleEvent::PrerequisiteCheck(
                String::from_str("BlueZ installed"),
                prereqs.bluetooth_installed,
                if prereqs.bluetooth_installed {
                    String::from_str("OK")
                } else {
                    String::from_str("Install: sudo pacman -S bluez bluez-utils")
                },
            ),
        );
        self.events.push(
            BleEvent::PrerequisiteCheck(
                String::from_str("Bluetooth service"),
                prereqs.bluetooth_service_running,
                if prereqs.bluetooth_service_running {
                    String::from_str("Running")
                } else {
                    String::from_str("Run: sudo systemctl enable --now bluetooth")
                },
            ),
        );
        self.events.push(
            BleEvent::PrerequisiteCheck(
                String::from_str("Bluetooth adapter"),
                prereqs.adapter_available,
                if prereqs.adapter_available {
                    String::from_str("Found")
                } else {
                    String::from_str("Connect USB Bluetooth adapter")
                },
            ),
        );
        self.events.push(
            BleEvent::PrerequisiteCheck(
                String::from_str("Adapter powered"),
                prereqs.adapter_powered,
                if prereqs.adapter_powered {
                    String::from_str("On")
                } else {
                    String::from_str("Run: bluetoothctl power on")
                },
            ),
        );
        proof {
            assert(events_view(self.events@) =~= old(self)@.events + prereq_check_events(*probe));
        }

        if !prereqs.all_passed() {
            let ghost mid = events_view(self.events@);
            let mut i: usize = 0;
            while i < prereqs.issues.len()
                invariant
                    self@.same_but_state_events(old(self)@),
                    self@.state == old(self)@.state,
                    i <= prereqs.issues@.len(),
                    strings_view(prereqs.issues@) == probe.spec_issues(),
                    events_view(self.events@) =~= mid + error_events(
                        probe.spec_issues().subrange(0, i as int),
                    ),
                decreases prereqs.issues@.len() - i,
            {
                self.events.push(BleEvent::Error(prereqs.issues[i].clone()));
                proof {
                    assert(events_view(self.events@) =~= mid + error_events(
                        probe.spec_issues().subrange(0, i + 1),
                    ));
                }
                i += 1;
            }
            proof {
                assert(probe.spec_issues().subrange(0, probe.spec_issues().len() as int)
                    =~= probe.spec_issues());
            }
            let ghost mid2 = events_view(self.events@);
            let mut j: usize = 0;
            while j < prereqs.guidance.len()
                invariant
                    self@.same_but_state_events(old(self)@),
                    self@.state == old(self)@.state,
                    j <= prereqs.guidance@.len(),
                    strings_view(prereqs.guidance@) == probe.spec_guidance(),
                    events_view(self.events@) =~= mid2 + fix_events(
                        probe.spec_guidance().subrange(0, j as int),
                    ),
                decreases prereqs.guidance@.len() - j,
            {
                let mut line = String::from_str("Fix: ");
                line.append(prereqs.guidance[j].as_str());
                self.events.push(BleEvent::Error(line));
                proof {
                    assert(events_view(self.events@) =~= mid2 + fix_events(
                        probe.spec_guidance().subrange(0, j + 1),
                    ));
                }
                j += 1;
            }
            proof {
                assert(probe.spec_guidance().subrange(0, probe.spec_guidance().len() as int)
                    =~= probe.spec_guidance());
                assert(events_view(self.events@) =~= old(self)@.events + prereq_check_events(*probe)
                    + error_events(probe.spec_issues()) + fix_events(probe.spec_guidance()));
            }
            return false;
        }

        self.state = BleConnectionState::Scanning;
        self.events.push(BleEvent::StateChanged(BleConnectionState::Scanning));
        if !self.has_adapter {
            self.events.push(BleEvent::Error(String::from_str("No adapter available")));
            proof {
                assert(events_view(self.events@) =~= old(self)@.events + prereq_check_events(*probe)
                    + seq![
                    EventView::StateChanged(BleConnectionState::Scanning),
                    EventView::Error("No adapter available"@),
                ]);
            }
            return false;
        }
        self.scan_preferred = match &self.preferred_device_address {
            Some(a) => Some(a.clone()),
            None => None,
        };
        self.reported_addresses = Vec::new();
        proof {
            assert(strings_view(self.reported_addresses@) =~= Seq::<Seq<char>>::empty());
        }
        proof {
            assert(events_view(self.events@) =~= old(self)@.events + prereq_check_events(*probe)
                + seq![EventView::StateChanged(BleConnectionState::Scanning)]);
        }
        true
    }

    /// The guarded scan entry the application ticks: the pass runs only
    /// when no automatic scan was started yet, and starting one flips
    /// the flag whatever the prerequisites said, so one session never
    /// races two scan tasks.  `None` means an automatic scan had already
    /// been started, and nothing happened.
    pub fn auto_start_scan(&mut self, probe: &HostProbe) -> (r: Option<bool>)
        ensures
            old(self)@.auto_scan_started ==> r is None && final(self)@ == old(self)@,
            !old(self)@.auto_scan_started ==> ({
                let (post, proceed) = spec_start_scan(old(self)@, *probe);
                r == Some(proceed) && final(self)@ == (BackendView {
                    auto_scan_started: true,
                    ..post
                })
            }),
    {
        if self.auto_scan_started {
            return None;
        }
        let proceed = self.start_scan(probe);
        self.auto_scan_started = true;
        Some(proceed)
    }

    /// Discard the current session and search again: an intentional
    /// disconnect, then a fresh scan pass, leaving the automatic-scan
    /// flag set.
    pub fn force_rescan(&mut self, probe: &HostProbe) -> (proceed: bool)
        ensures
            ({
                let (post, p) = spec_start_scan(spec_disconnect(old(self)@), *probe);
                proceed == p && final(self)@ == (BackendView { auto_scan_started: true, ..post })
            }),
    {
        self.disconnect();
        let proceed = self.start_scan(probe);
        self.auto_scan_started = true;
        proceed
    }

    /// Record that the broadcast scan could not be started; the pass ends
    /// with an error event and the state is left as it stands.
    pub fn scan_start_failed(&mut self, error: &str)
        ensures
            final(self)@ == (BackendView {
                events: old(self)@.events.push(EventView::Error("Scan failed: "@ + error@)),
                ..old(self)@
            }),
    {
        let mut line = String::from_str("Scan failed: ");
        line.append(error);
        self.events.push(BleEvent::Error(line));
        proof {
            assert(events_view(self.events@) =~= old(self)@.events.push(
                EventView::Error("Scan failed: "@ + error@),
            ));
        }
    }

    /// Process one batch of sightings from position `start` on: report
    /// each MIDI-looking peripheral whose address has not been reported
    /// this pass, and stop at the first sighting that warrants a
    /// connection attempt, moving the state to `Connecting`.  The result
    /// names that sighting, or is `None` when the batch holds no further
    /// candidate.
    pub fn scan_poll(&mut self, seen: &Vec<PeripheralProps>, start: usize) -> (r: Option<usize>)
        ensures
            match first_candidate(props_views(seen@), old(self)@.scan_preferred, start as int) {
                Some(c) => {
                    &&& r == Some(c as usize)
                    &&& final(self)@ == (BackendView {
                        state: BleConnectionState::Connecting,
                        events: old(self)@.events + discovery_events(
                            props_views(seen@),
                            old(self)@.reported,
                            start as int,
                            c + 1,
                        ) + seq![EventView::StateChanged(BleConnectionState::Connecting)],
                        reported: reported_after(
                            props_views(seen@),
                            old(self)@.reported,
                            start as int,
                            c + 1,
                        ),
                        ..old(self)@
                    })
                },
                None => {
                    &&& r is None
                    &&& final(self)@ == (BackendView {
                        events: old(self)@.events + discovery_events(
                            props_views(seen@),
                            old(self)@.reported,
                            start as int,
                            seen@.len() as int,
                        ),
                        reported: reported_after(
                            props_views(seen@),
                            old(self)@.reported,
                            start as int,
                            seen@.len() as int,
                        ),
                        ..old(self)@
                    })
                },
            },
    {
        let ghost views = props_views(seen@);
        let ghost pref = old(self)@.scan_preferred;
        let ghost rep0 = old(self)@.reported;
        let mut i: usize = start;
        if start > seen.len() {
            proof {
                assert(first_candidate(views, pref, start as int) is None);
                assert(discovery_events(views, rep0, start as int, seen@.len() as int)
                    =~= Seq::<EventView>::empty());
                assert(reported_after(views, rep0, start as int, seen@.len() as int) == rep0);
                assert(events_view(self.events@) =~= old(self)@.events + discovery_events(
                    views,
                    rep0,
                    start as int,
                    seen@.len() as int,
                ));
            }
            return None;
        }
        while i < seen.len()
            invariant
                start <= i <= seen@.len(),
                views == props_views(seen@),
                pref == old(self)@.scan_preferred,
                rep0 == old(self)@.reported,
                first_candidate(views, pref, start as int) == first_candidate(
                    views,
                    pref,
                    i as int,
                ),
                self.state == old(self).state,
                events_view(self.events@) =~= old(self)@.events + discovery_events(
                    views,
                    rep0,
                    start as int,
                    i as int,
                ),
                self@.reported =~= reported_after(views, rep0, start as int, i as int),
                self@.should_reconnect == old(self)@.should_reconnect,
                self@.connected_device_name == old(self)@.connected_device_name,
                self@.preferred_device_address == old(self)@.preferred_device_address,
                self@.scan_preferred == old(self)@.scan_preferred,
                self@.peripheral == old(self)@.peripheral,
                self@.reconnect_attempt == old(self)@.reconnect_attempt,
                self@.has_adapter == old(self)@.has_adapter,
                self@.auto_scan_started == old(self)@.auto_scan_started,
            decreases seen@.len() - i,
        {
            let p = &seen[i];
            let name = p.display_name();
            let discarded = {
                let unknown = chars_of("Unknown");
                let name_chars = chars_of(name.as_str());
                eq_chars(&name_chars, &unknown) && p.address.as_str().unicode_len() == 0
            };
            proof {
                lemma_discovery_snoc(views, rep0, start as int, i as int);
            }
            if !discarded {
                let is_midi = classify_midi_name(name.as_str());
                let already = reported_contains(&self.reported_addresses, p.address.as_str());
                if is_midi && !already {
                    self.events.push(
                        BleEvent::DeviceDiscovered(
                            BleDeviceInfo {
                                id: p.address.clone(),
                                name: name.clone(),
                                address: p.address.clone(),
                            },
                        ),
                    );
                    let ghost reppre = strings_view(self.reported_addresses@);
                    self.reported_addresses.push(p.address.clone());
                    proof {
                        assert(emits_discovery(views[i as int], reported_after(
                            views,
                            rep0,
                            start as int,
                            i as int,
                        )));
                        assert(strings_view(self.reported_addresses@) =~= reppre.push(
                            views[i as int].address,
                        ));
                        assert(events_view(self.events@) =~= old(self)@.events
                            + discovery_events(views, rep0, start as int, i + 1));
                        assert(self@.reported =~= reported_after(
                            views,
                            rep0,
                            start as int,
                            i + 1,
                        ));
                    }
                } else {
                    proof {
                        assert(!emits_discovery(views[i as int], reported_after(
                            views,
                            rep0,
                            start as int,
                            i as int,
                        )));
                        assert(events_view(self.events@) =~= old(self)@.events
                            + discovery_events(views, rep0, start as int, i + 1));
                        assert(self@.reported =~= reported_after(
                            views,
                            rep0,
                            start as int,
                            i + 1,
                        ));
                    }
                }
                let should_connect = match &self.scan_preferred {
                    Some(pr) => {
                        let addr_chars = chars_of(p.address.as_str());
                        let name_chars = chars_of(name.as_str());
                        let pref_chars = chars_of(pr.as_str());
                        contains_chars(&addr_chars, &pref_chars) || contains_chars(
                            &name_chars,
                            &pref_chars,
                        )
                    },
                    None => is_midi,
                };
                if should_connect {
                    self.state = BleConnectionState::Connecting;
                    self.events.push(BleEvent::StateChanged(BleConnectionState::Connecting));
                    proof {
                        assert(is_candidate(views[i as int], pref));
                        assert(first_candidate(views, pref, i as int) == Some(i as int));
                        assert(events_view(self.events@) =~= old(self)@.events
                            + discovery_events(views, rep0, start as int, i + 1) + seq![
                            EventView::StateChanged(BleConnectionState::Connecting),
                        ]);
                    }
                    return Some(i);
                }
            } else {
                proof {
                    assert(!emits_discovery(views[i as int], reported_after(
                        views,
                        rep0,
                        start as int,
                        i as int,
                    )));
                    assert(events_view(self.events@) =~= old(self)@.events + discovery_events(
                        views,
                        rep0,
                        start as int,
                        i + 1,
                    ));
                    assert(self@.reported =~= reported_after(views, rep0, start as int, i + 1));
                }
            }
            proof {
                assert(!is_candidate(views[i as int], pref));
            }
            i += 1;
        }
        None
    }

    /// One full connection attempt against a sighted peripheral: when the
    /// observed outcome establishes the link, remember the handle, record
    /// the device name, move to `Connected`, and emit the connection
    /// events.  A failed subscription is reported but tolerated; a missing
    /// MIDI characteristic fails the whole attempt and changes nothing.
    pub fn try_establish(&mut self, props: &PeripheralProps, attempt: &ConnectAttempt) -> (ok:
        bool)
        ensures
            ok == attempt.establishes(),
            ok ==> final(self)@ == (BackendView {
                state: BleConnectionState::Connected,
                peripheral: Some(props@),
                connected_device_name: Some(props@.display_name()),
                events: old(self)@.events + subscribe_events(*attempt) + seq![
                    EventView::Connected(props@.display_name()),
                    EventView::StateChanged(BleConnectionState::Connected),
                ],
                ..old(self)@
            }),
            !ok ==> final(self)@ == old(self)@,
    {
        if !self.establish(attempt) {
            return false;
        }
        let name = props.display_name();
        self.peripheral = Some(
            PeripheralProps {
                local_name: match &props.local_name {
                    Some(n) => Some(n.clone()),
                    None => None,
                },
                address: props.address.clone(),
            },
        );
        self.connected_device_name = Some(name.clone());
        self.state = BleConnectionState::Connected;
        self.events.push(BleEvent::Connected(name));
        self.events.push(BleEvent::StateChanged(BleConnectionState::Connected));
        proof {
            assert(events_view(self.events@) =~= old(self)@.events + subscribe_events(*attempt)
                + seq![
                EventView::Connected(props@.display_name()),
                EventView::StateChanged(BleConnectionState::Connected),
            ]);
        }
        true
    }

    /// A direct reconnection attempt against the remembered peripheral.
    /// Success moves back to `Connected` and announces the remembered
    /// device name; failure changes nothing and the supervisor falls back
    /// to a fresh scan.
    pub fn reconnect_establish_known(&mut self, attempt: &ConnectAttempt) -> (ok: bool)
        requires
            old(self)@.peripheral is Some,
        ensures
            ok == attempt.establishes(),
            ok ==> final(self)@ == (BackendView {
                state: BleConnectionState::Connected,
                events: old(self)@.events + subscribe_events(*attempt) + (match old(
                    self,
                )@.connected_device_name {
                    Some(n) => seq![EventView::Connected(n)],
                    None => Seq::<EventView>::empty(),
                }) + seq![EventView::StateChanged(BleConnectionState::Connected)],
                ..old(self)@
            }),
            !ok ==> final(self)@ == old(self)@,
    {
        if !self.establish(attempt) {
            return false;
        }
        self.state = BleConnectionState::Connected;
        match &self.connected_device_name {
            Some(n) => {
                let announced = n.clone();
                self.events.push(BleEvent::Connected(announced));
            },
            None => {},
        }
        self.events.push(BleEvent::StateChanged(BleConnectionState::Connected));
        proof {
            assert(events_view(self.events@) =~= old(self)@.events + subscribe_events(*attempt)
                + (match old(self)@.connected_device_name {
                Some(n) => seq![EventView::Connected(n)],
                None => Seq::<EventView>::empty(),
            }) + seq![EventView::StateChanged(BleConnectionState::Connected)]);
        }
        true
    }

    /// The shared establishment step: check the attempt outcome and report
    /// a failed subscription.  Nothing else is touched.
    fn establish(&mut self, attempt: &ConnectAttempt) -> (ok: bool)
        ensures
            ok == attempt.establishes(),
            ok ==> final(self)@ == (BackendView {
                events: old(self)@.events + subscribe_events(*attempt),
                ..old(self)@
            }),
            !ok ==> final(self)@ == old(self)@,
    {
        if !attempt.connected {
            return false;
        }
        if !attempt.services_discovered {
            return false;
        }
        if !contains_u128(&attempt.characteristics, BLE_MIDI_CHAR_UUID) {
            return false;
        }
        match &attempt.subscribe_error {
            Some(e) => {
                let mut line = String::from_str("Subscribe failed: ");
                line.append(e.as_str());
                self.events.push(BleEvent::Error(line));
                proof {
                    assert(events_view(self.events@) =~= old(self)@.events + subscribe_events(
                        *attempt,
                    ));
                }
            },
            None => {
                proof {
                    assert(events_view(self.events@) =~= old(self)@.events + subscribe_events(
                        *attempt,
                    ));
                }
            },
        }
        true
    }

    /// Close a scan window that expired without a connection: anything but
    /// an established link reverts to `Disconnected` with the transition
    /// emitted.
    pub fn end_scan_window(&mut self)
        ensures
            old(self)@.state == BleConnectionState::Connected ==> final(self)@ == old(self)@,
            old(self)@.state != BleConnectionState::Connected ==> final(self)@ == (BackendView {
                state: BleConnectionState::Disconnected,
                events: old(self)@.events.push(
                    EventView::StateChanged(BleConnectionState::Disconnected),
                ),
                ..old(self)@
            }),
    {
        if !(self.state == BleConnectionState::Connected) {
            self.state = BleConnectionState::Disconnected;
            self.events.push(BleEvent::StateChanged(BleConnectionState::Disconnected));
            proof {
                assert(events_view(self.events@) =~= old(self)@.events.push(
                    EventView::StateChanged(BleConnectionState::Disconnected),
                ));
            }
        }
    }

    /// Arm one supervisor run.  Recovery runs only while the flag set by
    /// an unexpected disconnect is still in place; an intentional
    /// `disconnect` clears it, so the run is refused.
    pub fn start_reconnect(&mut self) -> (run: bool)
        ensures
            run == old(self)@.should_reconnect,
            run ==> final(self)@ == (BackendView { reconnect_attempt: 0, ..old(self)@ }),
            !run ==> final(self)@ == old(self)@,
    {
        if !self.should_reconnect {
            return false;
        }
        self.reconnect_attempt = 0;
        true
    }

    /// Step the reconnection supervisor.  While budget remains and
    /// recovery is still wanted, the next attempt number is issued with
    /// its `Reconnecting` transition and the caller sleeps the backoff
    /// before attempting.  Otherwise the run terminates: the state falls
    /// to `Disconnected` and the exhaustion of the budget is reported.
    pub fn reconnect_next(&mut self) -> (r: Option<u32>)
        ensures
            (final(self)@, r) == spec_reconnect_next(old(self)@),
            old(self)@.reconnect_attempt < 5 && old(self)@.should_reconnect ==> {
                &&& r == Some((old(self)@.reconnect_attempt + 1) as u32)
                &&& final(self)@ == (BackendView {
                    state: BleConnectionState::Reconnecting(
                        (old(self)@.reconnect_attempt + 1) as u32,
                    ),
                    reconnect_attempt: (old(self)@.reconnect_attempt + 1) as u32,
                    events: old(self)@.events.push(
                        EventView::StateChanged(
                            BleConnectionState::Reconnecting(
                                (old(self)@.reconnect_attempt + 1) as u32,
                            ),
                        ),
                    ),
                    ..old(self)@
                })
            },
            !(old(self)@.reconnect_attempt < 5 && old(self)@.should_reconnect) ==> {
                &&& r is None
                &&& final(self)@ == (BackendView {
                    state: BleConnectionState::Disconnected,
                    events: old(self)@.events + seq![
                        EventView::Disconnected,
                        EventView::StateChanged(BleConnectionState::Disconnected),
                        EventView::Error("Reconnection failed after 5 attempts"@),
                    ],
                    ..old(self)@
                })
            },
    {
        if self.reconnect_attempt < 5 && self.should_reconnect {
            let n = self.reconnect_attempt + 1;
            self.reconnect_attempt = n;
            self.state = BleConnectionState::Reconnecting(n);
            self.events.push(BleEvent::StateChanged(BleConnectionState::Reconnecting(n)));
            proof {
                assert(events_view(self.events@) =~= old(self)@.events.push(
                    EventView::StateChanged(BleConnectionState::Reconnecting(n)),
                ));
            }
            Some(n)
        } else {
            self.state = BleConnectionState::Disconnected;
            self.events.push(BleEvent::Disconnected);
            self.events.push(BleEvent::StateChanged(BleConnectionState::Disconnected));
            self.events.push(
                BleEvent::Error(String::from_str("Reconnection failed after 5 attempts")),
            );
            proof {
                assert(events_view(self.events@) =~= old(self)@.events + seq![
                    EventView::Disconnected,
                    EventView::StateChanged(BleConnectionState::Disconnected),
                    EventView::Error("Reconnection failed after 5 attempts"@),
                ]);
            }
            None
        }
    }

    /// Frame raw MIDI bytes and decide one send over the probed link.
    /// With no remembered peripheral the call fails outright; a peripheral
    /// that no longer reports itself connected flips the state machine to
    /// `Disconnected`, emits the transition, and fails the call without
    /// starting any recovery; a missing MIDI characteristic fails the
    /// call.  Otherwise the framed packet to write is returned.
    pub fn send_midi(&mut self, data: &Vec<u8>, link: &LinkProbe) -> (r: Result<Vec<u8>, String>)
        ensures
            ({
                let (post, res) = spec_send(
                    old(self)@,
                    data@,
                    link.connected,
                    link.characteristics@.contains(BLE_MIDI_CHAR_UUID),
                );
                final(self)@ == post && send_result_matches(r, res)
            }),
    {
        if self.peripheral.is_none() {
            return Err(String::from_str("No peripheral connected"));
        }
        if !link.connected {
            self.state = BleConnectionState::Disconnected;
            self.events.push(BleEvent::Disconnected);
            self.events.push(BleEvent::StateChanged(BleConnectionState::Disconnected));
            proof {
                assert(events_view(self.events@) =~= old(self)@.events + seq![
                    EventView::Disconnected,
                    EventView::StateChanged(BleConnectionState::Disconnected),
                ]);
            }
            return Err(String::from_str("Peripheral disconnected"));
        }
        if !contains_u128(&link.characteristics, BLE_MIDI_CHAR_UUID) {
            return Err(String::from_str("MIDI characteristic not found"));
        }
        Ok(encode_ble_midi_packet(data))
    }

    /// Decide a note-on.  When no connection is established this is a
    /// successful no-op; otherwise the note-on message for channel one is
    /// framed and sent as [`BleMidiBackend::send_midi`] describes.
    pub fn play_note(&mut self, note: u8, velocity: u8, link: &LinkProbe) -> (r: Result<
        Option<Vec<u8>>,
        String,
    >)
        ensures
            old(self)@.state != BleConnectionState::Connected ==> (r matches Ok(p) && p is None)
                && final(self)@ == old(self)@,
            old(self)@.state == BleConnectionState::Connected ==> ({
                let (post, res) = spec_send(
                    old(self)@,
                    seq![0x90u8, note, velocity],
                    link.connected,
                    link.characteristics@.contains(BLE_MIDI_CHAR_UUID),
                );
                final(self)@ == post && match r {
                    Ok(p) => (p matches Some(bytes) && res matches Ok(q) && bytes@ == q),
                    Err(m) => (res matches Err(t) && m@ == t),
                }
            }),
    {
        if !self.is_connected() {
            return Ok(None);
        }
        let data = vec![0x90u8, note, velocity];
        proof {
            assert(data@ =~= seq![0x90u8, note, velocity]);
        }
        match self.send_midi(&data, link) {
            Ok(p) => Ok(Some(p)),
            Err(e) => Err(e),
        }
    }

    /// Decide a note-off; a successful no-op without a connection.
    pub fn stop_note(&mut self, note: u8, link: &LinkProbe) -> (r: Result<Option<Vec<u8>>, String>)
        ensures
            old(self)@.state != BleConnectionState::Connected ==> (r matches Ok(p) && p is None)
                && final(self)@ == old(self)@,
            old(self)@.state == BleConnectionState::Connected ==> ({
                let (post, res) = spec_send(
                    old(self)@,
                    seq![0x80u8, note, 0u8],
                    link.connected,
                    link.characteristics@.contains(BLE_MIDI_CHAR_UUID),
                );
                final(self)@ == post && match r {
                    Ok(p) => (p matches Some(bytes) && res matches Ok(q) && bytes@ == q),
                    Err(m) => (res matches Err(t) && m@ == t),
                }
            }),
    {
        if !self.is_connected() {
            return Ok(None);
        }
        let data = vec![0x80u8, note, 0u8];
        proof {
            assert(data@ =~= seq![0x80u8, note, 0u8]);
        }
        match self.send_midi(&data, link) {
            Ok(p) => Ok(Some(p)),
            Err(e) => Err(e),
        }
    }

    /// Decide an all-notes-off on channel one; a successful no-op without
    /// a connection.
    pub fn stop_all(&mut self, link: &LinkProbe) -> (r: Result<Option<Vec<u8>>, String>)
        ensures
            old(self)@.state != BleConnectionState::Connected ==> (r matches Ok(p) && p is None)
                && final(self)@ == old(self)@,
            old(self)@.state == BleConnectionState::Connected ==> ({
                let (post, res) = spec_send(
                    old(self)@,
                    seq![0xB0u8, 123u8, 0u8],
                    link.connected,
                    link.characteristics@.contains(BLE_MIDI_CHAR_UUID),
                );
                final(self)@ == post && match r {
                    Ok(p) => (p matches Some(bytes) && res matches Ok(q) && bytes@ == q),
                    Err(m) => (res matches Err(t) && m@ == t),
                }
            }),
    {
        if !self.is_connected() {
            return Ok(None);
        }
        let data = vec![0xB0u8, 123u8, 0u8];
        proof {
            assert(data@ =~= seq![0xB0u8, 123u8, 0u8]);
        }
        match self.send_midi(&data, link) {
            Ok(p) => Ok(Some(p)),
            Err(e) => Err(e),
        }
    }

    /// Decide a chord: one note-on per note, in order.  Without a
    /// connection, or with no notes, this is a successful no-op; the first
    /// failing send ends the call with its error.
    pub fn play_chord(&mut self, notes: &Vec<u8>, velocity: u8, link: &LinkProbe) -> (r: Result<
        Vec<Vec<u8>>,
        String,
    >)
        ensures
            old(self)@.state != BleConnectionState::Connected || notes@.len() == 0 ==> (
            r matches Ok(ps) && ps@.len() == 0) && final(self)@ == old(self)@,
            old(self)@.state == BleConnectionState::Connected && notes@.len() > 0 ==> ({
                let (post, res) = spec_send(
                    old(self)@,
                    seq![0x90u8, notes@[0], velocity],
                    link.connected,
                    link.characteristics@.contains(BLE_MIDI_CHAR_UUID),
                );
                final(self)@ == post && match r {
                    Ok(ps) => res is Ok && ps@.len() == notes@.len() && forall|k: int|
                        0 <= k < notes@.len() ==> #[trigger] ps@[k]@ == ble_midi_packet(
                            seq![0x90u8, notes@[k], velocity],
                        ),
                    Err(m) => (res matches Err(t) && m@ == t),
                }
            }),
    {
        let mut out: Vec<Vec<u8>> = Vec::new();
        if !self.is_connected() || notes.len() == 0 {
            return Ok(out);
        }
        let mut i: usize = 0;
        while i < notes.len()
            invariant
                0 < notes@.len(),
                i <= notes@.len(),
                self@ == old(self)@,
                self@.state == BleConnectionState::Connected,
                i > 0 ==> (self@.peripheral is Some && link.connected
                    && link.characteristics@.contains(BLE_MIDI_CHAR_UUID)),
                out@.len() == i,
                forall|k: int|
                    0 <= k < i ==> #[trigger] out@[k]@ == ble_midi_packet(
                        seq![0x90u8, notes@[k], velocity],
                    ),
            decreases notes@.len() - i,
        {
            match self.play_note(notes[i], velocity, link) {
                Ok(p) => {
                    match p {
                        Some(bytes) => {
                            out.push(bytes);
                        },
                        None => {
                            proof {
                                assert(false);
                            }
                        },
                    }
                },
                Err(e) => {
                    return Err(e);
                },
            }
            i += 1;
        }
        Ok(out)
    }

    /// Clear the recovery flag, drop the remembered handle and device
    /// name back to their initial empty values, and force the state
    /// machine to `Disconnected`, emitting the transition.  The caller
    /// performs the best-effort physical disconnect.
    pub fn disconnect(&mut self)
        ensures
            final(self)@ == spec_disconnect(old(self)@),
            final(self)@.state == BleConnectionState::Disconnected,
            final(self)@.peripheral is None,
            final(self)@.connected_device_name is None,
    {
        self.should_reconnect = false;
        self.peripheral = None;
        self.connected_device_name = None;
        self.state = BleConnectionState::Disconnected;
        self.events.push(BleEvent::StateChanged(BleConnectionState::Disconnected));
        proof {
            assert(events_view(self.events@) =~= old(self)@.events.push(
                EventView::StateChanged(BleConnectionState::Disconnected),
            ));
        }
    }
}

/// The manager's view after `k` issued reconnection attempts that all
/// failed to re-establish the link (a failed attempt changes nothing, so
/// only the supervisor's own steps advance the view).
pub open spec fn failed_reconnect_run(v: BackendView, k: int) -> BackendView
    decreases k,
{
    if k <= 0 {
        v
    } else {
        spec_reconnect_next(failed_reconnect_run(v, k - 1)).0
    }
}

/// Through a failed run the attempt counter counts the issued attempts
/// and the recovery flag stays armed.
proof fn lemma_failed_run_attempt(v: BackendView, k: int)
    requires
        v.reconnect_attempt == 0,
        v.should_reconnect,
        0 <= k <= 5,
    ensures
        failed_reconnect_run(v, k).reconnect_attempt == k,
        failed_reconnect_run(v, k).should_reconnect,
    decreases k,
{
    if k > 0 {
        lemma_failed_run_attempt(v, k - 1);
    }
}

/// Law: within one supervisor run the attempt numbers strictly increase
/// from one to five — the `j`-th step issues attempt number `j` — and the
/// state reported at that step is `Reconnecting(j)`, with exactly that
/// transition appended to the event stream.
pub proof fn lemma_reconnect_attempts_increase(v: BackendView, j: int)
    requires
        v.reconnect_attempt == 0,
        v.should_reconnect,
        1 <= j <= 5,
    ensures
        spec_reconnect_next(failed_reconnect_run(v, j - 1)).1 == Some(j as u32),
        failed_reconnect_run(v, j).state == BleConnectionState::Reconnecting(j as u32),
        failed_reconnect_run(v, j).events == failed_reconnect_run(v, j - 1).events.push(
            EventView::StateChanged(BleConnectionState::Reconnecting(j as u32)),
        ),
{
    lemma_failed_run_attempt(v, j - 1);
}

/// Law: when the fifth attempt has failed the run terminates for the
/// session: the next step issues nothing, the state falls to
/// `Disconnected`, and an error naming the exhaustion is in the events.
pub proof fn lemma_reconnect_exhaustion(v: BackendView)
    requires
        v.reconnect_attempt == 0,
        v.should_reconnect,
    ensures
        spec_reconnect_next(failed_reconnect_run(v, 5)).1 is None,
        spec_reconnect_next(failed_reconnect_run(v, 5)).0.state == BleConnectionState::Disconnected,
        spec_reconnect_next(failed_reconnect_run(v, 5)).0.events.contains(
            EventView::Error("Reconnection failed after 5 attempts"@),
        ),
{
    lemma_failed_run_attempt(v, 5);
    let run = failed_reconnect_run(v, 5);
    let after = spec_reconnect_next(run).0;
    let tail = seq![
        EventView::Disconnected,
        EventView::StateChanged(BleConnectionState::Disconnected),
        EventView::Error("Reconnection failed after 5 attempts"@),
    ];
    assert(after.events == run.events + tail);
    assert(after.events[run.events.len() as int + 2] == EventView::Error(
        "Reconnection failed after 5 attempts"@,
    ));
}

/// Law: draining the event channel empties it, so a second drain with no
/// intervening activity hands back the empty sequence.
pub proof fn lemma_poll_twice(v: BackendView)
    ensures
        spec_poll(v).1 == v.events,
        spec_poll(spec_poll(v).0).1 == Seq::<EventView>::empty(),
{
}

/// Law: an attempt whose characteristic list lacks the fixed MIDI
/// characteristic never establishes a connection, so by the contract of
/// [`BleMidiBackend::try_establish`] the state never reaches `Connected`
/// through it.
pub proof fn lemma_missing_characteristic_never_connects(a: ConnectAttempt)
    requires
        !a.characteristics@.contains(BLE_MIDI_CHAR_UUID),
    ensures
        !a.establishes(),
{
}

/// The address a discovery event names.
pub open spec fn discovery_address(e: EventView) -> Seq<char> {
    match e {
        EventView::DeviceDiscovered(a, _, _) => a,
        _ => Seq::empty(),
    }
}

/// Law: during a scan pass a `DeviceDiscovered` event is reported for a
/// sighting exactly when its name matches the MIDI heuristic, the
/// sighting is a real device, and its address has not been reported
/// before — and each address is reported at most once: every event in
/// the range belongs to such a sighting, every such sighting's address
/// is reported, no reported address repeats, and none was already
/// reported when the range began.
pub proof fn lemma_discovered_iff(
    seen: Seq<PeripheralPropsView>,
    rep: Seq<Seq<char>>,
    from: int,
    to: int,
)
    requires
        0 <= from <= to <= seen.len(),
    ensures
        forall|e: EventView|
            #[trigger] discovery_events(seen, rep, from, to).contains(e) ==> exists|i: int|
                from <= i < to && !seen[i].is_discarded() && is_midi_name(seen[i].display_name())
                    && !rep.contains(seen[i].address) && e == EventView::DeviceDiscovered(
                    seen[i].address,
                    seen[i].display_name(),
                    seen[i].address,
                ),
        forall|i: int|
            from <= i < to && !(#[trigger] seen[i].is_discarded()) && is_midi_name(
                seen[i].display_name(),
            ) && !rep.contains(seen[i].address) ==> exists|k: int|
                0 <= k < discovery_events(seen, rep, from, to).len() && discovery_address(
                    discovery_events(seen, rep, from, to)[k],
                ) == seen[i].address,
        forall|k: int|
            0 <= k < discovery_events(seen, rep, from, to).len() ==> !rep.contains(
                discovery_address(#[trigger] discovery_events(seen, rep, from, to)[k]),
            ),
        forall|k1: int, k2: int|
            0 <= k1 < k2 < discovery_events(seen, rep, from, to).len() ==> discovery_address(
                #[trigger] discovery_events(seen, rep, from, to)[k1],
            ) != discovery_address(#[trigger] discovery_events(seen, rep, from, to)[k2]),
    decreases to - from,
{
    if from < to {
        let all = discovery_events(seen, rep, from, to);
        if emits_discovery(seen[from], rep) {
            let head = sighting_events(seen[from], rep);
            let rep1 = rep.push(seen[from].address);
            let rest = discovery_events(seen, rep1, from + 1, to);
            lemma_discovered_iff(seen, rep1, from + 1, to);
            assert(all == head + rest);
            assert(all[0] == EventView::DeviceDiscovered(
                seen[from].address,
                seen[from].display_name(),
                seen[from].address,
            ));
            assert forall|e: EventView| #[trigger] all.contains(e) implies exists|i: int|
                from <= i < to && !seen[i].is_discarded() && is_midi_name(seen[i].display_name())
                    && !rep.contains(seen[i].address) && e == EventView::DeviceDiscovered(
                    seen[i].address,
                    seen[i].display_name(),
                    seen[i].address,
                ) by {
                let k = choose|k: int| 0 <= k < all.len() && all[k] == e;
                if k == 0 {
                    assert(!seen[from].is_discarded() && is_midi_name(seen[from].display_name())
                        && !rep.contains(seen[from].address));
                } else {
                    assert(rest[k - 1] == e);
                    assert(rest.contains(e));
                    let i0 = choose|i0: int|
                        from + 1 <= i0 < to && !seen[i0].is_discarded() && is_midi_name(
                            seen[i0].display_name(),
                        ) && !rep1.contains(seen[i0].address) && e == EventView::DeviceDiscovered(
                            seen[i0].address,
                            seen[i0].display_name(),
                            seen[i0].address,
                        );
                    assert(!rep.contains(seen[i0].address));
                }
            }
            assert forall|i: int|
                from <= i < to && !(#[trigger] seen[i].is_discarded()) && is_midi_name(
                    seen[i].display_name(),
                ) && !rep.contains(seen[i].address) implies exists|k: int|
                0 <= k < all.len() && discovery_address(all[k]) == seen[i].address by {
                if seen[i].address == seen[from].address {
                    assert(discovery_address(all[0]) == seen[i].address);
                } else {
                    assert(!rep1.contains(seen[i].address));
                    assert(i != from);
                    let k0 = choose|k0: int|
                        0 <= k0 < rest.len() && discovery_address(rest[k0]) == seen[i].address;
                    assert(all[k0 + 1] == rest[k0]);
                    assert(discovery_address(all[k0 + 1]) == seen[i].address);
                }
            }
            assert forall|k: int| 0 <= k < all.len() implies !rep.contains(
                discovery_address(#[trigger] all[k]),
            ) by {
                if k > 0 {
                    assert(all[k] == rest[k - 1]);
                    assert(!rep1.contains(discovery_address(rest[k - 1])));
                }
            }
            assert forall|k1: int, k2: int| 0 <= k1 < k2 < all.len() implies discovery_address(
                #[trigger] all[k1],
            ) != discovery_address(#[trigger] all[k2]) by {
                if k1 == 0 {
                    assert(all[k2] == rest[k2 - 1]);
                    assert(!rep1.contains(discovery_address(rest[k2 - 1])));
                    assert(discovery_address(all[0]) == seen[from].address);
                } else {
                    assert(all[k1] == rest[k1 - 1] && all[k2] == rest[k2 - 1]);
                }
            }
        } else {
            lemma_discovered_iff(seen, rep, from + 1, to);
            assert(all == discovery_events(seen, rep, from + 1, to));
            assert forall|i: int|
                from <= i < to && !(#[trigger] seen[i].is_discarded()) && is_midi_name(
                    seen[i].display_name(),
                ) && !rep.contains(seen[i].address) implies exists|k: int|
                0 <= k < all.len() && discovery_address(all[k]) == seen[i].address by {
                assert(i != from);
            }
        }
    }
}

} // verus!
