//! The audio manager's shared configuration and connectivity snapshot.

use vstd::prelude::*;
use vstd::string::*;

use crate::ble_midi::{BleConnectionState, BleEvent};
use crate::text::str_eq;

verus! {

/// Which playback backend is active.
#[derive(Debug, Clone, Copy, PartialEq, Eq, Structural)]
pub enum ActiveBackend {
    Midi,
    Synth,
    BleMidi,
}

impl ActiveBackend {
    /// The next backend in the cycle.
    pub fn next(self) -> (r: Self)
        ensures
            r == match self {
                ActiveBackend::Midi => ActiveBackend::Synth,
                ActiveBackend::Synth => ActiveBackend::BleMidi,
                ActiveBackend::BleMidi => ActiveBackend::Midi,
            },
    {
        match self {
            ActiveBackend::Midi => ActiveBackend::Synth,
            ActiveBackend::Synth => ActiveBackend::BleMidi,
            ActiveBackend::BleMidi => ActiveBackend::Midi,
        }
    }

    /// The display name of the backend.
    pub fn display_name(&self) -> (r: &'static str)
        ensures
            self == ActiveBackend::Midi ==> r@ == "MIDI"@,
            self == ActiveBackend::Synth ==> r@ == "Synth"@,
            self == ActiveBackend::BleMidi ==> r@ == "BLE MIDI"@,
    {
        match self {
            ActiveBackend::Midi => "MIDI",
            ActiveBackend::Synth => "Synth",
            ActiveBackend::BleMidi => "BLE MIDI",
        }
    }
}

/// A wireless device remembered from an earlier association.
#[derive(Debug, Clone)]
pub struct KnownDevice {
    pub address: String,
    pub name: String,
    pub last_connected: u64,
}

/// Persisted audio preferences.
#[derive(Debug, Clone, Default)]
pub struct AudioConfig {
    /// Devices associated before, most recently connected last updated.
    pub known_ble_devices: Vec<KnownDevice>,
    /// The address hint used when scanning.
    pub preferred_ble_device: Option<String>,
    /// The backend active when the application last ran.
    pub last_backend: Option<ActiveBackend>,
}

/// The index of the first known device with the given address.
pub open spec fn spec_find_device(s: Seq<KnownDevice>, address: Seq<char>, i: int) -> Option<int>
    decreases s.len() - i,
{
    if i < 0 || i >= s.len() {
        None
    } else if s[i].address@ == address {
        Some(i)
    } else {
        spec_find_device(s, address, i + 1)
    }
}

impl AudioConfig {
    /// Remember a device that was just associated, stamped with the given
    /// time, and make it the preferred device for future scans.  An
    /// already-known address has its name and stamp refreshed.
    pub fn add_known_device(&mut self, address: String, name: String, now_secs: u64)
        ensures
            final(self).preferred_ble_device matches Some(p) && p@ == address@,
            final(self).last_backend == old(self).last_backend,
            match spec_find_device(old(self).known_ble_devices@, address@, 0) {
                Some(i) => {
                    &&& final(self).known_ble_devices@.len() == old(
                        self,
                    ).known_ble_devices@.len()
                    &&& forall|j: int|
                        0 <= j < final(self).known_ble_devices@.len() && j != i
                            ==> #[trigger] final(self).known_ble_devices@[j] == old(
                            self,
                        ).known_ble_devices@[j]
                    &&& final(self).known_ble_devices@[i].address == old(
                        self,
                    ).known_ble_devices@[i].address
                    &&& final(self).known_ble_devices@[i].name@ == name@
                    &&& final(self).known_ble_devices@[i].last_connected == now_secs
                },
                None => {
                    &&& final(self).known_ble_devices@.len() == old(
                        self,
                    ).known_ble_devices@.len() + 1
                    &&& forall|j: int|
                        0 <= j < old(self).known_ble_devices@.len()
                            ==> #[trigger] final(self).known_ble_devices@[j] == old(
                            self,
                        ).known_ble_devices@[j]
                    &&& final(self).known_ble_devices@.last().address@ == address@
                    &&& final(self).known_ble_devices@.last().name@ == name@
                    &&& final(self).known_ble_devices@.last().last_connected == now_secs
                },
            },
    {
        let found = self.find_device(address.as_str());
        match found {
            Some(i) => {
                let ghost pre = self.known_ble_devices@;
                let mut device = self.known_ble_devices.remove(i);
                device.name = name;
                device.last_connected = now_secs;
                self.known_ble_devices.insert(i, device);
                proof {
                    assert(forall|j: int|
                        0 <= j < pre.len() && j != i ==> #[trigger] self.known_ble_devices@[j]
                            == pre[j]);
                }
            },
            None => {
                self.known_ble_devices.push(
                    KnownDevice { address: address.clone(), name, last_connected: now_secs },
                );
            },
        }
        self.preferred_ble_device = Some(address);
    }

    /// The position of a known device by address.
    fn find_device(&self, address: &str) -> (r: Option<usize>)
        ensures
            match r {
                Some(i) => Some(i as int) == spec_find_device(
                    self.known_ble_devices@,
                    address@,
                    0,
                ) && i < self.known_ble_devices@.len(),
                None => spec_find_device(self.known_ble_devices@, address@, 0) is None,
            },
    {
        let mut i: usize = 0;
        while i < self.known_ble_devices.len()
            invariant
                i <= self.known_ble_devices@.len(),
                spec_find_device(self.known_ble_devices@, address@, 0) == spec_find_device(
                    self.known_ble_devices@,
                    address@,
                    i as int,
                ),
            decreases self.known_ble_devices@.len() - i,
        {
            if str_eq(self.known_ble_devices[i].address.as_str(), address) {
                return Some(i);
            }
            i += 1;
        }
        None
    }
}

/// One prerequisite check as shown to the user.
#[derive(Debug, Clone)]
pub struct PrerequisiteStatus {
    pub name: String,
    pub passed: bool,
    pub message: String,
}

/// The foreground loop's snapshot of the connectivity manager.
#[derive(Debug, Clone)]
pub struct BleStatus {
    /// The last seen connection phase.
    pub state: BleConnectionState,
    /// The connected device's name, once one connected.
    pub device_name: Option<String>,
    /// The most recent error, cleared on a successful connection.
    pub last_error: Option<String>,
    /// The prerequisite checks last reported.
    pub prerequisites: Vec<PrerequisiteStatus>,
}

impl Default for BleStatus {
    /// The initial snapshot: disconnected, with nothing reported yet.
    fn default() -> (r: Self)
        ensures
            r.state == BleConnectionState::Disconnected,
            r.device_name is None,
            r.last_error is None,
            r.prerequisites@.len() == 0,
    {
        BleStatus {
            state: BleConnectionState::Disconnected,
            device_name: None,
            last_error: None,
            prerequisites: Vec::new(),
        }
    }
}

/// What the caller must do after a snapshot absorbed one event.
#[derive(Debug, Clone)]
pub enum StatusAction {
    /// Nothing beyond the snapshot update.
    Nothing,
    /// Begin the reconnection supervisor: the link was lost unexpectedly.
    StartReconnect,
    /// Persist the device (address, then name) among the known devices.
    RememberDevice(String, String),
}

/// The index of the first reported check with the given name.
pub open spec fn spec_find_check(s: Seq<PrerequisiteStatus>, name: Seq<char>, i: int) -> Option<int>
    decreases s.len() - i,
{
    if i < 0 || i >= s.len() {
        None
    } else if s[i].name@ == name {
        Some(i)
    } else {
        spec_find_check(s, name, i + 1)
    }
}

impl BleStatus {
    /// Apply one drained connectivity event to this snapshot, and say
    /// what follow-up the event demands: an unexpected loss of an
    /// established link starts recovery, and a discovery made while
    /// connected is remembered in the configuration.
    pub fn apply_event(&mut self, event: BleEvent) -> (action: StatusAction)
        ensures
            match event {
                BleEvent::StateChanged(s) => {
                    &&& final(self).state == s
                    &&& final(self).device_name == old(self).device_name
                    &&& final(self).last_error == old(self).last_error
                    &&& final(self).prerequisites == old(self).prerequisites
                    &&& action is Nothing
                },
                BleEvent::Connected(n) => {
                    &&& final(self).state == old(self).state
                    &&& final(self).device_name matches Some(d) && d@ == n@
                    &&& final(self).last_error is None
                    &&& final(self).prerequisites@.len() == 0
                    &&& action is Nothing
                },
                BleEvent::DeviceDiscovered(d) => {
                    &&& *final(self) == *old(self)
                    &&& (old(self).state == BleConnectionState::Connected ==> (action
                        matches StatusAction::RememberDevice(a, n) && a@ == d.address@ && n@
                        == d.name@))
                    &&& (old(self).state != BleConnectionState::Connected ==> action is Nothing)
                },
                BleEvent::Disconnected => {
                    &&& *final(self) == *old(self)
                    &&& (old(self).state == BleConnectionState::Connected ==> action
                        is StartReconnect)
                    &&& (old(self).state != BleConnectionState::Connected ==> action is Nothing)
                },
                BleEvent::Error(m) => {
                    &&& final(self).state == old(self).state
                    &&& final(self).device_name == old(self).device_name
                    &&& final(self).last_error matches Some(e) && e@ == m@
                    &&& final(self).prerequisites == old(self).prerequisites
                    &&& action is Nothing
                },
                BleEvent::PrerequisiteCheck(n, p, g) => {
                    &&& final(self).state == old(self).state
                    &&& final(self).device_name == old(self).device_name
                    &&& final(self).last_error == old(self).last_error
                    &&& action is Nothing
                    &&& match spec_find_check(old(self).prerequisites@, n@, 0) {
                        Some(i) => {
                            &&& final(self).prerequisites@.len() == old(
                                self,
                            ).prerequisites@.len()
                            &&& forall|j: int|
                                0 <= j < final(self).prerequisites@.len() && j != i
                                    ==> #[trigger] final(self).prerequisites@[j] == old(
                                    self,
                                ).prerequisites@[j]
                            &&& final(self).prerequisites@[i].name == old(
                                self,
                            ).prerequisites@[i].name
                            &&& final(self).prerequisites@[i].passed == p
                            &&& final(self).prerequisites@[i].message@ == g@
                        },
                        None => {
                            &&& final(self).prerequisites@.len() == old(
                                self,
                            ).prerequisites@.len() + 1
                            &&& forall|j: int|
                                0 <= j < old(self).prerequisites@.len()
                                    ==> #[trigger] final(self).prerequisites@[j] == old(
                                    self,
                                ).prerequisites@[j]
                            &&& final(self).prerequisites@.last().name@ == n@
                            &&& final(self).prerequisites@.last().passed == p
                            &&& final(self).prerequisites@.last().message@ == g@
                        },
                    }
                },
            },
    {
        match event {
            BleEvent::StateChanged(s) => {
                self.state = s;
                StatusAction::Nothing
            },
            BleEvent::Connected(n) => {
                self.device_name = Some(n);
                self.last_error = None;
                self.prerequisites = Vec::new();
                StatusAction::Nothing
            },
            BleEvent::DeviceDiscovered(d) => {
                if self.state == BleConnectionState::Connected {
                    StatusAction::RememberDevice(d.address, d.name)
                } else {
                    StatusAction::Nothing
                }
            },
            BleEvent::Disconnected => {
                if self.state == BleConnectionState::Connected {
                    StatusAction::StartReconnect
                } else {
                    StatusAction::Nothing
                }
            },
            BleEvent::Error(m) => {
                self.last_error = Some(m);
                StatusAction::Nothing
            },
            BleEvent::PrerequisiteCheck(n, p, g) => {
                let found = self.find_check(n.as_str());
                match found {
                    Some(i) => {
                        let ghost pre = self.prerequisites@;
                        let mut check = self.prerequisites.remove(i);
                        check.passed = p;
                        check.message = g;
                        self.prerequisites.insert(i, check);
                        proof {
                            assert(forall|j: int|
                                0 <= j < pre.len() && j != i
                                    ==> #[trigger] self.prerequisites@[j] == pre[j]);
                        }
                    },
                    None => {
                        self.prerequisites.push(
                            PrerequisiteStatus { name: n, passed: p, message: g },
                        );
                    },
                }
                StatusAction::Nothing
            },
        }
    }

    /// The position of a reported check by name.
    fn find_check(&self, name: &str) -> (r: Option<usize>)
        ensures
            match r {
                Some(i) => Some(i as int) == spec_find_check(self.prerequisites@, name@, 0) && i
                    < self.prerequisites@.len(),
                None => spec_find_check(self.prerequisites@, name@, 0) is None,
            },
    {
        let mut i: usize = 0;
        while i < self.prerequisites.len()
            invariant
                i <= self.prerequisites@.len(),
                spec_find_check(self.prerequisites@, name@, 0) == spec_find_check(
                    self.prerequisites@,
                    name@,
                    i as int,
                ),
            decreases self.prerequisites@.len() - i,
        {
            if str_eq(self.prerequisites[i].name.as_str(), name) {
                return Some(i);
            }
            i += 1;
        }
        None
    }
}

} // verus!
