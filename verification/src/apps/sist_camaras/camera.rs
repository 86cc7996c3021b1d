//! A camera: where it stands, how far it sees, which cameras border on it
//! and which incidents it is attending.

use vstd::prelude::*;
use vstd::bytes::{
    lemma_auto_spec_u64_to_from_le_bytes,
    spec_u64_from_le_bytes,
    spec_u64_to_le_bytes,
    u64_from_le_bytes,
    u64_to_le_bytes,
};

use vstd::set_lib::{lemma_int_range, lemma_len_subset, set_int_range};
use crate::apps::incident_data::incident_info::{IncidentInfo, IncidentSource};
use crate::apps::lengths::{spec_within, within};
use crate::mqtt::mqtt_error::MqttError;
use crate::mqtt::mqtt_utils::utils::{copy_range, push_bytes};

verus! {

/// The bytes of a serialized camera in front of its incidents.
pub const CAMERA_PREAMBLE_LEN: usize = 28;

/// The number of incidents that can be told apart.
pub const MAX_INCIDENTS: usize = 512;

/// What a camera is doing.
#[derive(Debug, Clone, Copy, PartialEq, Eq, Structural)]
pub enum CameraState {
    /// Attending at least one incident.
    Active,
    /// Attending none.
    SavingMode,
}

impl CameraState {
    /// The state as its byte.
    pub open spec fn spec_to_byte(self) -> u8 {
        match self {
            CameraState::Active => 1,
            CameraState::SavingMode => 2,
        }
    }

    /// The state of a camera that attends `count` incidents.
    pub open spec fn spec_derived(count: nat) -> CameraState {
        if count == 0 {
            CameraState::SavingMode
        } else {
            CameraState::Active
        }
    }
}

/// What a camera holds. Latitude, longitude and range are the bit patterns
/// of IEEE 754 doubles; a range is never negative, so that ranges and
/// distances are ordered as their bit patterns are.
pub struct CameraView {
    pub id: u8,
    pub latitude: u64,
    pub longitude: u64,
    pub range: u64,
    pub border_cameras: Seq<u8>,
    pub incidents: Seq<IncidentInfo>,
}

/// Incidents as they travel: identifier and source of each, in order.
pub open spec fn spec_incidents_to_bytes(incidents: Seq<IncidentInfo>) -> Seq<u8> {
    Seq::new(
        2 * incidents.len(),
        |i: int|
            if i % 2 == 0 {
                incidents[i / 2].inc_id
            } else {
                incidents[i / 2].src.spec_to_byte()
            },
    )
}

impl CameraView {
    /// No incident is held twice.
    pub open spec fn wf(self) -> bool {
        self.incidents.no_duplicates()
    }

    /// What the camera is doing: active exactly when it attends an
    /// incident.
    pub open spec fn spec_state(self) -> CameraState {
        CameraState::spec_derived(self.incidents.len())
    }

    /// The camera with one more incident to attend, if it was not
    /// attending it already.
    pub open spec fn spec_append(self, info: IncidentInfo) -> CameraView {
        if self.incidents.contains(info) {
            self
        } else {
            CameraView { incidents: self.incidents.push(info), ..self }
        }
    }

    /// The camera without an incident, if it was attending it.
    pub open spec fn spec_remove(self, info: IncidentInfo) -> CameraView {
        if self.incidents.contains(info) {
            CameraView {
                incidents: self.incidents.remove(self.incidents.index_of(info)),
                ..self
            }
        } else {
            self
        }
    }

    /// The camera as it travels: identifier; latitude, longitude and range
    /// in little-endian order; state; the number of incidents on two bytes
    /// in little-endian order; the incidents.
    pub open spec fn spec_to_bytes(self) -> Seq<u8> {
        seq![self.id] + spec_u64_to_le_bytes(self.latitude) + spec_u64_to_le_bytes(self.longitude)
            + spec_u64_to_le_bytes(self.range) + seq![
            self.spec_state().spec_to_byte(),
            (self.incidents.len() % 256) as u8,
            (self.incidents.len() / 256) as u8,
        ] + spec_incidents_to_bytes(self.incidents)
    }
}

/// The source of the incident at place `i` of a serialized camera, if its
/// byte names one.
pub open spec fn spec_source_at(bytes: Seq<u8>, i: int) -> Option<IncidentSource> {
    IncidentSource::spec_from_byte(bytes[CAMERA_PREAMBLE_LEN + 2 * i + 1])
}

/// The incidents that a serialized camera holds, read without checking
/// them.
pub open spec fn spec_incidents_from_bytes(bytes: Seq<u8>) -> Seq<IncidentInfo> {
    Seq::new(
        ((bytes.len() - CAMERA_PREAMBLE_LEN) / 2) as nat,
        |i: int|
            IncidentInfo {
                inc_id: bytes[CAMERA_PREAMBLE_LEN + 2 * i],
                src: spec_source_at(bytes, i)->0,
            },
    )
}

/// Whether `bytes` is as long as the number of incidents that it announces
/// asks for, names a source for each incident, holds no incident twice and
/// gives the state that goes with the number of incidents.
pub open spec fn spec_camera_bytes_ok(bytes: Seq<u8>) -> bool {
    &&& bytes.len() >= CAMERA_PREAMBLE_LEN
    &&& bytes.len() == CAMERA_PREAMBLE_LEN + 2 * (bytes[26] + 256 * bytes[27])
    &&& bytes[25] == CameraState::spec_derived((bytes[26] + 256 * bytes[27]) as nat).spec_to_byte()
    &&& forall|i: int|
        0 <= i < bytes[26] + 256 * bytes[27] ==> (#[trigger] spec_source_at(bytes, i)) is Some
    &&& spec_incidents_from_bytes(bytes).no_duplicates()
}

/// The camera that `bytes` spells, if they spell one and nothing more. The
/// cameras that border on it do not travel with it.
pub open spec fn spec_camera_from_bytes(bytes: Seq<u8>) -> Option<CameraView> {
    if spec_camera_bytes_ok(bytes) {
        Some(
            CameraView {
                id: bytes[0],
                latitude: spec_u64_from_le_bytes(bytes.subrange(1, 9)),
                longitude: spec_u64_from_le_bytes(bytes.subrange(9, 17)),
                range: spec_u64_from_le_bytes(bytes.subrange(17, 25)),
                border_cameras: Seq::empty(),
                incidents: spec_incidents_from_bytes(bytes),
            },
        )
    } else {
        None
    }
}

/// A camera of the fleet.
#[derive(Debug, PartialEq, Eq)]
pub struct Camera {
    id: u8,
    latitude: u64,
    longitude: u64,
    range: u64,
    border_cameras: Vec<u8>,
    incs_being_managed: Vec<IncidentInfo>,
}

impl View for Camera {
    type V = CameraView;

    closed spec fn view(&self) -> CameraView {
        CameraView {
            id: self.id,
            latitude: self.latitude,
            longitude: self.longitude,
            range: self.range,
            border_cameras: self.border_cameras@,
            incidents: self.incs_being_managed@,
        }
    }
}

/// The number that tells one incident from every other.
pub open spec fn spec_incident_number(info: IncidentInfo) -> int {
    info.inc_id * 2 + (if info.src == IncidentSource::Manual {
        0int
    } else {
        1int
    })
}

/// Incidents that are all different are at most 512.
pub proof fn lemma_incident_count(incidents: Seq<IncidentInfo>)
    requires
        incidents.no_duplicates(),
    ensures
        incidents.len() <= MAX_INCIDENTS,
{
    let numbers = Seq::new(incidents.len(), |i: int| spec_incident_number(incidents[i]));
    assert forall|i: int, j: int|
        0 <= i < numbers.len() && 0 <= j < numbers.len() && i != j implies numbers[i]
        != numbers[j] by {
        assert(incidents[i] != incidents[j]);
    }
    numbers.unique_seq_to_set();
    lemma_int_range(0, MAX_INCIDENTS as int);
    assert(numbers.to_set().subset_of(set_int_range(0, MAX_INCIDENTS as int))) by {
        assert forall|n: int| numbers.to_set().contains(n) implies set_int_range(
            0,
            MAX_INCIDENTS as int,
        ).contains(n) by {
            let i = choose|i: int| 0 <= i < numbers.len() && numbers[i] == n;
            assert(numbers[i] == spec_incident_number(incidents[i]));
        }
    }
    lemma_len_subset(numbers.to_set(), set_int_range(0, MAX_INCIDENTS as int));
}

impl Camera {
    /// A camera that attends no incident yet.
    pub fn new(id: u8, latitude: u64, longitude: u64, range: u64, border_cameras: Vec<u8>) -> (camera:
        Camera)
        ensures
            camera@ == (CameraView {
                id,
                latitude,
                longitude,
                range,
                border_cameras: border_cameras@,
                incidents: Seq::empty(),
            }),
            camera@.wf(),
            camera@.spec_state() == CameraState::SavingMode,
    {
        Camera { id, latitude, longitude, range, border_cameras, incs_being_managed: Vec::new() }
    }

    /// The identifier of the camera.
    pub fn get_id(&self) -> (id: u8)
        ensures
            id == self@.id,
    {
        self.id
    }

    /// Latitude and longitude of the camera.
    pub fn get_position(&self) -> (position: (u64, u64))
        ensures
            position == (self@.latitude, self@.longitude),
    {
        (self.latitude, self.longitude)
    }

    /// How far the camera sees.
    pub fn get_range(&self) -> (range: u64)
        ensures
            range == self@.range,
    {
        self.range
    }

    /// What the camera is doing: active exactly when it attends an
    /// incident.
    pub fn get_state(&self) -> (state: CameraState)
        ensures
            state == self@.spec_state(),
            state == CameraState::Active <==> self@.incidents.len() > 0,
    {
        if self.incs_being_managed.len() == 0 {
            CameraState::SavingMode
        } else {
            CameraState::Active
        }
    }

    /// The cameras that border on this one.
    pub fn get_bordering_cams(&self) -> (cameras: &Vec<u8>)
        ensures
            cameras@ == self@.border_cameras,
    {
        &self.border_cameras
    }

    /// The incidents that the camera attends.
    pub fn get_incs_being_managed(&self) -> (incidents: &Vec<IncidentInfo>)
        ensures
            incidents@ == self@.incidents,
    {
        &self.incs_being_managed
    }

    /// Whether the camera sees an incident at `distance`: it does up to its
    /// range. A camera whose range is no length sees nothing.
    pub fn will_register(&self, distance: u64) -> (seen: bool)
        ensures
            seen == spec_within(distance, self@.range),
    {
        within(distance, self.range)
    }

    /// Where the camera holds `info`, if it holds it.
    fn position_of(&self, info: IncidentInfo) -> (out: Option<usize>)
        requires
            self@.wf(),
        ensures
            match out {
                Some(i) => i < self@.incidents.len() && self@.incidents[i as int] == info
                    && self@.incidents.index_of(info) == i,
                None => !self@.incidents.contains(info),
            },
    {
        let mut i: usize = 0;
        while i < self.incs_being_managed.len()
            invariant
                i <= self.incs_being_managed.len(),
                self.incs_being_managed@.no_duplicates(),
                forall|k: int| 0 <= k < i ==> self.incs_being_managed@[k] != info,
            decreases self.incs_being_managed.len() - i,
        {
            if self.incs_being_managed[i] == info {
                return Some(i);
            }
            i += 1;
        }
        None
    }

    /// Whether the camera attends `info`.
    pub fn is_managing(&self, info: IncidentInfo) -> (yes: bool)
        requires
            self@.wf(),
        ensures
            yes == self@.incidents.contains(info),
    {
        self.position_of(info).is_some()
    }

    /// Adds `info` to the incidents that the camera attends, unless it is
    /// among them. Says whether the camera changed state by it, which it
    /// does exactly when it attended none before.
    pub fn append_to_incs_being_managed(&mut self, info: IncidentInfo) -> (state_has_changed:
        bool)
        requires
            old(self)@.wf(),
        ensures
            final(self)@ == old(self)@.spec_append(info),
            final(self)@.wf(),
            state_has_changed == (final(self)@.spec_state() != old(self)@.spec_state()),
            state_has_changed == (old(self)@.incidents.len() == 0),
    {
        let found = self.position_of(info);
        match found {
            Some(_) => {
                assert(self@.incidents.len() > 0);
                false
            },
            None => {
                let state_has_changed: bool = self.incs_being_managed.len() == 0;
                self.incs_being_managed.push(info);
                state_has_changed
            },
        }
    }

    /// Takes `info` out of the incidents that the camera attends, if it is
    /// among them. Says whether the camera changed state by it, which it
    /// does exactly when `info` was the only incident it attended.
    pub fn remove_from_incs_being_managed(&mut self, info: IncidentInfo) -> (state_has_changed:
        bool)
        requires
            old(self)@.wf(),
        ensures
            final(self)@ == old(self)@.spec_remove(info),
            final(self)@.wf(),
            state_has_changed == (final(self)@.spec_state() != old(self)@.spec_state()),
            state_has_changed == (old(self)@.incidents == seq![info]),
    {
        let found = self.position_of(info);
        match found {
            Some(i) => {
                let ghost before = self.incs_being_managed@;
                proof {
                    before.remove_ensures(i as int);
                    assert forall|a: int, b: int|
                        0 <= a < before.remove(i as int).len() && 0 <= b < before.remove(
                            i as int,
                        ).len() && a != b implies before.remove(i as int)[a] != before.remove(
                        i as int,
                    )[b] by {
                        let a0 = if a < i {
                            a
                        } else {
                            a + 1
                        };
                        let b0 = if b < i {
                            b
                        } else {
                            b + 1
                        };
                        assert(before.remove(i as int)[a] == before[a0]);
                        assert(before.remove(i as int)[b] == before[b0]);
                    }
                    if before.len() == 1 {
                        assert(before =~= seq![info]);
                    }
                }
                self.incs_being_managed.remove(i);
                self.incs_being_managed.len() == 0
            },
            None => {
                assert(self@.incidents != seq![info]) by {
                    if self@.incidents == seq![info] {
                        assert(seq![info][0] == info);
                    }
                }
                false
            },
        }
    }

    /// The camera as it travels.
    pub fn to_bytes(&self) -> (bytes: Vec<u8>)
        requires
            self@.wf(),
        ensures
            bytes@ == self@.spec_to_bytes(),
    {
        proof {
            lemma_incident_count(self.incs_being_managed@);
            lemma_auto_spec_u64_to_from_le_bytes();
        }
        let count: usize = self.incs_being_managed.len();
        let mut bytes: Vec<u8> = Vec::new();
        bytes.push(self.id);
        let latitude = u64_to_le_bytes(self.latitude);
        push_bytes(&mut bytes, &latitude);
        let longitude = u64_to_le_bytes(self.longitude);
        push_bytes(&mut bytes, &longitude);
        let range = u64_to_le_bytes(self.range);
        push_bytes(&mut bytes, &range);
        let state: u8 = if count == 0 {
            2
        } else {
            1
        };
        bytes.push(state);
        bytes.push((count % 256) as u8);
        bytes.push((count / 256) as u8);
        let ghost preamble = bytes@;
        let ghost incidents = self.incs_being_managed@;
        let mut i: usize = 0;
        while i < count
            invariant
                i <= count,
                count == self.incs_being_managed.len(),
                incidents == self.incs_being_managed@,
                bytes@ == preamble + spec_incidents_to_bytes(incidents.subrange(0, i as int)),
            decreases count - i,
        {
            bytes.push(self.incs_being_managed[i].inc_id);
            bytes.push(self.incs_being_managed[i].src.to_byte());
            i += 1;
            assert(bytes@ =~= preamble + spec_incidents_to_bytes(incidents.subrange(0, i as int)));
        }
        assert(incidents.subrange(0, i as int) =~= incidents);
        assert(bytes@ =~= self@.spec_to_bytes());
        bytes
    }

    /// Reads a camera from the whole of `bytes`. Anything that is not the
    /// encoding of one is a protocol violation: a length that does not go
    /// with the number of incidents, a state that does not go with it, a
    /// byte that names no source, an incident held twice.
    pub fn from_bytes(bytes: &Vec<u8>) -> (out: Result<Camera, MqttError>)
        ensures
            match out {
                Ok(camera) => spec_camera_from_bytes(bytes@) == Some(camera@) && camera@.wf(),
                Err(e) => e == MqttError::ProtocolViolation && spec_camera_from_bytes(bytes@)
                    is None,
            },
    {
        let total: usize = bytes.len();
        if total < CAMERA_PREAMBLE_LEN {
            return Err(MqttError::ProtocolViolation);
        }
        let count: usize = bytes[26] as usize + 256 * (bytes[27] as usize);
        if total - CAMERA_PREAMBLE_LEN != 2 * count {
            return Err(MqttError::ProtocolViolation);
        }
        let state: u8 = if count == 0 {
            2
        } else {
            1
        };
        if bytes[25] != state {
            return Err(MqttError::ProtocolViolation);
        }
        let latitude_bytes = copy_range(bytes, 1, 9);
        let longitude_bytes = copy_range(bytes, 9, 17);
        let range_bytes = copy_range(bytes, 17, 25);
        let mut camera = Camera {
            id: bytes[0],
            latitude: u64_from_le_bytes(latitude_bytes.as_slice()),
            longitude: u64_from_le_bytes(longitude_bytes.as_slice()),
            range: u64_from_le_bytes(range_bytes.as_slice()),
            border_cameras: Vec::new(),
            incs_being_managed: Vec::new(),
        };
        let ghost expected = spec_incidents_from_bytes(bytes@);
        let mut i: usize = 0;
        while i < count
            invariant
                i <= count,
                total == bytes.len(),
                total == CAMERA_PREAMBLE_LEN + 2 * count,
                count == bytes@[26] + 256 * bytes@[27],
                expected == spec_incidents_from_bytes(bytes@),
                expected.len() == count,
                camera@.wf(),
                camera.id == bytes@[0],
                camera.latitude == spec_u64_from_le_bytes(bytes@.subrange(1, 9)),
                camera.longitude == spec_u64_from_le_bytes(bytes@.subrange(9, 17)),
                camera.range == spec_u64_from_le_bytes(bytes@.subrange(17, 25)),
                camera.border_cameras@ == Seq::<u8>::empty(),
                camera.incs_being_managed@ == expected.subrange(0, i as int),
                forall|k: int| 0 <= k < i ==> (#[trigger] spec_source_at(bytes@, k)) is Some,
            decreases count - i,
        {
            let read_source = IncidentSource::from_byte(bytes[CAMERA_PREAMBLE_LEN + 2 * i + 1]);
            let src = match read_source {
                Some(src) => src,
                None => {
                    assert(spec_source_at(bytes@, i as int) is None);
                    return Err(MqttError::ProtocolViolation);
                },
            };
            let info = IncidentInfo { inc_id: bytes[CAMERA_PREAMBLE_LEN + 2 * i], src };
            assert(info == expected[i as int]);
            let found = camera.position_of(info);
            match found {
                Some(k) => {
                    assert(expected[k as int] == expected[i as int]);
                    return Err(MqttError::ProtocolViolation);
                },
                None => {},
            }
            camera.incs_being_managed.push(info);
            i += 1;
            assert(camera.incs_being_managed@ =~= expected.subrange(0, i as int));
            assert(camera@.wf()) by {
                let now = camera.incs_being_managed@;
                assert forall|a: int, b: int|
                    0 <= a < now.len() && 0 <= b < now.len() && a != b implies now[a]
                    != now[b] by {
                    let before = expected.subrange(0, i - 1);
                    if a == i - 1 {
                        assert(before[b] != info);
                    } else if b == i - 1 {
                        assert(before[a] != info);
                    } else {
                        assert(before[a] != before[b]);
                    }
                }
            }
        }
        assert(expected.subrange(0, i as int) =~= expected);
        Ok(camera)
    }
}

/// A camera is read back from its bytes, but for the cameras that border
/// on it.
pub proof fn lemma_camera_round_trip(camera: CameraView)
    requires
        camera.wf(),
    ensures
        spec_camera_from_bytes(camera.spec_to_bytes()) == Some(
            CameraView { border_cameras: Seq::empty(), ..camera },
        ),
{
    lemma_auto_spec_u64_to_from_le_bytes();
    lemma_incident_count(camera.incidents);
    let bytes = camera.spec_to_bytes();
    let count = camera.incidents.len();
    assert(bytes.subrange(1, 9) =~= spec_u64_to_le_bytes(camera.latitude));
    assert(bytes.subrange(9, 17) =~= spec_u64_to_le_bytes(camera.longitude));
    assert(bytes.subrange(17, 25) =~= spec_u64_to_le_bytes(camera.range));
    assert(bytes[0] == camera.id);
    assert(bytes[25] == camera.spec_state().spec_to_byte());
    assert(bytes[26] == (count % 256) as u8);
    assert(bytes[27] == (count / 256) as u8);
    assert(bytes.len() == CAMERA_PREAMBLE_LEN + 2 * count);
    assert forall|i: int| 0 <= i < count implies (#[trigger] spec_source_at(bytes, i)) == Some(
        camera.incidents[i].src,
    ) && bytes[CAMERA_PREAMBLE_LEN + 2 * i] == camera.incidents[i].inc_id by {
        let tail = spec_incidents_to_bytes(camera.incidents);
        assert(bytes[CAMERA_PREAMBLE_LEN + 2 * i + 1] == tail[2 * i + 1]);
        assert(bytes[CAMERA_PREAMBLE_LEN + 2 * i] == tail[2 * i]);
    }
    assert(spec_incidents_from_bytes(bytes) =~= camera.incidents);
}

} // verus!
