//! Which cameras attend which incidents.
//!
//! An incident that is seen for the first time wakes every camera in whose
//! range it lies, and the cameras that border on these. Once the incident
//! is resolved the same cameras let go of it. A camera that changes state
//! by either is handed back in its serialized form, to be published.

use std::collections::HashMap;
use vstd::prelude::*;
use crate::apps::incident_data::incident::{Incident, IncidentState};
use crate::apps::incident_data::incident_info::IncidentInfo;
use crate::apps::lengths::spec_within;
use crate::apps::sist_camaras::camera::{Camera, CameraView};
use crate::mqtt::mqtt_error::MqttError;
use crate::mqtt::mqtt_utils::utils::spec_byte_seqs;

verus! {

broadcast use vstd::std_specs::hash::group_hash_axioms;

/// What each camera of a vector holds.
pub open spec fn spec_camera_views(cameras: Seq<Camera>) -> Seq<CameraView> {
    Seq::new(cameras.len(), |i: int| cameras[i]@)
}

/// No two cameras share an identifier.
pub open spec fn spec_ids_unique(cameras: Seq<CameraView>) -> bool {
    forall|i: int, j: int|
        0 <= i < cameras.len() && 0 <= j < cameras.len() && i != j ==> (#[trigger] cameras[i]).id
            != (#[trigger] cameras[j]).id
}

/// Every camera is well formed.
pub open spec fn spec_cameras_wf(cameras: Seq<CameraView>) -> bool {
    forall|i: int| 0 <= i < cameras.len() ==> (#[trigger] cameras[i]).wf()
}

/// Whether an incident lies in the range of a camera: `distances` says so
/// when it holds the camera's identifier with a distance within the range.
pub open spec fn spec_in_range(camera: CameraView, distances: Seq<(u8, u64)>) -> bool {
    exists|k: int|
        0 <= k < distances.len() && (#[trigger] distances[k]).0 == camera.id && spec_within(
            distances[k].1,
            camera.range,
        )
}

/// The cameras that follow an incident: each camera in whose range it
/// lies, in the order of the fleet, each followed by the cameras that
/// border on it.
pub open spec fn spec_followers(cameras: Seq<CameraView>, distances: Seq<(u8, u64)>) -> Seq<u8>
    decreases cameras.len(),
{
    if cameras.len() == 0 {
        Seq::empty()
    } else {
        let camera = cameras.last();
        spec_followers(cameras.drop_last(), distances) + (if spec_in_range(camera, distances) {
            seq![camera.id] + camera.border_cameras
        } else {
            Seq::empty()
        })
    }
}

/// Whether the fleet has a camera with this identifier.
pub open spec fn spec_has_camera(cameras: Seq<CameraView>, id: u8) -> bool {
    exists|i: int| 0 <= i < cameras.len() && (#[trigger] cameras[i]).id == id
}

/// Where the fleet holds the camera with this identifier.
pub open spec fn spec_camera_index(cameras: Seq<CameraView>, id: u8) -> int {
    choose|i: int| 0 <= i < cameras.len() && (#[trigger] cameras[i]).id == id
}

/// A camera that starts, or stops, attending an incident.
pub open spec fn spec_change(camera: CameraView, info: IncidentInfo, attend: bool) -> CameraView {
    if attend {
        camera.spec_append(info)
    } else {
        camera.spec_remove(info)
    }
}

/// The fleet and what is to be published after the camera `id` started, or
/// stopped, attending an incident: one more publication, of the camera as
/// it then is, exactly when the camera changed state. A camera that the
/// fleet does not have changes nothing.
pub open spec fn spec_change_one(
    cameras: Seq<CameraView>,
    published: Seq<Seq<u8>>,
    info: IncidentInfo,
    id: u8,
    attend: bool,
) -> (Seq<CameraView>, Seq<Seq<u8>>) {
    if spec_has_camera(cameras, id) {
        let i = spec_camera_index(cameras, id);
        let camera = spec_change(cameras[i], info, attend);
        (
            cameras.update(i, camera),
            if camera.spec_state() != cameras[i].spec_state() {
                published.push(camera.spec_to_bytes())
            } else {
                published
            },
        )
    } else {
        (cameras, published)
    }
}

/// The fleet and what is to be published after the cameras `ids` started,
/// or stopped, attending an incident, one after the other.
pub open spec fn spec_change_all(
    cameras: Seq<CameraView>,
    published: Seq<Seq<u8>>,
    info: IncidentInfo,
    ids: Seq<u8>,
    attend: bool,
) -> (Seq<CameraView>, Seq<Seq<u8>>)
    decreases ids.len(),
{
    if ids.len() == 0 {
        (cameras, published)
    } else {
        let (before, sent) = spec_change_all(cameras, published, info, ids.drop_last(), attend);
        spec_change_one(before, sent, info, ids.last(), attend)
    }
}

/// What the camera system holds: the fleet, and for each incident under
/// way the cameras that were told to attend it.
pub struct CamerasLogicView {
    pub cameras: Seq<CameraView>,
    pub incs_being_managed: Map<IncidentInfo, Seq<u8>>,
}

impl CamerasLogicView {
    /// Every camera is well formed and no two share an identifier.
    pub open spec fn wf(self) -> bool {
        spec_cameras_wf(self.cameras) && spec_ids_unique(self.cameras)
    }

    /// The system after an incident that is not under way: one that needs
    /// attention gets its followers, and these start attending it; one that
    /// is resolved changes nothing.
    pub open spec fn spec_first_time(self, incident: Incident, distances: Seq<(u8, u64)>) -> (
        CamerasLogicView,
        Seq<Seq<u8>>,
    ) {
        if incident.state == IncidentState::ResolvedIncident {
            (self, Seq::empty())
        } else {
            let followers = spec_followers(self.cameras, distances);
            let (cameras, published) = spec_change_all(
                self.cameras,
                Seq::empty(),
                incident.spec_info(),
                followers,
                true,
            );
            (
                CamerasLogicView {
                    cameras,
                    incs_being_managed: self.incs_being_managed.insert(
                        incident.spec_info(),
                        followers,
                    ),
                },
                published,
            )
        }
    }

    /// The system after an incident that is under way: once it is resolved
    /// its followers stop attending it and it is under way no more; while
    /// it still needs attention nothing changes.
    pub open spec fn spec_known(self, incident: Incident) -> (CamerasLogicView, Seq<Seq<u8>>) {
        if incident.state == IncidentState::ResolvedIncident {
            let followers = self.incs_being_managed[incident.spec_info()];
            let (cameras, published) = spec_change_all(
                self.cameras,
                Seq::empty(),
                incident.spec_info(),
                followers,
                false,
            );
            (
                CamerasLogicView {
                    cameras,
                    incs_being_managed: self.incs_being_managed.remove(incident.spec_info()),
                },
                published,
            )
        } else {
            (self, Seq::empty())
        }
    }

    /// The system after an incident was received, and what is to be
    /// published on the camera topic, in order.
    pub open spec fn spec_manage_incident(
        self,
        incident: Incident,
        distances: Seq<(u8, u64)>,
    ) -> (CamerasLogicView, Seq<Seq<u8>>) {
        if self.incs_being_managed.contains_key(incident.spec_info()) {
            self.spec_known(incident)
        } else {
            self.spec_first_time(incident, distances)
        }
    }
}

/// The camera system.
#[derive(Debug)]
pub struct CamerasLogic {
    cameras: Vec<Camera>,
    incs_being_managed: HashMap<u16, Vec<u8>>,
}

impl View for CamerasLogic {
    type V = CamerasLogicView;

    closed spec fn view(&self) -> CamerasLogicView {
        CamerasLogicView {
            cameras: spec_camera_views(self.cameras@),
            incs_being_managed: Map::new(
                |info: IncidentInfo| self.incs_being_managed@.contains_key(info.spec_key()),
                |info: IncidentInfo| self.incs_being_managed@[info.spec_key()]@,
            ),
        }
    }
}

/// Changing cameras one after the other keeps each well formed and keeps
/// the identifiers where they were.
pub proof fn lemma_change_all_keeps_wf(
    cameras: Seq<CameraView>,
    published: Seq<Seq<u8>>,
    info: IncidentInfo,
    ids: Seq<u8>,
    attend: bool,
)
    requires
        spec_cameras_wf(cameras),
        spec_ids_unique(cameras),
    ensures
        ({
            let after = spec_change_all(cameras, published, info, ids, attend).0;
            &&& spec_cameras_wf(after)
            &&& spec_ids_unique(after)
            &&& after.len() == cameras.len()
            &&& forall|i: int| 0 <= i < cameras.len() ==> (#[trigger] after[i]).id == cameras[i].id
        }),
    decreases ids.len(),
{
    if ids.len() > 0 {
        lemma_change_all_keeps_wf(cameras, published, info, ids.drop_last(), attend);
        let (before, sent) = spec_change_all(cameras, published, info, ids.drop_last(), attend);
        if spec_has_camera(before, ids.last()) {
            let i = spec_camera_index(before, ids.last());
            lemma_change_keeps_wf(before[i], info, attend);
        }
    }
}

/// A camera that starts or stops attending an incident stays well formed
/// and keeps its identifier.
pub proof fn lemma_change_keeps_wf(camera: CameraView, info: IncidentInfo, attend: bool)
    requires
        camera.wf(),
    ensures
        spec_change(camera, info, attend).wf(),
        spec_change(camera, info, attend).id == camera.id,
{
    let incidents = camera.incidents;
    if attend {
        if !incidents.contains(info) {
            let after = incidents.push(info);
            assert forall|a: int, b: int|
                0 <= a < after.len() && 0 <= b < after.len() && a != b implies after[a]
                != after[b] by {
                if a == incidents.len() {
                    assert(incidents[b] != info);
                } else if b == incidents.len() {
                    assert(incidents[a] != info);
                }
            }
        }
    } else {
        if incidents.contains(info) {
            let i = incidents.index_of(info);
            let after = incidents.remove(i);
            incidents.remove_ensures(i);
            assert forall|a: int, b: int|
                0 <= a < after.len() && 0 <= b < after.len() && a != b implies after[a]
                != after[b] by {
                let a0 = if a < i {
                    a
                } else {
                    a + 1
                };
                let b0 = if b < i {
                    b
                } else {
                    b + 1
                };
                assert(after[a] == incidents[a0]);
                assert(after[b] == incidents[b0]);
            }
        }
    }
}

impl CamerasLogic {
    /// The system with this fleet and no incident under way. A fleet in
    /// which two cameras share an identifier is a malformed configuration.
    /// Every camera has to be well formed, as every camera that
    /// `Camera::new` built is.
    pub fn new(cameras: Vec<Camera>) -> (out: Result<CamerasLogic, MqttError>)
        requires
            spec_cameras_wf(spec_camera_views(cameras@)),
        ensures
            match out {
                Ok(logic) => logic@ == (CamerasLogicView {
                    cameras: spec_camera_views(cameras@),
                    incs_being_managed: Map::empty(),
                }) && logic@.wf(),
                Err(e) => e == MqttError::Config && !spec_ids_unique(
                    spec_camera_views(cameras@),
                ),
            },
    {
        let mut i: usize = 0;
        while i < cameras.len()
            invariant
                i <= cameras.len(),
                forall|a: int, b: int|
                    0 <= a < i && 0 <= b < cameras.len() && a != b ==> (
                    #[trigger] cameras@[a])@.id != (#[trigger] cameras@[b])@.id,
            decreases cameras.len() - i,
        {
            let mut j: usize = 0;
            while j < cameras.len()
                invariant
                    i < cameras.len(),
                    j <= cameras.len(),
                    forall|b: int|
                        0 <= b < j && b != i ==> cameras@[i as int]@.id != (
                        #[trigger] cameras@[b])@.id,
                decreases cameras.len() - j,
            {
                if j != i && cameras[j].get_id() == cameras[i].get_id() {
                    proof {
                        let views = spec_camera_views(cameras@);
                        assert(views[i as int].id == views[j as int].id);
                    }
                    return Err(MqttError::Config);
                }
                j += 1;
            }
            i += 1;
        }
        let logic = CamerasLogic { cameras, incs_being_managed: HashMap::new() };
        assert(logic@.incs_being_managed =~= Map::empty());
        Ok(logic)
    }

    /// The cameras of the fleet.
    pub fn cameras(&self) -> (cameras: &Vec<Camera>)
        ensures
            spec_camera_views(cameras@) == self@.cameras,
    {
        &self.cameras
    }

    /// Whether an incident is under way.
    pub fn is_being_managed(&self, info: IncidentInfo) -> (yes: bool)
        ensures
            yes == self@.incs_being_managed.contains_key(info),
    {
        let key: u16 = info.key();
        self.incs_being_managed.contains_key(&key)
    }

    /// Where the fleet holds the camera with this identifier, if it has
    /// one.
    fn find_camera(&self, id: u8) -> (out: Option<usize>)
        requires
            self@.wf(),
        ensures
            match out {
                Some(i) => i < self@.cameras.len() && spec_has_camera(self@.cameras, id)
                    && spec_camera_index(self@.cameras, id) == i,
                None => !spec_has_camera(self@.cameras, id),
            },
    {
        let mut i: usize = 0;
        while i < self.cameras.len()
            invariant
                i <= self.cameras.len(),
                self@.wf(),
                self@.cameras == spec_camera_views(self.cameras@),
                forall|k: int| 0 <= k < i ==> (#[trigger] self@.cameras[k]).id != id,
            decreases self.cameras.len() - i,
        {
            if self.cameras[i].get_id() == id {
                assert(self@.cameras[i as int].id == id);
                return Some(i);
            }
            i += 1;
        }
        None
    }

    /// Whether `distances` puts an incident in the range of `camera`.
    fn is_in_range(camera: &Camera, distances: &Vec<(u8, u64)>) -> (yes: bool)
        ensures
            yes == spec_in_range(camera@, distances@),
    {
        let mut k: usize = 0;
        while k < distances.len()
            invariant
                k <= distances.len(),
                forall|n: int|
                    0 <= n < k ==> !((#[trigger] distances@[n]).0 == camera@.id && spec_within(
                        distances@[n].1,
                        camera@.range,
                    )),
            decreases distances.len() - k,
        {
            if distances[k].0 == camera.get_id() && camera.will_register(distances[k].1) {
                return true;
            }
            k += 1;
        }
        false
    }

    /// The cameras that follow an incident: each camera in whose range
    /// `distances` puts it, each followed by the cameras that border on it.
    pub fn get_id_of_cams_that_will_change_state_to_active(
        &self,
        distances: &Vec<(u8, u64)>,
    ) -> (followers: Vec<u8>)
        ensures
            followers@ == spec_followers(self@.cameras, distances@),
    {
        let mut cameras_that_follow_inc: Vec<u8> = Vec::new();
        let ghost views = self@.cameras;
        let mut i: usize = 0;
        assert(views.subrange(0, 0) =~= Seq::empty());
        while i < self.cameras.len()
            invariant
                i <= self.cameras.len(),
                views == spec_camera_views(self.cameras@),
                cameras_that_follow_inc@ == spec_followers(views.subrange(0, i as int), distances@),
            decreases self.cameras.len() - i,
        {
            let ghost before = cameras_that_follow_inc@;
            let camera = &self.cameras[i];
            proof {
                let next = views.subrange(0, i + 1);
                assert(next.drop_last() =~= views.subrange(0, i as int));
                assert(next.last() == camera@);
            }
            if Self::is_in_range(camera, distances) {
                cameras_that_follow_inc.push(camera.get_id());
                let borders = camera.get_bordering_cams();
                let mut b: usize = 0;
                while b < borders.len()
                    invariant
                        b <= borders.len(),
                        cameras_that_follow_inc@ == before + seq![camera@.id] + borders@.subrange(
                            0,
                            b as int,
                        ),
                    decreases borders.len() - b,
                {
                    cameras_that_follow_inc.push(borders[b]);
                    b += 1;
                    assert(cameras_that_follow_inc@ =~= before + seq![camera@.id]
                        + borders@.subrange(0, b as int));
                }
                assert(borders@.subrange(0, b as int) =~= borders@);
                assert(cameras_that_follow_inc@ =~= before + (seq![camera@.id] + borders@));
            } else {
                assert(cameras_that_follow_inc@ =~= before + Seq::<u8>::empty());
            }
            i += 1;
        }
        assert(views.subrange(0, i as int) =~= views);
        cameras_that_follow_inc
    }

    /// Makes a camera attend an incident. When the camera changes state by
    /// it, from saving mode to active, the camera is handed back as it
    /// travels, to be published; else nothing is.
    pub fn start_paying_attention_to(info: IncidentInfo, cam_to_update: &mut Camera) -> (out:
        Option<Vec<u8>>)
        requires
            old(cam_to_update)@.wf(),
        ensures
            final(cam_to_update)@ == old(cam_to_update)@.spec_append(info),
            final(cam_to_update)@.wf(),
            out is Some <==> final(cam_to_update)@.spec_state() != old(
                cam_to_update,
            )@.spec_state(),
            out is Some ==> out->0@ == final(cam_to_update)@.spec_to_bytes(),
    {
        let state_has_changed: bool = cam_to_update.append_to_incs_being_managed(info);
        if state_has_changed {
            Some(cam_to_update.to_bytes())
        } else {
            None
        }
    }

    /// Makes a camera let go of an incident. When the camera changes state
    /// by it, from active to saving mode, the camera is handed back as it
    /// travels, to be published; else nothing is.
    pub fn stop_paying_attention_to(info: IncidentInfo, cam_to_update: &mut Camera) -> (out:
        Option<Vec<u8>>)
        requires
            old(cam_to_update)@.wf(),
        ensures
            final(cam_to_update)@ == old(cam_to_update)@.spec_remove(info),
            final(cam_to_update)@.wf(),
            out is Some <==> final(cam_to_update)@.spec_state() != old(
                cam_to_update,
            )@.spec_state(),
            out is Some ==> out->0@ == final(cam_to_update)@.spec_to_bytes(),
    {
        let state_has_changed: bool = cam_to_update.remove_from_incs_being_managed(info);
        if state_has_changed {
            Some(cam_to_update.to_bytes())
        } else {
            None
        }
    }

    /// Makes the cameras `ids` start, or stop, attending an incident, one
    /// after the other, and hands back what is to be published.
    fn change_cameras(&mut self, info: IncidentInfo, ids: &Vec<u8>, attend: bool) -> (published:
        Vec<Vec<u8>>)
        requires
            old(self)@.wf(),
        ensures
            final(self)@.wf(),
            final(self)@.incs_being_managed == old(self)@.incs_being_managed,
            final(self).incs_being_managed == old(self).incs_being_managed,
            (final(self)@.cameras, spec_byte_seqs(published@)) == spec_change_all(
                old(self)@.cameras,
                Seq::empty(),
                info,
                ids@,
                attend,
            ),
    {
        let mut published: Vec<Vec<u8>> = Vec::new();
        let ghost start = self@.cameras;
        let mut k: usize = 0;
        assert(spec_byte_seqs(published@) =~= Seq::empty());
        assert(ids@.subrange(0, 0) =~= Seq::empty());
        while k < ids.len()
            invariant
                k <= ids.len(),
                self@.wf(),
                self.incs_being_managed == old(self).incs_being_managed,
                (self@.cameras, spec_byte_seqs(published@)) == spec_change_all(
                    start,
                    Seq::empty(),
                    info,
                    ids@.subrange(0, k as int),
                    attend,
                ),
            decreases ids.len() - k,
        {
            let ghost before = self@.cameras;
            let ghost sent = spec_byte_seqs(published@);
            proof {
                let next = ids@.subrange(0, k + 1);
                assert(next.drop_last() =~= ids@.subrange(0, k as int));
                assert(next.last() == ids@[k as int]);
            }
            let found = self.find_camera(ids[k]);
            match found {
                Some(i) => {
                    proof {
                        lemma_change_keeps_wf(before[i as int], info, attend);
                    }
                    let out = if attend {
                        Self::start_paying_attention_to(info, &mut self.cameras[i])
                    } else {
                        Self::stop_paying_attention_to(info, &mut self.cameras[i])
                    };
                    assert(self@.cameras =~= before.update(
                        i as int,
                        spec_change(before[i as int], info, attend),
                    ));
                    match out {
                        Some(bytes) => {
                            let ghost bytes_view = bytes@;
                            published.push(bytes);
                            assert(spec_byte_seqs(published@) =~= sent.push(bytes_view));
                        },
                        None => {},
                    }
                },
                None => {},
            }
            k += 1;
        }
        assert(ids@.subrange(0, k as int) =~= ids@);
        published
    }

    /// Handles an incident that is not under way. One that needs attention
    /// gets its followers, and these start attending it; one that is
    /// resolved changes nothing.
    pub fn process_first_time_incident(&mut self, inc: Incident, distances: &Vec<(u8, u64)>) -> (published:
        Vec<Vec<u8>>)
        requires
            old(self)@.wf(),
        ensures
            final(self)@.wf(),
            (final(self)@, spec_byte_seqs(published@)) == old(self)@.spec_first_time(
                inc,
                distances@,
            ),
    {
        if !inc.is_resolved() {
            let info = inc.get_info();
            let cameras_that_follow_inc = self.get_id_of_cams_that_will_change_state_to_active(
                distances,
            );
            let published = self.change_cameras(info, &cameras_that_follow_inc, true);
            let ghost followers = cameras_that_follow_inc@;
            let ghost managed = self@.incs_being_managed;
            let key: u16 = info.key();
            self.incs_being_managed.insert(key, cameras_that_follow_inc);
            assert(self@.incs_being_managed =~= managed.insert(info, followers));
            published
        } else {
            let published: Vec<Vec<u8>> = Vec::new();
            assert(spec_byte_seqs(published@) =~= Seq::empty());
            published
        }
    }

    /// Handles an incident that is under way. Once it is resolved its
    /// followers stop attending it and it is under way no more; while it
    /// still needs attention nothing changes.
    pub fn process_known_incident(&mut self, inc: Incident) -> (published: Vec<Vec<u8>>)
        requires
            old(self)@.wf(),
            old(self)@.incs_being_managed.contains_key(inc.spec_info()),
        ensures
            final(self)@.wf(),
            (final(self)@, spec_byte_seqs(published@)) == old(self)@.spec_known(inc),
    {
        if inc.is_resolved() {
            let info = inc.get_info();
            let key: u16 = info.key();
            let ghost managed = self@.incs_being_managed;
            let removed = self.incs_being_managed.remove(&key);
            assert(self@.incs_being_managed =~= managed.remove(info));
            match removed {
                Some(cams_managing_inc) => self.change_cameras(info, &cams_managing_inc, false),
                None => Vec::new(),
            }
        } else {
            let published: Vec<Vec<u8>> = Vec::new();
            assert(spec_byte_seqs(published@) =~= Seq::empty());
            published
        }
    }

    /// Handles an incident that was received, and hands back the cameras
    /// that changed state by it, each as it travels, in the order in which
    /// they changed: what is to be published on the camera topic.
    /// `distances` holds, for each camera that the incident may concern,
    /// the camera's identifier and the distance between the two.
    pub fn manage_incident(&mut self, incident: Incident, distances: &Vec<(u8, u64)>) -> (published:
        Vec<Vec<u8>>)
        requires
            old(self)@.wf(),
        ensures
            final(self)@.wf(),
            (final(self)@, spec_byte_seqs(published@)) == old(self)@.spec_manage_incident(
                incident,
                distances@,
            ),
    {
        if !self.is_being_managed(incident.get_info()) {
            self.process_first_time_incident(incident, distances)
        } else {
            self.process_known_incident(incident)
        }
    }
}

/// Receiving the same incident a second time changes nothing and publishes
/// nothing.
pub proof fn lemma_manage_incident_idempotent(
    logic: CamerasLogicView,
    incident: Incident,
    distances: Seq<(u8, u64)>,
)
    ensures
        ({
            let once = logic.spec_manage_incident(incident, distances).0;
            once.spec_manage_incident(incident, distances) == (once, Seq::<Seq<u8>>::empty())
        }),
{
}

/// Whatever incident is received, every camera stays well formed and no
/// two cameras come to share an identifier.
pub proof fn lemma_manage_incident_keeps_wf(
    logic: CamerasLogicView,
    incident: Incident,
    distances: Seq<(u8, u64)>,
)
    requires
        logic.wf(),
    ensures
        logic.spec_manage_incident(incident, distances).0.wf(),
{
    let info = incident.spec_info();
    lemma_change_all_keeps_wf(
        logic.cameras,
        Seq::empty(),
        info,
        spec_followers(logic.cameras, distances),
        true,
    );
    lemma_change_all_keeps_wf(
        logic.cameras,
        Seq::empty(),
        info,
        logic.incs_being_managed[info],
        false,
    );
}

/// The cameras that are published when the cameras `ids` start, or stop,
/// attending an incident one after the other: the place in the fleet of
/// each camera that changes state, in the order of their changes.
pub open spec fn spec_publishers(
    cameras: Seq<CameraView>,
    info: IncidentInfo,
    ids: Seq<u8>,
    attend: bool,
) -> Seq<int>
    decreases ids.len(),
{
    if ids.len() == 0 {
        Seq::empty()
    } else {
        let before = spec_change_all(cameras, Seq::empty(), info, ids.drop_last(), attend).0;
        let who = spec_publishers(cameras, info, ids.drop_last(), attend);
        if spec_has_camera(before, ids.last()) && spec_change(
            before[spec_camera_index(before, ids.last())],
            info,
            attend,
        ).spec_state() != before[spec_camera_index(before, ids.last())].spec_state() {
            who.push(spec_camera_index(before, ids.last()))
        } else {
            who
        }
    }
}

/// Whether what was published matches the cameras that changed state one
/// to one: `who` names each camera that changed state once and no other
/// camera, and each publication is the camera that `who` names at its
/// place, as it is after the change.
pub open spec fn spec_one_message_per_change(
    before: Seq<CameraView>,
    after: Seq<CameraView>,
    published: Seq<Seq<u8>>,
    who: Seq<int>,
) -> bool {
    &&& after.len() == before.len()
    &&& who.len() == published.len()
    &&& who.no_duplicates()
    &&& forall|k: int|
        0 <= k < who.len() ==> 0 <= #[trigger] who[k] < after.len() && published[k]
            == after[who[k]].spec_to_bytes()
    &&& forall|i: int|
        0 <= i < after.len() ==> (who.contains(i) <==> (#[trigger] after[i]).spec_state()
            != before[i].spec_state())
}

/// A camera that started, or stopped, attending an incident does not
/// change when it is told so again.
pub proof fn lemma_change_twice(camera: CameraView, info: IncidentInfo, attend: bool)
    requires
        camera.wf(),
    ensures
        spec_change(spec_change(camera, info, attend), info, attend) == spec_change(
            camera,
            info,
            attend,
        ),
{
    let incidents = camera.incidents;
    if attend {
        if !incidents.contains(info) {
            assert(incidents.push(info)[incidents.len() as int] == info);
        }
    } else {
        if incidents.contains(info) {
            let i = incidents.index_of(info);
            let after = incidents.remove(i);
            incidents.remove_ensures(i);
            if after.contains(info) {
                let a = choose|a: int| 0 <= a < after.len() && after[a] == info;
                let a0 = if a < i {
                    a
                } else {
                    a + 1
                };
                assert(after[a] == incidents[a0]);
            }
        }
    }
}

/// When cameras start, or stop, attending an incident one after the other,
/// each camera that changes state is published exactly once, as it is
/// after the change, and no other camera is published.
pub proof fn lemma_change_all_one_message_per_change(
    cameras: Seq<CameraView>,
    info: IncidentInfo,
    ids: Seq<u8>,
    attend: bool,
)
    requires
        spec_cameras_wf(cameras),
        spec_ids_unique(cameras),
    ensures
        ({
            let (after, published) = spec_change_all(cameras, Seq::empty(), info, ids, attend);
            &&& spec_one_message_per_change(
                cameras,
                after,
                published,
                spec_publishers(cameras, info, ids, attend),
            )
            &&& forall|i: int|
                0 <= i < cameras.len() ==> #[trigger] after[i] == cameras[i] || after[i]
                    == spec_change(cameras[i], info, attend)
        }),
    decreases ids.len(),
{
    let (after, published) = spec_change_all(cameras, Seq::empty(), info, ids, attend);
    let who = spec_publishers(cameras, info, ids, attend);
    if ids.len() > 0 {
        let front = ids.drop_last();
        let (before, sent) = spec_change_all(cameras, Seq::empty(), info, front, attend);
        let who0 = spec_publishers(cameras, info, front, attend);
        lemma_change_all_one_message_per_change(cameras, info, front, attend);
        lemma_change_all_keeps_wf(cameras, Seq::empty(), info, front, attend);
        if spec_has_camera(before, ids.last()) {
            let i = spec_camera_index(before, ids.last());
            let cam = spec_change(before[i], info, attend);
            lemma_change_twice(cameras[i], info, attend);
            assert(before[i] == cameras[i] || before[i] == spec_change(cameras[i], info, attend));
            assert(cam == spec_change(cameras[i], info, attend));
            assert(after == before.update(i, cam));
            let changes = cam.spec_state() != before[i].spec_state();
            if changes {
                assert(before[i] == cameras[i]);
                assert(!who0.contains(i));
                assert(who == who0.push(i));
                assert(published == sent.push(cam.spec_to_bytes()));
                assert(who.no_duplicates()) by {
                    assert forall|a: int, b: int|
                        0 <= a < who.len() && 0 <= b < who.len() && a != b implies who[a]
                        != who[b] by {
                        if a < who0.len() && b < who0.len() {
                            assert(who0[a] != who0[b]);
                        } else if a < who0.len() {
                            assert(who0.contains(who0[a]));
                        } else {
                            assert(who0.contains(who0[b]));
                        }
                    }
                }
                assert forall|k: int| 0 <= k < who.len() implies 0 <= #[trigger] who[k]
                    < after.len() && published[k] == after[who[k]].spec_to_bytes() by {
                    if k < who0.len() {
                        assert(who0.contains(who0[k]));
                        assert(who0[k] != i);
                        assert(sent[k] == before[who0[k]].spec_to_bytes());
                    }
                }
                assert forall|j: int| 0 <= j < after.len() implies (who.contains(j) <==> (
                #[trigger] after[j]).spec_state() != cameras[j].spec_state()) by {
                    if j == i {
                        assert(who[who0.len() as int] == i);
                    } else {
                        assert(after[j] == before[j]);
                        if who.contains(j) {
                            let k = choose|k: int| 0 <= k < who.len() && who[k] == j;
                            assert(who0[k] == j);
                        }
                        if who0.contains(j) {
                            let k = choose|k: int| 0 <= k < who0.len() && who0[k] == j;
                            assert(who[k] == j);
                        }
                    }
                }
            } else {
                assert(who == who0);
                assert(published == sent);
                assert forall|k: int| 0 <= k < who.len() implies 0 <= #[trigger] who[k]
                    < after.len() && published[k] == after[who[k]].spec_to_bytes() by {
                    assert(who0.contains(who0[k]));
                    if who0[k] == i {
                        assert(before[i].spec_state() != cameras[i].spec_state());
                        assert(before[i] == cam);
                    }
                }
                assert forall|j: int| 0 <= j < after.len() implies (who.contains(j) <==> (
                #[trigger] after[j]).spec_state() != cameras[j].spec_state()) by {
                    if j != i {
                        assert(after[j] == before[j]);
                    } else {
                        assert(who0.contains(i) <==> before[i].spec_state()
                            != cameras[i].spec_state());
                    }
                }
            }
            assert forall|j: int| 0 <= j < cameras.len() implies #[trigger] after[j]
                == cameras[j] || after[j] == spec_change(cameras[j], info, attend) by {
                if j != i {
                    assert(after[j] == before[j]);
                }
            }
        }
    }
}

/// Whatever incident is received, the cameras handed back to be published
/// match the cameras that changed state one to one: each camera that
/// changed state is handed back exactly once, as it is after the change,
/// and no other camera is.
pub proof fn lemma_manage_incident_one_message_per_change(
    logic: CamerasLogicView,
    incident: Incident,
    distances: Seq<(u8, u64)>,
)
    requires
        logic.wf(),
    ensures
        exists|who: Seq<int>|
            spec_one_message_per_change(
                logic.cameras,
                logic.spec_manage_incident(incident, distances).0.cameras,
                logic.spec_manage_incident(incident, distances).1,
                who,
            ),
{
    let info = incident.spec_info();
    let (after, published) = logic.spec_manage_incident(incident, distances);
    let managed = logic.incs_being_managed.contains_key(info);
    let resolved = incident.state == IncidentState::ResolvedIncident;
    if managed == resolved {
        let ids = if managed {
            logic.incs_being_managed[info]
        } else {
            spec_followers(logic.cameras, distances)
        };
        lemma_change_all_one_message_per_change(logic.cameras, info, ids, !managed);
        let who = spec_publishers(logic.cameras, info, ids, !managed);
        assert(spec_one_message_per_change(logic.cameras, after.cameras, published, who));
    } else {
        let who = Seq::<int>::empty();
        assert(spec_one_message_per_change(logic.cameras, after.cameras, published, who));
    }
}

} // verus!
