use rustx::apps::incident_data::incident::{Incident, IncidentState};
use rustx::apps::incident_data::incident_info::{IncidentInfo, IncidentSource};
use rustx::apps::sist_camaras::camera::{Camera, CameraState};
use rustx::apps::sist_camaras::sistema_camaras_logic::CamerasLogic;
use rustx::mqtt::mqtt_error::MqttError;

fn bits(value: f64) -> u64 {
    value.to_bits()
}

fn info(id: u8) -> IncidentInfo {
    IncidentInfo::new(id, IncidentSource::Manual)
}

fn two_cameras() -> CamerasLogic {
    let c1 = Camera::new(1, bits(-34.0), bits(-58.0), bits(5.0), vec![2]);
    let c2 = Camera::new(2, bits(-34.5), bits(-58.5), bits(5.0), vec![]);
    CamerasLogic::new(vec![c1, c2]).unwrap()
}

fn near_first_only() -> Vec<(u8, u64)> {
    vec![(1, bits(3.0)), (2, bits(40.0))]
}

fn states(logic: &CamerasLogic) -> Vec<CameraState> {
    logic.cameras().iter().map(|camera| camera.get_state()).collect()
}

#[test]
fn incident_wakes_the_camera_in_range_and_its_neighbour() {
    let mut logic = two_cameras();
    let incident = Incident::new(7, bits(-34.01), bits(-58.01), IncidentSource::Manual);
    let published = logic.manage_incident(incident, &near_first_only());
    assert_eq!(published.len(), 2);
    assert_eq!(published[0], logic.cameras()[0].to_bytes());
    assert_eq!(published[1], logic.cameras()[1].to_bytes());
    assert_eq!(published[0][0], 1);
    assert_eq!(published[0][25], 1);
    assert_eq!(published[1][0], 2);
    assert_eq!(published[1][25], 1);
    assert_eq!(states(&logic), vec![CameraState::Active, CameraState::Active]);
    assert!(logic.is_being_managed(info(7)));

    let mut resolved = incident;
    resolved.set_resolved();
    let published = logic.manage_incident(resolved, &near_first_only());
    assert_eq!(published.len(), 2);
    assert_eq!(published[0][0], 1);
    assert_eq!(published[0][25], 2);
    assert_eq!(published[1][0], 2);
    assert_eq!(published[1][25], 2);
    assert_eq!(states(&logic), vec![CameraState::SavingMode, CameraState::SavingMode]);
    assert!(!logic.is_being_managed(info(7)));

    let published = logic.manage_incident(resolved, &near_first_only());
    assert_eq!(published, Vec::<Vec<u8>>::new());
    assert_eq!(states(&logic), vec![CameraState::SavingMode, CameraState::SavingMode]);
}

#[test]
fn incident_received_again_changes_nothing() {
    let mut logic = two_cameras();
    let incident = Incident::new(7, bits(0.0), bits(0.0), IncidentSource::Manual);
    assert_eq!(logic.manage_incident(incident, &near_first_only()).len(), 2);
    assert_eq!(logic.manage_incident(incident, &near_first_only()), Vec::<Vec<u8>>::new());
    assert_eq!(logic.cameras()[0].get_incs_being_managed(), &vec![info(7)]);
}

#[test]
fn camera_stays_active_while_another_incident_lasts() {
    let mut logic = two_cameras();
    let first = Incident::new(7, bits(0.0), bits(0.0), IncidentSource::Manual);
    let second = Incident::new(8, bits(0.0), bits(0.0), IncidentSource::Automated);
    assert_eq!(logic.manage_incident(first, &near_first_only()).len(), 2);
    assert_eq!(logic.manage_incident(second, &vec![(2, bits(1.0))]), Vec::<Vec<u8>>::new());
    let mut resolved = first;
    resolved.set_resolved();
    let published = logic.manage_incident(resolved, &vec![]);
    assert_eq!(published.len(), 1);
    assert_eq!(published[0][0], 1);
    assert_eq!(states(&logic), vec![CameraState::SavingMode, CameraState::Active]);
    assert_eq!(
        logic.cameras()[1].get_incs_being_managed(),
        &vec![IncidentInfo::new(8, IncidentSource::Automated)]
    );
}

#[test]
fn incident_out_of_every_range_wakes_nobody() {
    let mut logic = two_cameras();
    let incident = Incident::new(7, bits(0.0), bits(0.0), IncidentSource::Manual);
    let far = vec![(1, bits(5.5)), (2, bits(40.0)), (9, bits(0.0))];
    assert_eq!(logic.manage_incident(incident, &far), Vec::<Vec<u8>>::new());
    assert!(logic.is_being_managed(info(7)));
    assert_eq!(logic.get_id_of_cams_that_will_change_state_to_active(&far), Vec::<u8>::new());
    assert_eq!(
        logic.get_id_of_cams_that_will_change_state_to_active(&vec![(2, bits(5.0)), (1, bits(0.0))]),
        vec![1, 2, 2]
    );
}

#[test]
fn resolved_incident_seen_for_the_first_time_is_passed_over() {
    let mut logic = two_cameras();
    let mut incident = Incident::new(7, bits(0.0), bits(0.0), IncidentSource::Manual);
    incident.set_resolved();
    assert_eq!(logic.manage_incident(incident, &near_first_only()), Vec::<Vec<u8>>::new());
    assert!(!logic.is_being_managed(info(7)));
    assert_eq!(logic.process_first_time_incident(incident, &near_first_only()), Vec::<Vec<u8>>::new());
}

#[test]
fn neighbour_reached_twice_is_published_once() {
    let c1 = Camera::new(1, 0, 0, bits(5.0), vec![3]);
    let c2 = Camera::new(2, 0, 0, bits(5.0), vec![3, 9]);
    let c3 = Camera::new(3, 0, 0, bits(5.0), vec![]);
    let mut logic = CamerasLogic::new(vec![c1, c2, c3]).unwrap();
    let incident = Incident::new(1, 0, 0, IncidentSource::Automated);
    let published = logic.manage_incident(incident, &vec![(1, bits(1.0)), (2, bits(2.0))]);
    let ids: Vec<u8> = published.iter().map(|bytes| bytes[0]).collect();
    assert_eq!(ids, vec![1, 3, 2]);
}

#[test]
fn fleet_with_a_repeated_identifier_is_a_malformed_configuration() {
    let c1 = Camera::new(1, 0, 0, 0, vec![]);
    let c2 = Camera::new(1, 1, 1, 1, vec![]);
    assert!(matches!(CamerasLogic::new(vec![c1, c2]), Err(MqttError::Config)));
    assert!(CamerasLogic::new(vec![]).is_ok());
}

#[test]
fn camera_is_active_exactly_while_it_attends_an_incident() {
    let mut camera = Camera::new(1, 0, 0, 0, vec![]);
    assert_eq!(camera.get_state(), CameraState::SavingMode);
    assert!(camera.append_to_incs_being_managed(info(1)));
    assert_eq!(camera.get_state(), CameraState::Active);
    assert!(!camera.append_to_incs_being_managed(info(1)));
    assert!(!camera.append_to_incs_being_managed(info(2)));
    assert!(camera.is_managing(info(2)));
    assert!(!camera.remove_from_incs_being_managed(info(3)));
    assert!(!camera.remove_from_incs_being_managed(info(1)));
    assert_eq!(camera.get_state(), CameraState::Active);
    assert!(camera.remove_from_incs_being_managed(info(2)));
    assert_eq!(camera.get_state(), CameraState::SavingMode);
    assert!(!camera.remove_from_incs_being_managed(info(2)));
}

#[test]
fn camera_sees_up_to_its_range() {
    let camera = Camera::new(1, bits(1.5), bits(-2.5), bits(10.0), vec![4, 5]);
    assert!(camera.will_register(bits(0.0)));
    assert!(camera.will_register(bits(10.0)));
    assert!(!camera.will_register(bits(10.000001)));
    assert!(!camera.will_register(bits(f64::NAN)));
    assert!(!camera.will_register(bits(-1.0)));
    for no_length in [bits(-5.0), bits(f64::NAN)] {
        let blind = Camera::new(2, 0, 0, no_length, vec![]);
        assert!(!blind.will_register(bits(0.0)));
        assert!(!blind.will_register(bits(1.0)));
    }
    assert!(Camera::new(3, 0, 0, bits(f64::INFINITY), vec![]).will_register(bits(1e300)));
    assert_eq!(camera.get_id(), 1);
    assert_eq!(camera.get_position(), (bits(1.5), bits(-2.5)));
    assert_eq!(camera.get_range(), bits(10.0));
    assert_eq!(camera.get_bordering_cams(), &vec![4, 5]);
}

#[test]
fn camera_is_serialized_field_by_field() {
    let mut camera = Camera::new(9, bits(1.5), bits(-2.5), bits(10.0), vec![4]);
    let mut expected = vec![9u8];
    expected.extend_from_slice(&1.5f64.to_le_bytes());
    expected.extend_from_slice(&(-2.5f64).to_le_bytes());
    expected.extend_from_slice(&10.0f64.to_le_bytes());
    expected.extend_from_slice(&[2, 0, 0]);
    assert_eq!(camera.to_bytes(), expected);
    camera.append_to_incs_being_managed(IncidentInfo::new(3, IncidentSource::Automated));
    camera.append_to_incs_being_managed(IncidentInfo::new(200, IncidentSource::Manual));
    expected.truncate(25);
    expected.extend_from_slice(&[1, 2, 0, 3, 2, 200, 1]);
    assert_eq!(camera.to_bytes(), expected);
    let back = Camera::from_bytes(&expected).unwrap();
    assert_eq!(back.get_id(), 9);
    assert_eq!(back.get_position(), (bits(1.5), bits(-2.5)));
    assert_eq!(back.get_state(), CameraState::Active);
    assert_eq!(back.get_incs_being_managed(), camera.get_incs_being_managed());
    assert_eq!(back.get_bordering_cams(), &Vec::<u8>::new());
    assert_eq!(back.to_bytes(), expected);
}

#[test]
fn malformed_camera_bytes_are_refused() {
    let camera = Camera::new(9, 1, 2, 3, vec![]);
    let good = camera.to_bytes();
    assert!(Camera::from_bytes(&good).is_ok());
    let violation = Err(MqttError::ProtocolViolation);
    assert_eq!(Camera::from_bytes(&good[..27].to_vec()), violation);
    let mut wrong_state = good.clone();
    wrong_state[25] = 1;
    assert_eq!(Camera::from_bytes(&wrong_state), violation);
    let mut wrong_count = good.clone();
    wrong_count[26] = 1;
    assert_eq!(Camera::from_bytes(&wrong_count), violation);
    let mut twice = good.clone();
    twice[25] = 1;
    twice[26] = 2;
    twice.extend_from_slice(&[5, 1, 5, 1]);
    assert_eq!(Camera::from_bytes(&twice), violation);
    let mut no_source = good.clone();
    no_source[25] = 1;
    no_source[26] = 1;
    no_source.extend_from_slice(&[5, 0]);
    assert_eq!(Camera::from_bytes(&no_source), violation);
}

#[test]
fn incident_is_serialized_field_by_field() {
    let mut incident = Incident::new(5, bits(-34.6), bits(-58.4), IncidentSource::Automated);
    let mut expected = vec![5u8];
    expected.extend_from_slice(&(-34.6f64).to_le_bytes());
    expected.extend_from_slice(&(-58.4f64).to_le_bytes());
    expected.extend_from_slice(&[1, 2]);
    assert_eq!(incident.to_bytes(), expected);
    assert_eq!(Incident::from_bytes(&expected), Ok(incident));
    assert!(!incident.is_resolved());
    incident.set_resolved();
    assert!(incident.is_resolved());
    assert_eq!(incident.state, IncidentState::ResolvedIncident);
    assert_eq!(incident.to_bytes()[17], 2);
    assert_eq!(Incident::from_bytes(&incident.to_bytes()), Ok(incident));
    assert_eq!(incident.get_id(), 5);
    assert_eq!(incident.get_position(), (bits(-34.6), bits(-58.4)));
    assert_eq!(incident.get_info(), IncidentInfo::new(5, IncidentSource::Automated));
}

#[test]
fn malformed_incident_bytes_are_refused() {
    let good = Incident::new(5, 1, 2, IncidentSource::Manual).to_bytes();
    let violation = Err(MqttError::ProtocolViolation);
    assert_eq!(Incident::from_bytes(&good[..18].to_vec()), violation);
    let mut wrong_state = good.clone();
    wrong_state[17] = 0;
    assert_eq!(Incident::from_bytes(&wrong_state), violation);
    let mut wrong_source = good.clone();
    wrong_source[18] = 3;
    assert_eq!(Incident::from_bytes(&wrong_source), violation);
}

#[test]
fn incident_info_tells_incidents_apart() {
    let manual = IncidentInfo::new(3, IncidentSource::Manual);
    let automated = IncidentInfo::new(3, IncidentSource::Automated);
    assert_ne!(manual, automated);
    assert_eq!(manual.key(), 3 * 256 + 1);
    assert_eq!(automated.key(), 3 * 256 + 2);
    assert_eq!(manual.get_inc_id(), 3);
    assert_eq!(automated.get_src(), IncidentSource::Automated);
    assert_eq!(IncidentSource::from_byte(1), Some(IncidentSource::Manual));
    assert_eq!(IncidentSource::from_byte(0), None);
    assert_eq!(IncidentSource::Automated.to_byte(), 2);
}
