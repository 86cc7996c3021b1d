use rustx::apps::incident_data::incident::Incident;
use rustx::apps::incident_data::incident_info::{IncidentInfo, IncidentSource};
use rustx::apps::sist_dron::dron::{BatteryAction, Dron, DronAction};
use rustx::apps::sist_dron::dron_current_info::DronCurrentInfo;
use rustx::apps::sist_dron::dron_logic::{
    decide_if_should_move_to_incident, first_index_of, record_distance,
};
use rustx::apps::sist_dron::dron_state::DronState;
use rustx::apps::sist_dron::sist_dron_properties::{SistDronProperties, DEFAULT_MAX_IN_FLIGHT};
use rustx::mqtt::mqtt_error::MqttError;

fn bits(value: f64) -> u64 {
    value.to_bits()
}

fn properties() -> SistDronProperties {
    SistDronProperties {
        range_center_lat: bits(0.0),
        range_center_lon: bits(0.0),
        range: bits(50.0),
        maintenance_lat: bits(-34.7),
        maintenance_lon: bits(-58.5),
        maintenance_threshold: 20,
        low_battery_threshold: 30,
        charging_rate: 30,
        drain_per_step: 25,
        max_in_flight: DEFAULT_MAX_IN_FLIGHT,
        speed: bits(2.0),
    }
}

fn create_dron_4() -> Dron {
    let lat = -34.60282;
    let lon = -58.38730;
    Dron::new(4, bits(lat), bits(lon), properties(), 1).unwrap()
}

fn incident() -> Incident {
    Incident::new(1, bits(-34.6), bits(-58.4), IncidentSource::Manual)
}

#[test]
fn test_1_dron_se_inicia_con_id_y_estado_correctos() {
    let dron = create_dron_4();

    assert_eq!(dron.get_id(), 4);
    assert_eq!(dron.get_state(), DronState::ExpectingToRecvIncident);
}

#[test]
fn test_2_dron_se_inicia_con_posicion_correcta() {
    let dron = create_dron_4();

    assert_eq!(
        dron.get_current_position(),
        dron.get_properties().get_range_center_position()
    );
}

#[test]
fn dron_starts_with_a_full_battery_at_the_given_place() {
    let dron = create_dron_4();
    assert_eq!(
        dron.get_current_info(),
        DronCurrentInfo::new(
            4,
            bits(-34.60282),
            bits(-58.38730),
            100,
            DronState::ExpectingToRecvIncident
        )
    );
    assert_eq!(dron.get_qos(), 1);
    assert_eq!(dron.get_properties().max_in_flight, 2);
    assert_eq!(dron.flight_target(), None);
}

#[test]
fn malformed_dron_configuration_is_refused() {
    let mut wrong = properties();
    wrong.maintenance_threshold = 101;
    assert!(matches!(Dron::new(1, 0, 0, wrong, 1), Err(MqttError::Config)));
    assert_eq!(wrong.validate(), Err(MqttError::Config));
    let mut wrong = properties();
    wrong.charging_rate = 0;
    assert!(matches!(Dron::new(1, 0, 0, wrong, 1), Err(MqttError::Config)));
    assert!(matches!(Dron::new(1, 0, 0, properties(), 2), Err(MqttError::Config)));
    assert_eq!(properties().validate(), Ok(()));
    for no_length in [bits(-1.0), bits(-0.0), bits(f64::NAN), u64::MAX] {
        let mut wrong = properties();
        wrong.range = no_length;
        assert_eq!(wrong.validate(), Err(MqttError::Config));
        let mut wrong = properties();
        wrong.speed = no_length;
        assert!(matches!(Dron::new(1, 0, 0, wrong, 1), Err(MqttError::Config)));
    }
    let mut widest = properties();
    widest.range = bits(f64::INFINITY);
    widest.speed = bits(0.0);
    assert_eq!(widest.validate(), Ok(()));
}

#[test]
fn nearest_two_of_three_drones_fly() {
    let mut drones: Vec<Dron> = (1u8..=3).map(|id| Dron::new(id, 0, 0, properties(), 1).unwrap()).collect();
    let distances = [(1u8, bits(10.0)), (2u8, bits(20.0)), (3u8, bits(30.0))];
    let info = incident().get_info();
    for (n, dron) in drones.iter_mut().enumerate() {
        let action = dron.process_incident(incident(), bits(5.0), distances[n].1);
        assert_eq!(action, DronAction::JoinElection);
        for (peer, distance) in distances {
            if peer != dron.get_id() {
                dron.process_peer_info(info, peer, distance);
            }
        }
    }
    let elected: Vec<bool> = drones.iter_mut().map(|dron| dron.close_election(info)).collect();
    assert_eq!(elected, vec![true, true, false]);
    let states: Vec<DronState> = drones.iter().map(|dron| dron.get_state()).collect();
    assert_eq!(
        states,
        vec![
            DronState::FlyingToIncident,
            DronState::FlyingToIncident,
            DronState::ExpectingToRecvIncident
        ]
    );
    assert_eq!(drones[0].flight_target(), Some((bits(-34.6), bits(-58.4))));
}

#[test]
fn election_ranks_by_distance_then_by_identifier() {
    let distances = vec![(5u8, bits(7.0)), (2, bits(7.0)), (9, bits(1.0)), (1, bits(8.0))];
    assert!(decide_if_should_move_to_incident(&distances, 9, 1));
    assert!(!decide_if_should_move_to_incident(&distances, 2, 1));
    assert!(decide_if_should_move_to_incident(&distances, 2, 2));
    assert!(!decide_if_should_move_to_incident(&distances, 5, 2));
    assert!(decide_if_should_move_to_incident(&distances, 5, 3));
    assert!(!decide_if_should_move_to_incident(&distances, 1, 3));
    assert!(decide_if_should_move_to_incident(&distances, 1, 4));
    assert!(!decide_if_should_move_to_incident(&distances, 3, 4));
    assert!(!decide_if_should_move_to_incident(&distances, 9, 0));
    assert!(!decide_if_should_move_to_incident(&vec![], 9, 2));
}

#[test]
fn distance_of_a_dron_is_kept_once() {
    let mut distances = vec![(1u8, 10u64), (2, 20)];
    record_distance(&mut distances, 3, 30);
    assert_eq!(distances, vec![(1, 10), (2, 20), (3, 30)]);
    record_distance(&mut distances, 2, 5);
    assert_eq!(distances, vec![(1, 10), (2, 5), (3, 30)]);
    assert_eq!(first_index_of(&distances, 3), 2);
    assert_eq!(first_index_of(&distances, 4), 3);
}

#[test]
fn incident_out_of_range_is_passed_over() {
    let mut dron = create_dron_4();
    assert_eq!(dron.process_incident(incident(), bits(50.5), bits(1.0)), DronAction::Ignore);
    assert!(!dron.close_election(incident().get_info()));
    assert_eq!(dron.process_incident(incident(), bits(50.0), bits(1.0)), DronAction::JoinElection);
    assert!(dron.close_election(incident().get_info()));
}

#[test]
fn peer_of_an_unknown_incident_is_passed_over() {
    let mut dron = create_dron_4();
    let info = IncidentInfo::new(9, IncidentSource::Automated);
    dron.process_peer_info(info, 1, bits(1.0));
    assert!(!dron.close_election(info));
    assert_eq!(dron.get_state(), DronState::ExpectingToRecvIncident);
}

#[test]
fn flight_goes_step_by_step_and_snaps_to_the_target() {
    let mut dron = create_dron_4();
    assert!(!dron.fly_step(bits(0.0), (1, 1)));
    dron.process_incident(incident(), bits(1.0), bits(3.5));
    assert!(dron.close_election(incident().get_info()));
    assert!(dron.fly_step(bits(3.5), (bits(-34.601), bits(-58.39))));
    assert_eq!(dron.get_current_position(), (bits(-34.601), bits(-58.39)));
    assert_eq!(dron.get_state(), DronState::FlyingToIncident);
    assert!(dron.fly_step(bits(2.0), (bits(-34.6005), bits(-58.395))));
    assert_eq!(dron.get_state(), DronState::FlyingToIncident);
    assert!(dron.fly_step(bits(1.5), (bits(-99.0), bits(-99.0))));
    assert_eq!(dron.get_current_position(), (bits(-34.6), bits(-58.4)));
    assert_eq!(dron.get_state(), DronState::AtIncident);
    assert!(!dron.fly_step(bits(0.0), (1, 1)));

    let mut resolved = incident();
    resolved.set_resolved();
    let other = Incident::new(2, 0, 0, IncidentSource::Manual);
    let mut other_resolved = other;
    other_resolved.set_resolved();
    assert_eq!(dron.process_incident(other_resolved, 0, 0), DronAction::Ignore);
    assert_eq!(dron.get_state(), DronState::AtIncident);
    assert_eq!(dron.process_incident(resolved, 0, 0), DronAction::PublishCurrentInfo);
    assert_eq!(dron.get_state(), DronState::ReturningToBase);
    assert_eq!(dron.flight_target(), Some((bits(-34.60282), bits(-58.38730))));
    assert!(dron.fly_step(bits(0.5), (1, 1)));
    assert_eq!(dron.get_state(), DronState::ExpectingToRecvIncident);
    assert_eq!(dron.get_current_position(), (bits(-34.60282), bits(-58.38730)));
}

#[test]
fn low_battery_interrupts_and_charging_brings_the_dron_back() {
    let mut dron = create_dron_4();
    dron.process_incident(incident(), bits(1.0), bits(3.5));
    assert!(dron.close_election(incident().get_info()));
    assert_eq!(dron.update_battery(), BatteryAction::Nothing);
    assert_eq!(dron.get_current_info().get_battery_lvl(), 75);
    assert_eq!(dron.update_battery(), BatteryAction::Nothing);
    assert_eq!(dron.update_battery(), BatteryAction::Nothing);
    assert_eq!(dron.get_current_info().get_battery_lvl(), 25);
    assert_eq!(dron.update_battery(), BatteryAction::GoToMaintenance);
    assert_eq!(dron.get_current_info().get_battery_lvl(), 0);
    assert_eq!(dron.get_state(), DronState::Maintenance);
    assert_eq!(dron.flight_target(), Some((bits(-34.7), bits(-58.5))));
    assert_eq!(dron.update_battery(), BatteryAction::Nothing);
    assert_eq!(dron.get_state(), DronState::Maintenance);
    assert!(dron.fly_step(bits(1.0), (7, 7)));
    assert_eq!(dron.get_state(), DronState::Charging);
    assert_eq!(dron.get_current_position(), (bits(-34.7), bits(-58.5)));
    assert_eq!(dron.update_battery(), BatteryAction::Nothing);
    assert_eq!(dron.get_current_info().get_battery_lvl(), 30);
    assert_eq!(dron.update_battery(), BatteryAction::Nothing);
    assert_eq!(dron.update_battery(), BatteryAction::Nothing);
    assert_eq!(dron.get_current_info().get_battery_lvl(), 90);
    assert_eq!(dron.update_battery(), BatteryAction::FullyCharged);
    assert_eq!(dron.get_current_info().get_battery_lvl(), 100);
    assert_eq!(dron.get_state(), DronState::ExpectingToRecvIncident);
    assert_eq!(dron.get_current_position(), (bits(-34.60282), bits(-58.38730)));
}

#[test]
fn current_info_is_serialized_field_by_field() {
    let info = DronCurrentInfo::new(4, bits(-34.6), bits(-58.4), 87, DronState::AtIncident);
    let mut expected = vec![4u8];
    expected.extend_from_slice(&(-34.6f64).to_le_bytes());
    expected.extend_from_slice(&(-58.4f64).to_le_bytes());
    expected.extend_from_slice(&[87, 3]);
    assert_eq!(info.to_bytes(), expected);
    assert_eq!(DronCurrentInfo::from_bytes(&expected), Ok(info));
    assert_eq!(info.get_id(), 4);
    assert_eq!(info.get_current_position(), (bits(-34.6), bits(-58.4)));
    assert_eq!(info.get_state(), DronState::AtIncident);
    assert_eq!(DronCurrentInfo::new(1, 0, 0, 250, DronState::Charging).get_battery_lvl(), 100);
}

#[test]
fn malformed_current_info_bytes_are_refused() {
    let good = DronCurrentInfo::new(4, 1, 2, 87, DronState::Charging).to_bytes();
    let violation = Err(MqttError::ProtocolViolation);
    assert_eq!(DronCurrentInfo::from_bytes(&good[..18].to_vec()), violation);
    let mut wrong_battery = good.clone();
    wrong_battery[17] = 101;
    assert_eq!(DronCurrentInfo::from_bytes(&wrong_battery), violation);
    let mut wrong_state = good.clone();
    wrong_state[18] = 7;
    assert_eq!(DronCurrentInfo::from_bytes(&wrong_state), violation);
}

#[test]
fn dron_states_are_their_bytes() {
    let states = [
        DronState::ExpectingToRecvIncident,
        DronState::FlyingToIncident,
        DronState::AtIncident,
        DronState::ReturningToBase,
        DronState::Charging,
        DronState::Maintenance,
    ];
    for (n, state) in states.iter().enumerate() {
        assert_eq!(state.to_byte(), n as u8 + 1);
        assert_eq!(DronState::from_byte(n as u8 + 1), Some(*state));
    }
    assert_eq!(DronState::from_byte(0), None);
    assert_eq!(DronState::from_byte(7), None);
}

#[test]
fn range_center_can_be_moved() {
    let mut props = properties();
    props.set_range_center_position(5, 6);
    assert_eq!(props.get_range_center_position(), (5, 6));
    assert_eq!(props.get_maintenance_position(), (bits(-34.7), bits(-58.5)));
}
