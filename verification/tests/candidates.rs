use lso::candidates::{
    carrier_from_attributes, check_candidate, compatible_carriers, plane_candidate, reject_removed_web_flags,
    Candidate, CandidateCheck, CarrierCandidate, DiscoveredUnit, GroupCategory, NetworkPlayer,
    UnitRegistry,
};
use lso::data::{AirplaneInfo, CarrierInfo};
use lso::outcome::PilotKind;

fn unit(id: u32, name: &str, player_name: Option<&str>) -> DiscoveredUnit {
    DiscoveredUnit {
        id,
        name: name.to_string(),
        unit_type: Some("FA-18C_hornet".to_string()),
        player_name: player_name.map(ToOwned::to_owned),
    }
}

fn player(name: &str, ucid: &str, slot: &str) -> NetworkPlayer {
    NetworkPlayer {
        name: name.to_string(),
        ucid: ucid.to_string(),
        slot: slot.to_string(),
    }
}

#[test]
fn homonyms_are_resolved_by_slot_not_display_name() {
    let players = [
        player("SameName", "ucid-a", "101"),
        player("SameName", "ucid-b", "102"),
    ];
    let info = AirplaneInfo::by_type("FA-18C_hornet").unwrap();

    let first = plane_candidate(&unit(101, "Hornet-1", Some("SameName")), info, &players, 7);
    let second = plane_candidate(&unit(102, "Hornet-2", Some("SameName")), info, &players, 7);

    assert_eq!(first.pilot_ucid.as_deref(), Some("ucid-a"));
    assert_eq!(second.pilot_ucid.as_deref(), Some("ucid-b"));
    assert_ne!(first.pilot_identity, second.pilot_identity);
}

#[test]
fn ai_and_respawns_get_session_scoped_internal_identities() {
    let info = AirplaneInfo::by_type("FA-18C_hornet").unwrap();
    let ai = plane_candidate(&unit(200, "AI-1", None), info, &[], 7);
    let respawn = plane_candidate(&unit(201, "AI-1", None), info, &[], 7);

    assert_eq!(ai.pilot_kind, PilotKind::Ai);
    assert!(ai.pilot_ucid.is_none());
    assert_ne!(ai.pilot_identity, respawn.pilot_identity);
}

#[test]
fn human_slot_change_keeps_ucid_but_changes_unit_correlation() {
    let info = AirplaneInfo::by_type("FA-18C_hornet").unwrap();
    let first_players = [player("Pilot", "stable-ucid", "301")];
    let second_players = [player("Pilot", "stable-ucid", "302")];
    let first = plane_candidate(
        &unit(301, "Hornet-1", Some("Pilot")),
        info,
        &first_players,
        7,
    );
    let second = plane_candidate(
        &unit(302, "Hornet-2", Some("Pilot")),
        info,
        &second_players,
        7,
    );

    assert_eq!(first.pilot_identity, second.pilot_identity);
    assert_ne!(first.id, second.id);
}

#[test]
fn removed_web_flags_are_refused_with_guidance() {
    let err = reject_removed_web_flags(Some(8080), false).expect_err("removed flag must be refused");
    assert!(err.contains("DCS Web Dashboard"), "{err}");

    assert!(reject_removed_web_flags(None, true).is_err());

    assert!(reject_removed_web_flags(None, false).is_ok());
}

#[test]
fn registry_replaces_units_by_id_and_keeps_both_kinds() {
    let mut registry = UnitRegistry::default();
    let info = AirplaneInfo::by_type("FA-18C_hornet").unwrap();
    registry.planes.insert(
        1,
        plane_candidate(&unit(1, "Hornet-1", Some("A")), info, &[], 1),
    );
    registry.planes.insert(
        1,
        plane_candidate(&unit(1, "Hornet-1", Some("B")), info, &[], 1),
    );
    registry.carriers.insert(
        5,
        CarrierCandidate {
            id: 5,
            name: "CVN".to_string(),
            carrier_type: "CVN_71".to_string(),
            carrier_info: CarrierInfo::by_type("CVN_71").unwrap(),
        },
    );
    assert_eq!(registry.planes.len(), 1);
    assert_eq!(registry.planes[&1].pilot_name, "B");
    assert_eq!(registry.carriers.len(), 1);
}

#[test]
fn identities_have_the_documented_shapes() {
    let info = AirplaneInfo::by_type("FA-18C_hornet").unwrap();
    let ai = plane_candidate(&unit(200, "AI-1", None), info, &[], -4);
    assert_eq!(ai.pilot_identity, "ai:-4:200");
    assert_eq!(ai.pilot_name, "AI-1");
    assert_eq!(ai.plane_type, "FA-18C_hornet");
    let unresolved = plane_candidate(&unit(12, "Hornet", Some("Solo")), info, &[], 9);
    assert_eq!(unresolved.pilot_kind, PilotKind::Human);
    assert_eq!(unresolved.pilot_identity, "human-unresolved:9:12");
    assert_eq!(unresolved.pilot_name, "Solo");
}

#[test]
fn the_slot_may_name_the_unit_and_names_are_trimmed() {
    let info = AirplaneInfo::by_type("FA-18C_hornet").unwrap();
    let players = [player("  Maverick \t", "  ", "Hornet-7")];
    let candidate = plane_candidate(&unit(7, "Hornet-7", None), info, &players, 1);
    assert_eq!(candidate.pilot_kind, PilotKind::Human);
    assert_eq!(candidate.pilot_name, "Maverick");
    assert_eq!(candidate.pilot_ucid, None);
    assert_eq!(candidate.pilot_identity, "human-unresolved:1:7");

    let blank = [player("   ", "u-1", "7")];
    let candidate = plane_candidate(&unit(7, "Hornet-7", None), info, &blank, 1);
    assert_eq!(candidate.pilot_name, "Hornet-7");
    assert_eq!(candidate.pilot_identity, "u-1");
    let mut untyped = unit(8, "X", None);
    untyped.unit_type = None;
    assert_eq!(plane_candidate(&untyped, info, &[], 1).plane_type, "");
}

#[test]
fn player_aircraft_of_a_supported_type_are_candidates() {
    let hornet = AirplaneInfo::by_type("FA-18C_hornet").unwrap();
    assert_eq!(
        check_candidate(Some(GroupCategory::Airplane), true, false, Some("FA-18C_hornet")),
        CandidateCheck::Decided(Some(Candidate::Plane(hornet)))
    );
    assert_eq!(
        check_candidate(Some(GroupCategory::Airplane), true, false, Some("Su-27")),
        CandidateCheck::Decided(None)
    );
    assert_eq!(
        check_candidate(Some(GroupCategory::Airplane), true, false, None),
        CandidateCheck::Decided(None)
    );
}

#[test]
fn ai_aircraft_are_candidates_only_when_included() {
    let tomcat = AirplaneInfo::by_type("F-14B").unwrap();
    assert_eq!(
        check_candidate(Some(GroupCategory::Airplane), false, false, Some("F-14B")),
        CandidateCheck::Decided(None)
    );
    assert_eq!(
        check_candidate(Some(GroupCategory::Airplane), false, true, Some("F-14B")),
        CandidateCheck::Decided(Some(Candidate::Plane(tomcat)))
    );
}

#[test]
fn ships_need_their_descriptor_and_other_units_are_ignored() {
    assert_eq!(
        check_candidate(Some(GroupCategory::Ship), false, false, Some("CVN_71")),
        CandidateCheck::NeedsDescriptor
    );
    assert_eq!(
        check_candidate(Some(GroupCategory::Other), true, true, Some("FA-18C_hornet")),
        CandidateCheck::Decided(None)
    );
    assert_eq!(check_candidate(None, true, true, Some("FA-18C_hornet")), CandidateCheck::Decided(None));
}

#[test]
fn a_ship_is_a_carrier_only_with_a_carrier_attribute_and_a_known_type() {
    let arrested = vec!["Ships".to_string(), "AircraftCarrier With Arresting Gear".to_string()];
    let ski_jump = vec!["AircraftCarrier With Tramplin".to_string()];
    let plain = vec!["Ships".to_string(), "AircraftCarrier".to_string()];
    assert_eq!(
        carrier_from_attributes(&arrested, Some("CVN_71")),
        Some(Candidate::Carrier(CarrierInfo::by_type("CVN_71").unwrap()))
    );
    assert_eq!(
        carrier_from_attributes(&ski_jump, Some("LHA_Tarawa")),
        Some(Candidate::Carrier(CarrierInfo::by_type("LHA_Tarawa").unwrap()))
    );
    assert_eq!(carrier_from_attributes(&plain, Some("CVN_71")), None);
    assert_eq!(carrier_from_attributes(&arrested, Some("Kuznetsov")), None);
    assert_eq!(carrier_from_attributes(&arrested, None), None);
    assert_eq!(carrier_from_attributes(&Vec::new(), Some("CVN_71")), None);
}

fn carrier(id: u32, carrier_type: &str) -> CarrierCandidate {
    CarrierCandidate {
        id,
        name: format!("carrier-{id}"),
        carrier_type: carrier_type.to_string(),
        carrier_info: CarrierInfo::by_type(carrier_type).unwrap(),
    }
}

#[test]
fn a_unit_no_longer_found_is_forgotten_and_the_others_stay() {
    let mut registry = UnitRegistry::default();
    let info = AirplaneInfo::by_type("FA-18C_hornet").unwrap();
    registry.planes.insert(1, plane_candidate(&unit(1, "Hornet-1", Some("A")), info, &[], 1));
    registry.planes.insert(2, plane_candidate(&unit(2, "Hornet-2", Some("B")), info, &[], 1));
    registry.carriers.insert(5, carrier(5, "CVN_71"));
    registry.forget(1);
    registry.forget(5);
    registry.forget(9);
    assert_eq!(registry.planes.len(), 1);
    assert!(registry.planes.contains_key(&2));
    assert!(registry.carriers.is_empty());
}

#[test]
fn only_compatible_carriers_are_considered_for_an_aircraft() {
    let carriers = vec![carrier(1, "LHA_Tarawa"), carrier(2, "CVN_71"), carrier(3, "Forrestal")];
    assert_eq!(compatible_carriers("FA-18C_hornet", &carriers), vec![1, 2]);
    assert_eq!(compatible_carriers("AV8BNA", &carriers), vec![0]);
    assert_eq!(compatible_carriers("Su-33", &carriers), Vec::<usize>::new());
}
