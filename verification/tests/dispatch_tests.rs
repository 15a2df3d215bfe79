use kasa_gateway::codec::encrypt;
use kasa_gateway::config::{get_config_location, load_config, Config, ConfigLocation};
use kasa_gateway::dispatch::{
    handle_command_input, DataThread, DataThreadCommand, DataThreadResponse, PresetCommand,
    RelayCommand, RelayCommands, ResponseValue, TagCommand, WorkerAction, WorkerEvent,
};
use kasa_gateway::external_route;
use kasa_gateway::presets::Preset;
use kasa_gateway::relays::{KasaPlug, RelayType};

fn plug(name: &str, room: &str, tags: Vec<&str>) -> RelayType {
    RelayType::KasaPlug(KasaPlug::new(
        "192.168.0.10".to_string(),
        name.to_string(),
        room.to_string(),
        tags.into_iter().map(|t| t.to_string()).collect(),
    ))
}

fn plug_with_status(name: &str, room: &str, status: bool) -> RelayType {
    RelayType::KasaPlug(KasaPlug {
        ip: "192.168.0.10".to_string(),
        name: name.to_string(),
        status,
        room: room.to_string(),
        tags: vec![],
    })
}

fn preset(name: &str, relays: Vec<(&str, bool)>) -> Preset {
    Preset {
        name: name.to_string(),
        enabled: true,
        relays: relays.into_iter().map(|(n, v)| (n.to_string(), v)).collect(),
    }
}

fn ack_frame() -> Vec<u8> {
    encrypt(&b"{\"system\":{\"set_relay_state\":{\"err_code\":0}}}".to_vec())
}

fn status_frame(state: i64) -> Vec<u8> {
    let text = format!("{{\"system\":{{\"get_sysinfo\":{{\"relay_state\":{}}}}}}}", state);
    encrypt(&text.into_bytes())
}

fn relay_cmd(name: &str, command: RelayCommands) -> WorkerEvent {
    WorkerEvent::Command(DataThreadCommand::Relay(RelayCommand {
        name: name.to_string(),
        command,
    }))
}

fn tag_cmd(tag: &str, command: RelayCommands) -> WorkerEvent {
    WorkerEvent::Command(DataThreadCommand::Tag(TagCommand { tag: tag.to_string(), command }))
}

fn evening_thread() -> DataThread {
    DataThread::new(Config {
        relays: vec![plug("Lamp", "office", vec![]), plug("Fan", "bedroom", vec![])],
        presets: vec![preset("Evening", vec![("Lamp", true)])],
    })
}

#[test]
fn unknown_relay_answers_tolerant_false() {
    let mut dt = evening_thread();
    let act = dt.step(relay_cmd("nonexistent", RelayCommands::TRUE));
    assert!(matches!(
        act,
        WorkerAction::Respond(DataThreadResponse::Bool(false))
    ));
}

#[test]
fn unknown_tag_is_a_hard_error() {
    let mut dt = evening_thread();
    let act = dt.step(tag_cmd("nonexistent-tag", RelayCommands::TRUE));
    match act {
        WorkerAction::Respond(DataThreadResponse::Error(msg)) => {
            assert_eq!(msg, "No relays with tag: nonexistent-tag found");
        }
        _ => panic!("expected an error response"),
    }
}

#[test]
fn preset_application_is_closed_world() {
    // Apply `Evening = {Lamp: true}`: the Lamp goes on, the unnamed
    // Fan is forced off, the marker records the preset.
    let mut dt = evening_thread();
    let act = dt.step(WorkerEvent::Command(DataThreadCommand::Preset(PresetCommand::Apply(
        "Evening".to_string(),
    ))));
    assert!(matches!(act, WorkerAction::Send(_)));
    let act = dt.step(WorkerEvent::Reply(Some(ack_frame())));
    assert!(matches!(act, WorkerAction::Send(_)));
    let act = dt.step(WorkerEvent::Reply(Some(ack_frame())));
    match act {
        WorkerAction::Respond(DataThreadResponse::Value(ResponseValue::PresetSet(true))) => {}
        _ => panic!("expected presetSet true"),
    }
    assert!(dt.relays[0].status());
    assert!(!dt.relays[1].status());
    assert_eq!(dt.current_preset, "Evening");
}

#[test]
fn direct_mutation_resets_the_marker_to_custom() {
    let mut dt = evening_thread();
    let act = dt.step(WorkerEvent::Command(DataThreadCommand::Preset(PresetCommand::Apply(
        "Evening".to_string(),
    ))));
    assert!(matches!(act, WorkerAction::Send(_)));
    dt.step(WorkerEvent::Reply(Some(ack_frame())));
    dt.step(WorkerEvent::Reply(Some(ack_frame())));
    assert_eq!(dt.current_preset, "Evening");

    let act = dt.step(relay_cmd("Fan", RelayCommands::TRUE));
    assert!(matches!(act, WorkerAction::Send(_)));
    let act = dt.step(WorkerEvent::Reply(Some(ack_frame())));
    match act {
        WorkerAction::Respond(DataThreadResponse::Value(ResponseValue::Snapshot(snap))) => {
            assert_eq!(snap.name, "Fan");
            assert!(snap.status);
        }
        _ => panic!("expected the fresh snapshot"),
    }
    assert_eq!(dt.current_preset, "Custom");
}

#[test]
fn preset_partial_failure_keeps_mutated_state_without_marker() {
    let mut dt = evening_thread();
    dt.step(WorkerEvent::Command(DataThreadCommand::Preset(PresetCommand::Apply(
        "Evening".to_string(),
    ))));
    // The Lamp acknowledges, then the Fan is unreachable.
    dt.step(WorkerEvent::Reply(Some(ack_frame())));
    let act = dt.step(WorkerEvent::Reply(None));
    match act {
        WorkerAction::Respond(DataThreadResponse::Value(ResponseValue::PresetSet(false))) => {}
        _ => panic!("expected presetSet false"),
    }
    assert!(dt.relays[0].status());
    assert!(!dt.relays[1].status());
    assert_eq!(dt.current_preset, "Custom");
}

#[test]
fn unknown_preset_is_a_hard_error() {
    let mut dt = evening_thread();
    let act = dt.step(WorkerEvent::Command(DataThreadCommand::Preset(PresetCommand::Apply(
        "Morning".to_string(),
    ))));
    match act {
        WorkerAction::Respond(DataThreadResponse::Error(msg)) => {
            assert_eq!(msg, "Unable to find preset");
        }
        _ => panic!("expected an error response"),
    }
}

#[test]
fn preset_names_listing_is_sorted() {
    let mut dt = DataThread::new(Config {
        relays: vec![],
        presets: vec![preset("b", vec![]), preset("A", vec![])],
    });
    let act = dt.step(WorkerEvent::Command(DataThreadCommand::Preset(PresetCommand::Names)));
    match act {
        WorkerAction::Respond(DataThreadResponse::Value(ResponseValue::Names(names))) => {
            assert_eq!(names, vec!["A", "b"]);
        }
        _ => panic!("expected the name list"),
    }
}

#[test]
fn sequential_commands_observe_fresh_state() {
    // Switch the Lamp on, then query it: the query reflects `true`,
    // never a stale `false`, because commands resolve one at a time.
    let mut dt = evening_thread();
    dt.step(relay_cmd("Lamp", RelayCommands::TRUE));
    dt.step(WorkerEvent::Reply(Some(ack_frame())));
    assert!(dt.relays[0].status());

    let act = dt.step(relay_cmd("Lamp", RelayCommands::STATUS));
    assert!(matches!(act, WorkerAction::Send(_)));
    let act = dt.step(WorkerEvent::Reply(Some(status_frame(1))));
    match act {
        WorkerAction::Respond(DataThreadResponse::Value(ResponseValue::StatusFlag(true))) => {}
        _ => panic!("expected status true"),
    }

    let act = dt.step(WorkerEvent::Command(DataThreadCommand::SystemStatus));
    match act {
        WorkerAction::Respond(DataThreadResponse::Value(ResponseValue::System(report))) => {
            assert!(report.relays[0].status);
            assert_eq!(report.rooms, vec!["office", "bedroom"]);
            assert_eq!(report.current_preset, "Custom");
        }
        _ => panic!("expected the system report"),
    }
}

#[test]
fn switch_goes_by_the_cached_status() {
    let mut dt = DataThread::new(Config {
        relays: vec![plug_with_status("Lamp", "office", true)],
        presets: vec![],
    });
    dt.step(relay_cmd("Lamp", RelayCommands::SWITCH));
    dt.step(WorkerEvent::Reply(Some(ack_frame())));
    assert!(!dt.relays[0].status());
}

#[test]
fn tag_group_mutates_every_member() {
    let mut dt = DataThread::new(Config {
        relays: vec![
            plug("Lamp", "office", vec!["lights"]),
            plug("Fan", "bedroom", vec![]),
            plug("Sconce", "office", vec!["lights"]),
        ],
        presets: vec![],
    });
    let act = dt.step(tag_cmd("lights", RelayCommands::TRUE));
    assert!(matches!(act, WorkerAction::Send(_)));
    let act = dt.step(WorkerEvent::Reply(Some(ack_frame())));
    assert!(matches!(act, WorkerAction::Send(_)));
    let act = dt.step(WorkerEvent::Reply(Some(ack_frame())));
    assert!(matches!(
        act,
        WorkerAction::Respond(DataThreadResponse::Bool(true))
    ));
    assert!(dt.relays[0].status());
    assert!(!dt.relays[1].status());
    assert!(dt.relays[2].status());
    assert_eq!(dt.current_preset, "Custom");
}

#[test]
fn tag_status_reads_the_cache_without_io() {
    let mut dt = DataThread::new(Config {
        relays: vec![plug("Lamp", "office", vec!["lights"])],
        presets: vec![],
    });
    let act = dt.step(tag_cmd("lights", RelayCommands::STATUS));
    match act {
        WorkerAction::Respond(DataThreadResponse::Value(ResponseValue::Snapshots(snaps))) => {
            assert_eq!(snaps.len(), 1);
            assert_eq!(snaps[0].name, "Lamp");
        }
        _ => panic!("expected the snapshots"),
    }
}

#[test]
fn tag_failure_aborts_the_remaining_group() {
    let mut dt = DataThread::new(Config {
        relays: vec![
            plug("Lamp", "office", vec!["lights"]),
            plug("Sconce", "office", vec!["lights"]),
        ],
        presets: vec![],
    });
    dt.step(tag_cmd("lights", RelayCommands::TRUE));
    let act = dt.step(WorkerEvent::Reply(None));
    match act {
        WorkerAction::Respond(DataThreadResponse::Error(msg)) => {
            assert_eq!(msg, "Can't Connect To Plug");
        }
        _ => panic!("expected an error response"),
    }
    assert!(!dt.relays[0].status());
    assert!(!dt.relays[1].status());
}

#[test]
fn unreachable_relay_reports_the_connection_error() {
    let mut dt = evening_thread();
    dt.step(relay_cmd("Lamp", RelayCommands::TRUE));
    let act = dt.step(WorkerEvent::Reply(None));
    match act {
        WorkerAction::Respond(DataThreadResponse::Error(msg)) => {
            assert_eq!(msg, "Can't Connect To Plug");
        }
        _ => panic!("expected an error response"),
    }
    assert!(!dt.relays[0].status());
}

#[test]
fn name_matching_ignores_ascii_case() {
    let mut dt = evening_thread();
    dt.step(relay_cmd("lamp", RelayCommands::TRUE));
    dt.step(WorkerEvent::Reply(Some(ack_frame())));
    assert!(dt.relays[0].status());

    let act = dt.step(WorkerEvent::Command(DataThreadCommand::Preset(PresetCommand::Apply(
        "EVENING".to_string(),
    ))));
    assert!(matches!(act, WorkerAction::Send(_)));
}

#[test]
fn refresh_with_unchanged_source_keeps_the_caches() {
    let mut dt = evening_thread();
    dt.step(relay_cmd("Lamp", RelayCommands::TRUE));
    dt.step(WorkerEvent::Reply(Some(ack_frame())));
    assert!(dt.relays[0].status());

    // The loaded snapshot equals the live registry by value.
    let snapshot = || Config {
        relays: vec![
            plug_with_status("Lamp", "office", true),
            plug_with_status("Fan", "bedroom", false),
        ],
        presets: vec![preset("Evening", vec![("Lamp", true)])],
    };
    for _ in 0..2 {
        let act = dt.step(WorkerEvent::Command(DataThreadCommand::Refresh));
        assert!(matches!(act, WorkerAction::LoadConfig));
        let act = dt.step(WorkerEvent::ConfigLoaded(Some(snapshot())));
        assert!(matches!(
            act,
            WorkerAction::Respond(DataThreadResponse::Bool(true))
        ));
        assert!(dt.relays[0].status());
        assert!(!dt.relays[1].status());
    }
}

#[test]
fn refresh_with_changed_source_replaces_the_registry() {
    let mut dt = evening_thread();
    let act = dt.step(WorkerEvent::Command(DataThreadCommand::Refresh));
    assert!(matches!(act, WorkerAction::LoadConfig));
    let act = dt.step(WorkerEvent::ConfigLoaded(Some(Config {
        relays: vec![plug("Heater", "garage", vec![])],
        presets: vec![],
    })));
    assert!(matches!(
        act,
        WorkerAction::Respond(DataThreadResponse::Bool(true))
    ));
    assert_eq!(dt.relays.len(), 1);
    assert_eq!(*dt.relays[0].name_str(), "Heater");
}

#[test]
fn auto_refresh_is_silent_on_success_loud_on_failure() {
    let mut dt = evening_thread();
    dt.step(WorkerEvent::Command(DataThreadCommand::AutoRefresh));
    let act = dt.step(WorkerEvent::ConfigLoaded(Some(Config {
        relays: vec![],
        presets: vec![],
    })));
    assert!(matches!(act, WorkerAction::Silent));

    dt.step(WorkerEvent::Command(DataThreadCommand::AutoRefresh));
    let act = dt.step(WorkerEvent::ConfigLoaded(None));
    match act {
        WorkerAction::Respond(DataThreadResponse::Error(msg)) => {
            assert_eq!(msg, "Could not refresh config");
        }
        _ => panic!("expected an error response"),
    }
}

#[test]
fn command_words_parse_up_to_case() {
    assert!(matches!(handle_command_input("on"), Some(RelayCommands::TRUE)));
    assert!(matches!(handle_command_input("TRUE"), Some(RelayCommands::TRUE)));
    assert!(matches!(handle_command_input("Off"), Some(RelayCommands::FALSE)));
    assert!(matches!(handle_command_input("false"), Some(RelayCommands::FALSE)));
    assert!(matches!(handle_command_input("Switch"), Some(RelayCommands::SWITCH)));
    assert!(matches!(handle_command_input("STATUS"), Some(RelayCommands::STATUS)));
    assert!(handle_command_input("bogus").is_none());
    assert!(handle_command_input("").is_none());
}

#[test]
fn config_location_falls_back_to_local() {
    assert_eq!(get_config_location(None), ConfigLocation::LOCAL);
    assert_eq!(get_config_location(Some("local".to_string())), ConfigLocation::LOCAL);
    assert_eq!(get_config_location(Some("mongodb".to_string())), ConfigLocation::MONGODB);
    assert_eq!(get_config_location(Some("mongo".to_string())), ConfigLocation::MONGODB);
    assert_eq!(get_config_location(Some("elsewhere".to_string())), ConfigLocation::LOCAL);
}

#[test]
fn load_config_excludes_failed_probes_and_keeps_presets() {
    let cfg = load_config(
        vec![
            (plug("Lamp", "office", vec![]), true),
            (plug("Ghost", "attic", vec![]), false),
            (plug("Fan", "bedroom", vec![]), true),
        ],
        vec![preset("Evening", vec![("Lamp", true)])],
    );
    assert_eq!(cfg.relays.len(), 2);
    assert_eq!(*cfg.relays[0].name_str(), "Lamp");
    assert_eq!(*cfg.relays[1].name_str(), "Fan");
    assert_eq!(cfg.presets.len(), 3);
}

#[test]
fn load_config_later_device_replaces_earlier() {
    let cfg = load_config(
        vec![
            (plug("Lamp", "office", vec![]), true),
            (plug_with_status("Lamp", "den", true), true),
        ],
        vec![],
    );
    assert_eq!(cfg.relays.len(), 1);
    let snap = cfg.relays[0].snapshot();
    assert_eq!(snap.room, "den");
    assert!(snap.status);
}

#[test]
fn external_route_returns_its_text() {
    assert_eq!(external_route(), "External Route");
}
