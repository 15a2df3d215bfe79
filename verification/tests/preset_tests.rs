use kasa_gateway::presets::{get_preset_names, load_presets, Preset};

fn preset(name: &str, relays: Vec<(&str, bool)>) -> Preset {
    Preset {
        name: name.to_string(),
        enabled: true,
        relays: relays.into_iter().map(|(n, v)| (n.to_string(), v)).collect(),
    }
}

fn names_of(presets: &[Preset]) -> Vec<String> {
    presets.iter().map(|p| p.name.clone()).collect()
}

#[test]
fn load_presets_adds_the_reserved_entries() {
    let loaded = load_presets(vec![preset("Evening", vec![("Lamp", true)])]);
    let names = names_of(&loaded);
    assert_eq!(names, vec!["Evening", "Custom", "FullOff"]);
    assert!(!loaded[1].enabled);
    assert!(loaded[1].relays.is_empty());
    assert!(!loaded[2].enabled);
    assert!(loaded[2].relays.is_empty());
}

#[test]
fn load_presets_keeps_supplied_reserved_entries() {
    let mine = preset("Custom", vec![("X", true)]);
    let loaded = load_presets(vec![mine]);
    let names = names_of(&loaded);
    assert_eq!(names, vec!["Custom", "FullOff"]);
    assert_eq!(loaded[0].relays.len(), 1);
}

#[test]
fn load_presets_later_entry_replaces_earlier() {
    let loaded = load_presets(vec![
        preset("Evening", vec![("Lamp", true)]),
        preset("Evening", vec![("Lamp", false), ("Fan", true)]),
    ]);
    assert_eq!(names_of(&loaded), vec!["Evening", "Custom", "FullOff"]);
    assert_eq!(loaded[0].relays.len(), 2);
    assert_eq!(loaded[0].relays[0], ("Lamp".to_string(), false));
}

#[test]
fn target_for_is_closed_world() {
    let p = preset("Evening", vec![("Lamp", true), ("Heater", false)]);
    assert!(p.target_for(&"Lamp".to_string()));
    assert!(!p.target_for(&"Heater".to_string()));
    assert!(!p.target_for(&"Fan".to_string()));
}

#[test]
fn preset_names_come_out_sorted() {
    let presets = vec![
        preset("b", vec![]),
        preset("A", vec![]),
        preset("c", vec![]),
        preset("B", vec![]),
    ];
    let names = get_preset_names(&presets);
    assert_eq!(names, vec!["A", "B", "b", "c"]);
}

#[test]
fn preset_names_of_empty_store() {
    let names = get_preset_names(&vec![]);
    assert!(names.is_empty());
}
