use appfront::presets::{list_presets, Preset};

#[test]
fn every_preset_round_trips_through_name() {
    for (preset, _) in list_presets().iter() {
        let parsed = Preset::from_str(preset.name())
            .unwrap_or_else(|| panic!("failed to parse preset `{}`", preset.name()));
        assert_eq!(*preset, parsed);
    }
}

#[test]
fn unknown_preset_is_none() {
    assert!(Preset::from_str("nope").is_none());
    assert!(Preset::from_str("").is_none());
}

#[test]
fn crud_alias_resolves() {
    assert_eq!(Preset::from_str("crud"), Some(Preset::CrudApp));
}

#[test]
fn saas_alias_and_names_and_descriptions() {
    assert_eq!(Preset::from_str("saas"), Some(Preset::SaasStarter));
    assert_eq!(Preset::CrudApp.name(), "crud-app");
    assert_eq!(Preset::SaasStarter.name(), "saas-starter");
    let all = list_presets();
    assert_eq!(all.len(), 4);
    assert_eq!(all[0].0, Preset::Login);
    assert_eq!(all[0].1, "Sign-in form with live, Signal-bound username/password fields");
    assert_eq!(all[3].1, Preset::SaasStarter.description());
}
