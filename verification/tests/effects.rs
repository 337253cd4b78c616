use sub_ui::effects::{EffectCatalog, EffectListing, InstalledPlugin};

/// An installed plugin, declaring the effect world or not.
fn installed(id: &str, name: &str, effect_world: bool, enabled: bool) -> InstalledPlugin {
    InstalledPlugin { id: id.to_owned(), name: name.to_owned(), enabled, effect_world }
}

#[test]
fn only_enabled_effect_plugins_are_offered() {
    let catalog: EffectCatalog<u8> = EffectCatalog::from_installed(&[
        installed("com.example.grade", "Grade", true, true),
        installed("com.example.cutter", "Cutter", false, true),
        installed("com.example.blur", "Blur", true, false),
    ]);
    assert_eq!(
        catalog.entries().iter().map(|listing| listing.plugin.as_str()).collect::<Vec<_>>(),
        vec!["com.example.grade"],
        "a command plugin is not an effect and a disabled one is not offered"
    );
    assert_eq!(catalog.name_of("com.example.grade"), "Grade");
}

#[test]
fn a_listed_plugin_has_no_parameters_until_it_declares_them() {
    let mut catalog: EffectCatalog<&str> = EffectCatalog::new();
    catalog.push(EffectListing::new("com.example.grade".to_owned(), "Grade".to_owned()));
    assert!(catalog.params_of("com.example.grade").is_empty());

    catalog.declare("com.example.grade", vec!["exposure"]);
    assert_eq!(catalog.params_of("com.example.grade").len(), 1);
    assert_eq!(catalog.entries().len(), 1, "declaring fills the listing in rather than adding a second one");
    assert_eq!(catalog.entries()[0].name, "Grade", "and keeps its name");
}

#[test]
fn a_declaration_for_an_unlisted_plugin_is_kept() {
    let mut catalog: EffectCatalog<u8> = EffectCatalog::new();
    catalog.declare("com.example.blur", Vec::new());
    assert_eq!(catalog.entries().len(), 1);
    assert_eq!(catalog.name_of("com.example.blur"), "com.example.blur", "with its id standing in for a name");
}

#[test]
fn an_unknown_plugin_has_no_listing_and_no_parameters() {
    let catalog: EffectCatalog<u8> = EffectCatalog::new();
    assert!(catalog.is_empty());
    assert!(catalog.listing("com.example.none").is_none());
    assert!(catalog.params_of("com.example.none").is_empty());
    assert_eq!(catalog.name_of("com.example.none"), "com.example.none");
}

#[test]
fn a_second_declaration_replaces_the_first() {
    let mut catalog: EffectCatalog<u8> = EffectCatalog::new();
    catalog.declare("p", vec![1, 2]);
    catalog.declare("p", vec![3]);
    assert_eq!(catalog.params_of("p"), &[3]);
    assert_eq!(catalog.entries().len(), 1);
}
