use tsubame::addon::{AddonOrigin, AddonRegistry, ADDON_API_VERSION};

#[test]
fn registry_starts_with_official_addons() {
    let registry = AddonRegistry::new();
    assert_eq!(registry.addons().len(), 2);
    assert_eq!(registry.official_count(), 2);
    assert_eq!(registry.external_count(), 0);
    assert_eq!(registry.addons()[0].id, "official.performance_details");
    assert!(registry.addons().iter().all(|a| a.is_compatible() && !a.enabled));
    assert_eq!(registry.addons()[1].compatibility_label(), "互換");
}

#[test]
fn external_placeholder_is_named_after_its_file() {
    let mut registry = AddonRegistry::new();
    registry.register_external_placeholder("addons/my_addon.dll".to_owned());
    registry.register_external_placeholder("/".to_owned());
    let addons = registry.addons();
    assert_eq!(addons.len(), 4);
    assert_eq!(addons[2].id, "external.2");
    assert_eq!(addons[2].name, "my_addon.dll");
    assert_eq!(addons[2].version, "未読込");
    assert_eq!(addons[2].origin, AddonOrigin::External);
    assert_eq!(addons[3].name, "外部アドオン");
    assert_eq!(addons[3].required_api, ADDON_API_VERSION);
    assert_eq!(registry.external_count(), 2);
    assert_eq!(registry.official_count(), 2);
}

#[test]
fn addons_can_be_switched_on_and_incompatible_ones_are_labelled() {
    let mut registry = AddonRegistry::new();
    registry.addons_mut()[0].enabled = true;
    registry.addons_mut()[1].required_api = 2;
    assert!(registry.addons()[0].enabled);
    assert_eq!(registry.addons()[1].compatibility_label(), "API不一致");
}
