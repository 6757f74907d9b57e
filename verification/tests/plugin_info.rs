use coupler::plugin::PluginInfo;

#[test]
fn new_info_is_empty() {
    let info = PluginInfo::new();
    assert_eq!(info.get_name(), "");
    assert_eq!(info.get_vendor(), "");
    assert_eq!(info.get_url(), "");
    assert_eq!(info.get_email(), "");
    assert!(!info.get_has_editor());
}

#[test]
fn builder_sets_each_field() {
    let info = PluginInfo::new()
        .name("Gain")
        .vendor("Some Vendor")
        .url("https://example.test")
        .email("info@example.test")
        .has_editor(true);
    assert_eq!(info.get_name(), "Gain");
    assert_eq!(info.get_vendor(), "Some Vendor");
    assert_eq!(info.get_url(), "https://example.test");
    assert_eq!(info.get_email(), "info@example.test");
    assert!(info.get_has_editor());
}

#[test]
fn later_calls_override_earlier_ones() {
    let info = PluginInfo::new().name("First").name("Second");
    assert_eq!(info.get_name(), "Second");
    assert_eq!(info.get_vendor(), "");
}

#[test]
fn clone_keeps_the_fields() {
    let info = PluginInfo::new().name("Gain").has_editor(true);
    let copy = info.clone();
    assert_eq!(copy.get_name(), "Gain");
    assert!(copy.get_has_editor());
}
