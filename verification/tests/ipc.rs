use monsoon::ipc::ContentLayout;

#[test]
fn content_layout_cycle_is_four_way() {
    let order = [
        ContentLayout::Default,
        ContentLayout::Always,
        ContentLayout::Never,
        ContentLayout::IfMultiple,
    ];
    for (index, layout) in order.iter().enumerate() {
        assert_eq!(layout.cycle(), order[(index + 1) % order.len()]);
    }
}

#[test]
fn content_layout_resolve_maps_default_to_setting() {
    assert_eq!(ContentLayout::Default.resolve("always"), ContentLayout::Always);
    assert_eq!(ContentLayout::Default.resolve("never"), ContentLayout::Never);
    assert_eq!(ContentLayout::Default.resolve("if_multiple"), ContentLayout::IfMultiple);
    assert_eq!(ContentLayout::Default.resolve("garbage"), ContentLayout::IfMultiple);
    // non-default passes through untouched
    assert_eq!(ContentLayout::Never.resolve("always"), ContentLayout::Never);
}

#[test]
fn layouts_have_their_labels() {
    assert_eq!(ContentLayout::default(), ContentLayout::Default);
    assert_eq!(ContentLayout::Always.label(), "always");
    assert_eq!(ContentLayout::Never.label(), "never");
}
