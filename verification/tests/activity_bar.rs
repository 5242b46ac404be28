use workbench::activity_bar::{ActivityBar, DockPosition};

#[test]
fn shows_docks_with_panels_in_order() {
    let bar = ActivityBar::new("left", "bottom", "right");
    assert_eq!(bar.render(true, true, true), vec![DockPosition::Left, DockPosition::Bottom, DockPosition::Right]);
    assert_eq!(bar.render(false, true, false), vec![DockPosition::Bottom]);
    assert_eq!(bar.render(true, false, true), vec![DockPosition::Left, DockPosition::Right]);
    assert!(bar.render(false, false, false).is_empty());
    assert_eq!(*bar.buttons(DockPosition::Right), "right");
}
