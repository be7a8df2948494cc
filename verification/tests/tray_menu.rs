use kinesis_360_mirror::tray::{menu_item, tray_action, MenuItem, TrayAction};

#[test]
fn menu_ids_round_trip() {
    for item in MenuItem::all() {
        assert_eq!(menu_item(item.id()), Some(item));
    }
    assert_eq!(menu_item("visible"), Some(MenuItem::Visible));
    assert_eq!(menu_item("on_top"), Some(MenuItem::OnTop));
    assert_eq!(menu_item("click_through"), Some(MenuItem::ClickThrough));
    assert_eq!(menu_item("quit"), Some(MenuItem::Quit));
    assert_eq!(menu_item("mirror"), None);
    assert_eq!(menu_item(""), None);
}

#[test]
fn menu_layout() {
    assert_eq!(
        MenuItem::all(),
        vec![MenuItem::Visible, MenuItem::OnTop, MenuItem::ClickThrough, MenuItem::Quit]
    );
    assert_eq!(MenuItem::Visible.label(), "Show window");
    assert_eq!(MenuItem::Quit.label(), "Quit Kinesis 360 Mirror");
    assert_eq!(MenuItem::Visible.initially_checked(), Some(true));
    assert_eq!(MenuItem::OnTop.initially_checked(), Some(true));
    assert_eq!(MenuItem::ClickThrough.initially_checked(), Some(false));
    assert_eq!(MenuItem::Quit.initially_checked(), None);
}

#[test]
fn tray_actions() {
    assert_eq!(tray_action(MenuItem::Quit, None), TrayAction::Quit);
    assert_eq!(tray_action(MenuItem::Visible, Some(true)), TrayAction::ShowWindow);
    assert_eq!(tray_action(MenuItem::Visible, Some(false)), TrayAction::HideWindow);
    assert_eq!(tray_action(MenuItem::Visible, None), TrayAction::ShowWindow);
    assert_eq!(tray_action(MenuItem::OnTop, Some(false)), TrayAction::SetAlwaysOnTop(false));
    assert_eq!(tray_action(MenuItem::OnTop, None), TrayAction::SetAlwaysOnTop(true));
    assert_eq!(
        tray_action(MenuItem::ClickThrough, Some(true)),
        TrayAction::SetClickThrough(true)
    );
    assert_eq!(tray_action(MenuItem::ClickThrough, None), TrayAction::SetClickThrough(true));
}
