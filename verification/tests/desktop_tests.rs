use memora::macos_popover::{
    popover_collection_behavior, popover_style_mask, CAN_JOIN_ALL_SPACES, FULL_SCREEN_AUXILIARY,
    IGNORES_CYCLE, NONACTIVATING_PANEL, POPUP_MENU_WINDOW_LEVEL, STATIONARY,
};
use memora::macos_quick_paste::{setup_step, PanelSetupAction, PanelSetupEvent};

#[test]
fn popover_behavior_adds_flags() {
    assert_eq!(popover_collection_behavior(0), 0x151);
    assert_eq!(popover_collection_behavior(2), 0x153);
    let all = CAN_JOIN_ALL_SPACES | STATIONARY | FULL_SCREEN_AUXILIARY | IGNORES_CYCLE;
    assert_eq!(popover_collection_behavior(all), all);
}

#[test]
fn popover_behavior_keeps_existing_bits() {
    for existing in [0u64, 1, 0x80, 0xffff_0000, u64::MAX] {
        let b = popover_collection_behavior(existing);
        assert_eq!(b & existing, existing);
        assert_eq!(popover_collection_behavior(b), b);
    }
}

#[test]
fn popover_style_mask_sets_bit_once() {
    assert_eq!(popover_style_mask(0), Some(128));
    assert_eq!(popover_style_mask(0b1111), Some(0b1000_1111));
    assert_eq!(popover_style_mask(NONACTIVATING_PANEL), None);
    assert_eq!(popover_style_mask(0xff), None);
    assert_eq!(POPUP_MENU_WINDOW_LEVEL, 101);
}

fn run(ready: bool, found: bool, converted: bool) -> (bool, bool, Vec<PanelSetupAction>) {
    let mut ready = ready;
    let mut actions = Vec::new();
    let mut event = PanelSetupEvent::Begin;
    loop {
        let (r, action) = setup_step(ready, event);
        ready = r;
        actions.push(action);
        event = match action {
            PanelSetupAction::FindWindow => PanelSetupEvent::WindowFound(found),
            PanelSetupAction::ConvertWindow => PanelSetupEvent::PanelConverted(converted),
            PanelSetupAction::ConfigurePanel => PanelSetupEvent::PanelConfigured,
            PanelSetupAction::Finish(ok) => return (ready, ok, actions),
        };
    }
}

#[test]
fn quick_paste_setup_when_ready_does_nothing() {
    let (ready, ok, actions) = run(true, false, false);
    assert!(ready && ok);
    assert_eq!(actions, vec![PanelSetupAction::Finish(true)]);
}

#[test]
fn quick_paste_setup_without_window_defers() {
    let (ready, ok, actions) = run(false, false, true);
    assert!(!ready && !ok);
    assert_eq!(actions, vec![PanelSetupAction::FindWindow, PanelSetupAction::Finish(false)]);
}

#[test]
fn quick_paste_setup_conversion_failure() {
    let (ready, ok, actions) = run(false, true, false);
    assert!(!ready && !ok);
    assert_eq!(
        actions,
        vec![PanelSetupAction::FindWindow, PanelSetupAction::ConvertWindow, PanelSetupAction::Finish(false)]
    );
}

#[test]
fn quick_paste_setup_success() {
    let (ready, ok, actions) = run(false, true, true);
    assert!(ready && ok);
    assert_eq!(
        actions,
        vec![
            PanelSetupAction::FindWindow,
            PanelSetupAction::ConvertWindow,
            PanelSetupAction::ConfigurePanel,
            PanelSetupAction::Finish(true)
        ]
    );
}

#[test]
fn quick_paste_ready_stays_ready() {
    for e in [
        PanelSetupEvent::Begin,
        PanelSetupEvent::WindowFound(false),
        PanelSetupEvent::PanelConverted(false),
        PanelSetupEvent::PanelConfigured,
    ] {
        assert!(setup_step(true, e).0);
    }
}
