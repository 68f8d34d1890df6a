use enso::quasimode::{
    should_eat_key, HookEvent, QuasimodeState, VK_CAPITAL, WM_KEYDOWN, WM_KEYUP, WM_SYSKEYDOWN,
    WM_SYSKEYUP,
};

const VK_A: i32 = 0x41;

#[test]
fn mode_key_brackets_a_keypress() {
    let mut state = QuasimodeState::new();
    let mut events = Vec::new();
    for (wm, vk) in [(WM_KEYDOWN, VK_CAPITAL), (WM_KEYDOWN, VK_A), (WM_KEYUP, VK_A), (WM_KEYUP, VK_CAPITAL)] {
        if let Some(event) = state.process_key(wm, vk).event {
            events.push(event);
        }
    }
    assert_eq!(
        events,
        vec![HookEvent::QuasimodeStart, HookEvent::Keypress(VK_A), HookEvent::QuasimodeEnd]
    );
    assert!(!state.is_active());
}

#[test]
fn repeated_mode_key_is_swallowed_without_event() {
    let mut state = QuasimodeState::new();
    let first = state.process_key(WM_KEYDOWN, VK_CAPITAL);
    assert_eq!(first.event, Some(HookEvent::QuasimodeStart));
    assert!(first.swallow);
    let repeat = state.process_key(WM_KEYDOWN, VK_CAPITAL);
    assert_eq!(repeat.event, None);
    assert!(repeat.swallow);
    assert!(state.is_active());
}

#[test]
fn idle_keys_pass_through() {
    let mut state = QuasimodeState::new();
    let d = state.process_key(WM_KEYDOWN, VK_A);
    assert_eq!(d.event, None);
    assert!(!d.swallow);
    let up = state.process_key(WM_KEYUP, VK_CAPITAL);
    assert_eq!(up.event, None);
    assert!(!up.swallow);
    assert!(!state.is_active());
}

#[test]
fn system_variants_count_as_up_and_down() {
    let mut state = QuasimodeState::new();
    assert_eq!(state.process_key(WM_SYSKEYDOWN, VK_CAPITAL).event, Some(HookEvent::QuasimodeStart));
    assert_eq!(state.process_key(WM_SYSKEYDOWN, VK_A).event, Some(HookEvent::Keypress(VK_A)));
    let up = state.process_key(WM_SYSKEYUP, VK_A);
    assert_eq!(up.event, None);
    assert!(!up.swallow);
    assert_eq!(state.process_key(WM_SYSKEYUP, VK_CAPITAL).event, Some(HookEvent::QuasimodeEnd));
}

#[test]
fn undelivered_event_lets_the_key_through() {
    let mut state = QuasimodeState::new();
    let d = state.process_key(WM_KEYDOWN, VK_CAPITAL);
    assert!(!should_eat_key(d, false));
    assert!(should_eat_key(d, true));
    let repeat = state.process_key(WM_KEYDOWN, VK_CAPITAL);
    assert!(should_eat_key(repeat, false));
}

#[test]
fn long_interleaved_run_keeps_order() {
    let mut state = QuasimodeState::new();
    let mut events = Vec::new();
    let mut expected = Vec::new();
    for round in 0..1000 {
        let vk = 0x41 + (round % 26);
        for (wm, key) in [(WM_KEYDOWN, VK_CAPITAL), (WM_KEYDOWN, VK_CAPITAL), (WM_KEYDOWN, vk), (WM_KEYUP, vk), (WM_KEYUP, VK_CAPITAL)] {
            if let Some(e) = state.process_key(wm, key).event {
                events.push(e);
            }
        }
        expected.push(HookEvent::QuasimodeStart);
        expected.push(HookEvent::Keypress(vk));
        expected.push(HookEvent::QuasimodeEnd);
    }
    assert_eq!(events, expected);
}
