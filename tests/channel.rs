use std::sync::mpsc::channel;

use enso::quasimode::{should_eat_key, HookEvent, QuasimodeState, VK_CAPITAL, WM_KEYDOWN, WM_KEYUP};

fn transitions(n: usize) -> Vec<(u32, i32)> {
    let mut t = Vec::new();
    for i in 0..n {
        let vk = 0x30 + (i % 10) as i32;
        t.push((WM_KEYDOWN, VK_CAPITAL));
        t.push((WM_KEYDOWN, vk));
        t.push((WM_KEYDOWN, VK_CAPITAL));
        t.push((WM_KEYUP, vk));
        t.push((WM_KEYUP, VK_CAPITAL));
    }
    t
}

#[test]
fn drained_channel_yields_events_in_emitted_order() {
    for round in 0..20 {
        let (tx, rx) = channel();
        let mut state = QuasimodeState::new();
        let mut emitted = Vec::new();
        let mut received: Vec<HookEvent> = Vec::new();
        for (k, (wm, vk)) in transitions(3000 + round).into_iter().enumerate() {
            let decision = state.process_key(wm, vk);
            if let Some(event) = decision.event {
                let delivered = tx.send(event).is_ok();
                assert!(should_eat_key(decision, delivered));
                emitted.push(event);
            }
            if k % 7 == 0 {
                while let Ok(event) = rx.try_recv() {
                    received.push(event);
                }
            }
        }
        drop(tx);
        for event in rx.iter() {
            received.push(event);
        }
        assert_eq!(received.len(), 3 * (3000 + round));
        assert_eq!(received, emitted);
    }
}
