//! The quasimode state machine: raw key transitions in, semantic events
//! and a swallow decision out.
use vstd::prelude::*;

verus! {

/// Virtual-key code of the mode key (Caps Lock).
pub const VK_CAPITAL: i32 = 0x14;

/// Keyboard message kinds as the low-level hook reports them. The `SYS`
/// variants arrive while Alt is held and mean the same transitions.
pub const WM_KEYDOWN: u32 = 0x0100;
pub const WM_KEYUP: u32 = 0x0101;
pub const WM_SYSKEYDOWN: u32 = 0x0104;
pub const WM_SYSKEYUP: u32 = 0x0105;

/// What the state machine reports to the consumer.
#[derive(Debug, Clone, Copy, PartialEq, Eq, Structural)]
pub enum HookEvent {
    QuasimodeStart,
    QuasimodeEnd,
    Keypress(i32),
}

/// What to do with one physical transition.
#[derive(Debug, Clone, Copy, PartialEq, Eq, Structural)]
pub struct KeyDecision {
    /// The event to hand to the consumer, if any.
    pub event: Option<HookEvent>,
    /// Whether to keep the transition from every other application.
    pub swallow: bool,
}

pub open spec fn is_key_down(wm_type: u32) -> bool {
    wm_type == WM_KEYDOWN || wm_type == WM_SYSKEYDOWN
}

pub open spec fn is_key_up(wm_type: u32) -> bool {
    wm_type == WM_KEYUP || wm_type == WM_SYSKEYUP
}

/// Whether the machine is active after the transition.
pub open spec fn next_active(active: bool, wm_type: u32, vk_code: i32) -> bool {
    if active {
        !(vk_code == VK_CAPITAL && is_key_up(wm_type))
    } else {
        vk_code == VK_CAPITAL && is_key_down(wm_type)
    }
}

/// The event emitted for the transition.
pub open spec fn emitted(active: bool, wm_type: u32, vk_code: i32) -> Option<HookEvent> {
    if active {
        if vk_code == VK_CAPITAL {
            if is_key_up(wm_type) {
                Some(HookEvent::QuasimodeEnd)
            } else {
                None
            }
        } else if is_key_down(wm_type) {
            Some(HookEvent::Keypress(vk_code))
        } else {
            None
        }
    } else if vk_code == VK_CAPITAL && is_key_down(wm_type) {
        Some(HookEvent::QuasimodeStart)
    } else {
        None
    }
}

/// Whether the transition is swallowed: every emitting branch, and the
/// mode key repeating while active.
pub open spec fn swallowed(active: bool, wm_type: u32, vk_code: i32) -> bool {
    emitted(active, wm_type, vk_code) is Some || (active && vk_code == VK_CAPITAL && !is_key_up(
        wm_type,
    ))
}

/// The events emitted over a run of transitions `(message kind, key)`,
/// starting with the machine active or not, in order.
pub open spec fn run_events(active: bool, inputs: Seq<(u32, i32)>) -> Seq<HookEvent>
    decreases inputs.len(),
{
    if inputs.len() == 0 {
        Seq::empty()
    } else {
        let (w, v) = inputs[0];
        let head = match emitted(active, w, v) {
            Some(e) => seq![e],
            None => Seq::empty(),
        };
        head + run_events(next_active(active, w, v), inputs.drop_first())
    }
}

/// Whether the machine is active after a run of transitions.
pub open spec fn run_active(active: bool, inputs: Seq<(u32, i32)>) -> bool
    decreases inputs.len(),
{
    if inputs.len() == 0 {
        active
    } else {
        run_active(next_active(active, inputs[0].0, inputs[0].1), inputs.drop_first())
    }
}

/// A stream of events that opens with a start, carries keypresses only
/// inside a quasimode, and closes each quasimode with one end; `active`
/// says whether a quasimode is open before the stream begins.
pub open spec fn well_bracketed(active: bool, events: Seq<HookEvent>) -> bool
    decreases events.len(),
{
    if events.len() == 0 {
        true
    } else {
        match events[0] {
            HookEvent::QuasimodeStart => !active && well_bracketed(true, events.drop_first()),
            HookEvent::Keypress(_) => active && well_bracketed(true, events.drop_first()),
            HookEvent::QuasimodeEnd => active && well_bracketed(false, events.drop_first()),
        }
    }
}

/// Whatever the transitions, the events come out in order: a start before
/// any keypress, keypresses only between a start and its end, and never two
/// starts or two ends in a row.
pub proof fn lemma_events_well_bracketed(active: bool, inputs: Seq<(u32, i32)>)
    ensures
        well_bracketed(active, run_events(active, inputs)),
    decreases inputs.len(),
{
    if inputs.len() > 0 {
        let (w, v) = inputs[0];
        let next = next_active(active, w, v);
        let rest = run_events(next, inputs.drop_first());
        lemma_events_well_bracketed(next, inputs.drop_first());
        match emitted(active, w, v) {
            Some(e) => {
                assert((seq![e] + rest).drop_first() =~= rest);
            },
            None => {
                assert(Seq::<HookEvent>::empty() + rest =~= rest);
            },
        }
    }
}

/// The quasimode state machine: idle or active.
pub struct QuasimodeState {
    in_quasimode: bool,
}

impl QuasimodeState {
    /// Whether a quasimode is in progress.
    pub closed spec fn active(&self) -> bool {
        self.in_quasimode
    }

    /// An idle machine.
    pub fn new() -> (r: Self)
        ensures
            !r.active(),
    {
        QuasimodeState { in_quasimode: false }
    }

    /// Whether a quasimode is in progress.
    pub fn is_active(&self) -> (r: bool)
        ensures
            r == self.active(),
    {
        self.in_quasimode
    }

    /// Feeds one transition through the machine.
    pub fn process_key(&mut self, wm_type: u32, vk_code: i32) -> (r: KeyDecision)
        ensures
            final(self).active() == next_active(old(self).active(), wm_type, vk_code),
            r.event == emitted(old(self).active(), wm_type, vk_code),
            r.swallow == swallowed(old(self).active(), wm_type, vk_code),
    {
        let is_quasimode_key = vk_code == VK_CAPITAL;
        let key_up = wm_type == WM_KEYUP || wm_type == WM_SYSKEYUP;
        let key_down = wm_type == WM_KEYDOWN || wm_type == WM_SYSKEYDOWN;
        if self.in_quasimode {
            if is_quasimode_key {
                if key_up {
                    self.in_quasimode = false;
                    KeyDecision { event: Some(HookEvent::QuasimodeEnd), swallow: true }
                } else {
                    // The held mode key repeating: keep it from everyone.
                    KeyDecision { event: None, swallow: true }
                }
            } else if key_down {
                KeyDecision { event: Some(HookEvent::Keypress(vk_code)), swallow: true }
            } else {
                KeyDecision { event: None, swallow: false }
            }
        } else if is_quasimode_key && key_down {
            self.in_quasimode = true;
            KeyDecision { event: Some(HookEvent::QuasimodeStart), swallow: true }
        } else {
            KeyDecision { event: None, swallow: false }
        }
    }
}

/// Whether the hook eats the transition once the event, if any, was handed
/// on: an event that could not be delivered lets the keystroke through.
pub fn should_eat_key(decision: KeyDecision, delivered: bool) -> (r: bool)
    ensures
        r == if decision.event is Some {
            delivered
        } else {
            decision.swallow
        },
{
    match decision.event {
        Some(_) => delivered,
        None => decision.swallow,
    }
}

} // verus!
