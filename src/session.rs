//! The consumer side of a quasimode: the typed text, the menu of matching
//! commands, and what to do when the quasimode ends.
use vstd::prelude::*;

use std::ops::Range;
use crate::autocomplete::{
    capped, copy_ranges, is_top_ranking, match_ranges_of, matching_names, suggestion_names,
    AutocompleteSuggestion,
};
use crate::commands::{CommandAction, CommandRegistry};
use crate::keys::{vkey_to_char, VK_BACK, VK_DOWN, VK_UP};
use crate::menu::Menu;
use crate::quasimode::HookEvent;

verus! {

/// How many suggestions the menu offers.
pub const MAX_SUGGESTIONS: usize = 5;

/// Relies on `String::push`: appends `c`.
#[verifier::external_body]
fn push_char(s: &mut String, c: char)
    ensures
        final(s)@ == old(s)@.push(c),
{
    s.push(c)
}

/// Relies on `String::pop`: takes the last character off, if any.
#[verifier::external_body]
fn pop_char(s: &mut String) -> (r: Option<char>)
    ensures
        old(s)@.len() == 0 ==> r is None && final(s)@ == old(s)@,
        old(s)@.len() > 0 ==> r == Some(old(s)@.last()) && final(s)@ == old(s)@.drop_last(),
{
    s.pop()
}

/// What the host does after an event.
#[derive(Debug, Clone, PartialEq, Eq)]
pub enum SessionEffect {
    /// Nothing changed.
    Nothing,
    /// The quasimode display changed and should be drawn again.
    Redraw,
    /// The quasimode ended on this command: run it.
    Execute(CommandAction),
    /// The quasimode ended on text that matches no command.
    UnknownCommand,
}

/// The text under the suggestions.
#[derive(Debug, Clone, PartialEq, Eq)]
pub enum HelpText {
    /// Nothing typed yet.
    Welcome,
    /// Text typed, no command matches.
    NoMatch,
    /// The selected command will run.
    RunCommand(String),
}

/// `r` is what key `vk_code` types into the text: the key's character,
/// letters in lower case.
pub open spec fn typed_by(vk_code: i32, r: char) -> bool {
    if 0x41 <= vk_code <= 0x5A {
        r as u32 == vk_code + 32
    } else {
        r as u32 == vk_code
    }
}

/// Whether a keypress changes the typed text.
pub open spec fn edits_input(input: Seq<char>, vk_code: i32) -> bool {
    if vk_code == VK_BACK {
        input.len() > 0
    } else {
        0x30 <= vk_code <= 0x39 || 0x41 <= vk_code <= 0x5A || vk_code == 0x20
    }
}

/// One line of the quasimode display.
#[derive(Debug, Clone, PartialEq, Eq)]
pub struct MenuLine {
    /// The text shown.
    pub text: String,
    /// The byte ranges to highlight as typed.
    pub highlights: Vec<Range<usize>>,
    /// Whether the line is the selected one.
    pub selected: bool,
}

/// The typed text of a quasimode and the menu of commands that match it.
pub struct UserInterface {
    input: String,
    menu: Option<Menu<AutocompleteSuggestion<CommandAction>>>,
}

impl UserInterface {
    /// The text typed so far.
    pub closed spec fn input(&self) -> Seq<char> {
        self.input@
    }

    /// The menu of matching commands; none when nothing matches.
    pub closed spec fn menu(&self) -> Option<Menu<AutocompleteSuggestion<CommandAction>>> {
        self.menu
    }

    /// A menu, when there is one, has entries and its cursor on one of them.
    pub open spec fn wf(&self) -> bool {
        self.menu() matches Some(m) ==> m.entries().len() > 0 && 0 <= m.selected() < m.entries().len()
    }

    /// The suggestions on offer, best first.
    pub open spec fn suggestions(&self) -> Seq<AutocompleteSuggestion<CommandAction>> {
        match self.menu() {
            Some(m) => m.entries(),
            None => Seq::empty(),
        }
    }

    pub fn new() -> (r: Self)
        ensures
            r.wf(),
            r.input() == Seq::<char>::empty(),
            r.menu() is None,
    {
        UserInterface { input: String::new(), menu: None }
    }

    /// The text typed so far.
    pub fn input_text(&self) -> (r: &String)
        ensures
            r@ == self.input(),
    {
        &self.input
    }

    /// The menu of matching commands, if any matches.
    pub fn current_menu(&self) -> (r: &Option<Menu<AutocompleteSuggestion<CommandAction>>>)
        ensures
            *r == self.menu(),
    {
        &self.menu
    }

    /// Offers the best matches for the typed text, or no menu when none match.
    fn refresh_menu(&mut self, registry: &CommandRegistry)
        requires
            registry.wf(),
        ensures
            final(self).input() == old(self).input(),
            is_top_ranking(
                final(self).input(),
                registry.view().dom(),
                MAX_SUGGESTIONS as nat,
                suggestion_names(final(self).suggestions()),
            ),
            forall|i: int|
                0 <= i < final(self).suggestions().len() ==> match_ranges_of(
                    final(self).input(),
                    #[trigger] final(self).suggestions()[i].name@,
                    final(self).suggestions()[i].matches@,
                ) && cloned(
                    registry.actions()[final(self).suggestions()[i].name@],
                    final(self).suggestions()[i].value,
                ),
            final(self).suggestions().len() == capped(
                MAX_SUGGESTIONS as nat,
                matching_names(final(self).input(), registry.view().dom()).len(),
            ),
            final(self).menu() matches Some(m) ==> m.entries().len() > 0 && m.selected() == 0,
    {
        let results = registry.resolve(self.input.as_str(), MAX_SUGGESTIONS);
        if results.len() == 0 {
            assert(suggestion_names(results@) =~= suggestion_names(Seq::<AutocompleteSuggestion<CommandAction>>::empty()));
            self.menu = None;
        } else {
            self.menu = Some(Menu::new(results));
        }
    }

    /// Handles one event from the state machine.
    pub fn process_event(&mut self, event: HookEvent, registry: &CommandRegistry) -> (r: SessionEffect)
        requires
            old(self).wf(),
            registry.wf(),
        ensures
            final(self).wf(),
            event is QuasimodeStart ==> final(self).input() == Seq::<char>::empty()
                && final(self).menu() is None && r == SessionEffect::Redraw,
            event is QuasimodeEnd ==> final(self).menu() is None && final(self).input() == old(
                self,
            ).input(),
            event is QuasimodeEnd ==> match old(self).menu() {
                Some(m) => m.entries().len() > 0 && 0 <= m.selected() < m.entries().len() && r
                    == SessionEffect::Execute(m.entries()[m.selected()].value),
                None => r == if old(self).input().len() > 0 {
                    SessionEffect::UnknownCommand
                } else {
                    SessionEffect::Nothing
                },
            },
            event is Keypress && edits_input(old(self).input(), event->Keypress_0) ==> {
                &&& r == SessionEffect::Redraw
                &&& (if event->Keypress_0 == VK_BACK {
                    final(self).input() == old(self).input().drop_last()
                } else {
                    final(self).input().len() == old(self).input().len() + 1
                        && final(self).input().drop_last() == old(self).input() && typed_by(
                        event->Keypress_0,
                        final(self).input().last(),
                    )
                })
                &&& is_top_ranking(
                    final(self).input(),
                    registry.view().dom(),
                    MAX_SUGGESTIONS as nat,
                    suggestion_names(final(self).suggestions()),
                )
                &&& final(self).suggestions().len() == capped(
                    MAX_SUGGESTIONS as nat,
                    matching_names(final(self).input(), registry.view().dom()).len(),
                )
                &&& forall|i: int|
                    0 <= i < final(self).suggestions().len() ==> match_ranges_of(
                        final(self).input(),
                        #[trigger] final(self).suggestions()[i].name@,
                        final(self).suggestions()[i].matches@,
                    ) && cloned(
                        registry.actions()[final(self).suggestions()[i].name@],
                        final(self).suggestions()[i].value,
                    )
                &&& (final(self).menu() matches Some(m) ==> m.entries().len() > 0 && m.selected()
                    == 0)
            },
            event is Keypress && !edits_input(old(self).input(), event->Keypress_0) ==> {
                &&& final(self).input() == old(self).input()
                &&& if (event->Keypress_0 == VK_UP || event->Keypress_0 == VK_DOWN) && old(self).menu() is Some {
                    &&& r == SessionEffect::Redraw
                    &&& final(self).menu() matches Some(m) && old(self).menu() matches Some(o)
                        && m.entries() == o.entries() && (if event->Keypress_0 == VK_UP {
                        m.selected() == if o.selected() > 0 {
                            o.selected() - 1
                        } else {
                            o.entries().len() - 1
                        }
                    } else {
                        m.selected() == if o.selected() + 1 < o.entries().len() {
                            o.selected() + 1
                        } else {
                            0
                        }
                    })
                } else {
                    r == SessionEffect::Nothing && final(self).menu() == old(self).menu()
                }
            },
    {
        match event {
            HookEvent::QuasimodeStart => {
                self.input = String::new();
                self.menu = None;
                SessionEffect::Redraw
            },
            HookEvent::QuasimodeEnd => {
                let menu = self.menu.take();
                match menu {
                    Some(m) => {
                        match m.into_selected_entry() {
                            Some(suggestion) => SessionEffect::Execute(suggestion.value),
                            None => {
                                if !self.input.as_str().is_empty() {
                                    SessionEffect::UnknownCommand
                                } else {
                                    SessionEffect::Nothing
                                }
                            },
                        }
                    },
                    None => {
                        if !self.input.as_str().is_empty() {
                            SessionEffect::UnknownCommand
                        } else {
                            SessionEffect::Nothing
                        }
                    },
                }
            },
            HookEvent::Keypress(vk_code) => {
                let changed = if vk_code == VK_BACK {
                    pop_char(&mut self.input).is_some()
                } else {
                    match vkey_to_char(vk_code) {
                        Some(ch) => {
                            let code = ch as u32;
                            let lower = if 0x41 <= code && code <= 0x5A {
                                (code + 32) as u8 as char
                            } else {
                                ch
                            };
                            let ghost before = self.input@;
                            push_char(&mut self.input, lower);
                            assert(self.input@.drop_last() =~= before);
                            true
                        },
                        None => false,
                    }
                };
                if changed {
                    self.refresh_menu(registry);
                    SessionEffect::Redraw
                } else if vk_code == VK_UP || vk_code == VK_DOWN {
                    match &mut self.menu {
                        Some(menu) => {
                            if vk_code == VK_UP {
                                menu.select_prev();
                            } else {
                                menu.select_next();
                            }
                            SessionEffect::Redraw
                        },
                        None => SessionEffect::Nothing,
                    }
                } else {
                    SessionEffect::Nothing
                }
            },
        }
    }

    /// The lines to display: each suggestion with its match highlighted
    /// and the selected one marked; with no suggestion, the typed text
    /// alone, highlighted whole, or nothing when nothing is typed.
    pub fn display_lines(&self) -> (r: Vec<MenuLine>)
        ensures
            self.menu() matches Some(m) ==> r@.len() == m.entries().len() && forall|i: int|
                0 <= i < r@.len() ==> (#[trigger] r@[i]).text@ == m.entries()[i].name@
                    && r@[i].highlights@ == m.entries()[i].matches@ && r@[i].selected == (i
                    == m.selected()),
            self.menu() is None && self.input().len() == 0 ==> r@.len() == 0,
            self.menu() is None && self.input().len() > 0 ==> r@.len() == 1 && r@[0].text@
                == self.input() && r@[0].selected && r@[0].highlights@.len() == 1
                && r@[0].highlights@[0].start == 0 && r@[0].highlights@[0].end
                == crate::autocomplete::bytes_of(self.input()).len(),
    {
        let mut lines: Vec<MenuLine> = Vec::new();
        match &self.menu {
            Some(menu) => {
                let items = menu.iter();
                let mut i: usize = 0;
                while i < items.len()
                    invariant
                        i <= items@.len(),
                        self.menu matches Some(m) && items@.len() == m.entries().len() && forall|k: int|
                            0 <= k < items@.len() ==> *(#[trigger] items@[k]).0 == m.entries()[k]
                                && items@[k].1 == (k == m.selected()),
                        lines@.len() == i,
                        self.menu matches Some(m) && forall|k: int|
                            0 <= k < i ==> (#[trigger] lines@[k]).text@ == m.entries()[k].name@
                                && lines@[k].highlights@ == m.entries()[k].matches@
                                && lines@[k].selected == (k == m.selected()),
                    decreases items@.len() - i,
                {
                    let (suggestion, selected) = items[i];
                    lines.push(
                        MenuLine {
                            text: suggestion.name.clone(),
                            highlights: copy_ranges(&suggestion.matches),
                            selected: selected,
                        },
                    );
                    i += 1;
                }
            },
            None => {
                if !self.input.as_str().is_empty() {
                    let mut highlights: Vec<Range<usize>> = Vec::new();
                    highlights.push(Range { start: 0, end: self.input.as_str().as_bytes().len() });
                    lines.push(MenuLine { text: self.input.clone(), highlights: highlights, selected: true });
                }
            },
        }
        lines
    }

    /// The help line for the current state.
    pub fn help(&self) -> (r: HelpText)
        ensures
            self.menu() is None && self.input().len() == 0 ==> r == HelpText::Welcome,
            self.menu() is None && self.input().len() > 0 ==> r == HelpText::NoMatch,
            self.menu() matches Some(m) ==> (m.entries().len() > 0 ==> (r matches HelpText::RunCommand(
                name,
            ) && name@ == m.entries()[m.selected()].name@)),
    {
        match &self.menu {
            Some(menu) => match menu.selected_entry() {
                Some(s) => HelpText::RunCommand(s.name.clone()),
                None => HelpText::NoMatch,
            },
            None => {
                if !self.input.as_str().is_empty() {
                    HelpText::NoMatch
                } else {
                    HelpText::Welcome
                }
            },
        }
    }
}

} // verus!
