use enso::commands::{Command, CommandAction, CommandRegistry};
use enso::event_loop::EventLoop;
use enso::plugins::{get_all_plugins, DefaultCommandsPlugin, HostState, Plugin};
use enso::quasimode::HookEvent;
use enso::session::{HelpText, MenuLine, SessionEffect, UserInterface};

const VK_BACK: i32 = 0x08;
const VK_UP: i32 = 0x26;
const VK_DOWN: i32 = 0x28;

fn registry() -> CommandRegistry {
    let mut r = CommandRegistry::new();
    r.register(Command { name: String::from("quit"), action: CommandAction::Quit });
    r.register(Command { name: String::from("tada"), action: CommandAction::TypeText(String::from("\u{1f389}")) });
    r.register(Command { name: String::from("help"), action: CommandAction::ShowHelp });
    r
}

#[test]
fn typing_selects_and_runs_a_command() {
    let reg = registry();
    let mut s = UserInterface::new();
    assert_eq!(s.process_event(HookEvent::QuasimodeStart, &reg), SessionEffect::Redraw);
    assert_eq!(s.help(), HelpText::Welcome);
    assert_eq!(s.process_event(HookEvent::Keypress(0x54), &reg), SessionEffect::Redraw);
    assert_eq!(s.input_text(), "t");
    assert_eq!(s.help(), HelpText::RunCommand(String::from("tada")));
    assert_eq!(s.process_event(HookEvent::Keypress(VK_DOWN), &reg), SessionEffect::Redraw);
    assert_eq!(s.help(), HelpText::RunCommand(String::from("quit")));
    assert_eq!(s.process_event(HookEvent::QuasimodeEnd, &reg), SessionEffect::Execute(CommandAction::Quit));
}

#[test]
fn backspace_edits_and_unknown_text_is_reported() {
    let reg = registry();
    let mut s = UserInterface::new();
    s.process_event(HookEvent::QuasimodeStart, &reg);
    s.process_event(HookEvent::Keypress(0x5A), &reg);
    s.process_event(HookEvent::Keypress(0x5A), &reg);
    assert_eq!(s.input_text(), "zz");
    assert_eq!(s.help(), HelpText::NoMatch);
    assert_eq!(s.process_event(HookEvent::Keypress(VK_BACK), &reg), SessionEffect::Redraw);
    assert_eq!(s.input_text(), "z");
    assert_eq!(s.process_event(HookEvent::Keypress(VK_UP), &reg), SessionEffect::Nothing);
    assert_eq!(s.process_event(HookEvent::QuasimodeEnd, &reg), SessionEffect::UnknownCommand);
}

#[test]
fn empty_quasimode_does_nothing() {
    let reg = registry();
    let mut s = UserInterface::new();
    s.process_event(HookEvent::QuasimodeStart, &reg);
    assert_eq!(s.process_event(HookEvent::Keypress(VK_BACK), &reg), SessionEffect::Nothing);
    assert_eq!(s.process_event(HookEvent::Keypress(0x70), &reg), SessionEffect::Nothing);
    assert_eq!(s.process_event(HookEvent::QuasimodeEnd, &reg), SessionEffect::Nothing);
}

#[test]
fn start_clears_previous_text_and_menu() {
    let reg = registry();
    let mut s = UserInterface::new();
    s.process_event(HookEvent::QuasimodeStart, &reg);
    s.process_event(HookEvent::Keypress(0x48), &reg);
    assert!(s.current_menu().is_some());
    s.process_event(HookEvent::QuasimodeStart, &reg);
    assert_eq!(s.input_text(), "");
    assert!(s.current_menu().is_none());
}

#[test]
fn plugins_fill_the_registry() {
    let mut reg = CommandRegistry::new();
    let host = HostState { foreground: None, hotkeys_modified: None, hotkeys_text: None };
    let mut plugins = get_all_plugins(vec![(String::from("\u{1f389}"), String::from("party popper"))]);
    for p in plugins.iter_mut() {
        assert!(!p.needs_hotkey_file(None));
        assert!(!p.init(&mut reg, &host));
    }
    assert!(reg.contains("help"));
    assert!(reg.contains("quit"));
    assert!(reg.contains("open enso directory"));
    assert!(reg.contains("insert party popper"));
    assert!(reg.contains("show foreground window info"));
    let found = reg.resolve("popper", 12);
    assert_eq!(found.len(), 1);
    assert_eq!(found[0].name, "insert party popper");
    assert_eq!(found[0].matches, vec![13..19]);
    assert_eq!(found[0].value, CommandAction::TypeText(String::from("\u{1f389}")));
}

#[test]
fn default_commands_plugin_adds_help_and_quit() {
    let mut reg = CommandRegistry::new();
    let host = HostState { foreground: None, hotkeys_modified: None, hotkeys_text: None };
    let mut p = DefaultCommandsPlugin::new(vec![]);
    assert!(matches!(p, Plugin::DefaultCommands(_)));
    p.init(&mut reg, &host);
    assert!(reg.contains("help"));
    assert!(reg.contains("quit"));
    assert!(!p.on_quasimode_start(&mut reg, &host));
}

#[test]
fn hotkey_plugin_reads_file_on_quasimode_start() {
    let mut reg = CommandRegistry::new();
    let mut plugins = get_all_plugins(vec![]);
    let host = HostState {
        foreground: None,
        hotkeys_modified: Some(5),
        hotkeys_text: Some(String::from("Copy: ctrl+c")),
    };
    assert!(plugins[2].needs_hotkey_file(Some(5)));
    assert!(plugins[2].on_quasimode_start(&mut reg, &host));
    assert!(reg.contains("Copy (ctrl+c)"));
    assert!(!plugins[2].needs_hotkey_file(Some(5)));
}

#[test]
fn event_loop_keeps_its_thread_id() {
    assert_eq!(EventLoop::new(42).get_thread_id(), 42);
}

#[test]
fn display_lines_follow_the_menu_and_the_text() {
    let reg = registry();
    let mut s = UserInterface::new();
    s.process_event(HookEvent::QuasimodeStart, &reg);
    assert!(s.display_lines().is_empty());
    s.process_event(HookEvent::Keypress(0x54), &reg);
    s.process_event(HookEvent::Keypress(VK_DOWN), &reg);
    assert_eq!(
        s.display_lines(),
        vec![
            MenuLine { text: String::from("tada"), highlights: vec![0..1], selected: false },
            MenuLine { text: String::from("quit"), highlights: vec![3..4], selected: true },
        ]
    );
    s.process_event(HookEvent::Keypress(0x58), &reg);
    assert_eq!(
        s.display_lines(),
        vec![MenuLine { text: String::from("tx"), highlights: vec![0..2], selected: true }]
    );
}
