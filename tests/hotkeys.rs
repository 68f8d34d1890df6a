use enso::commands::{Command, CommandAction, CommandRegistry};
use enso::hotkeys::{parse_hotkeys, HotkeyCombination, HotkeyWarning};
use enso::keys::{GraphicKey, KeyDirection, VirtualKey};
use enso::plugins::InvokeHotkeysPlugin;

fn graphic(c: char) -> VirtualKey {
    VirtualKey::Graphic(GraphicKey::new(c).unwrap())
}

#[test]
fn binding_line_becomes_named_command() {
    let r = parse_hotkeys("Copy: ctrl+c");
    assert!(r.warnings.is_empty());
    assert_eq!(r.sections.len(), 1);
    assert_eq!(r.sections[0].name, "Global");
    assert_eq!(r.sections[0].exe_filter, None);
    assert_eq!(r.sections[0].commands.len(), 1);
    assert_eq!(r.sections[0].commands[0].name, "Copy (ctrl+c)");
    assert_eq!(r.sections[0].commands[0].hotkey.keys, vec![VirtualKey::Control, graphic('c')]);
}

#[test]
fn line_without_colon_warns_and_binds_nothing() {
    let r = parse_hotkeys("just some words");
    assert_eq!(
        r.warnings,
        vec![HotkeyWarning::NoColon { text: String::from("just some words"), line: 1 }]
    );
    assert_eq!(r.sections.len(), 1);
    assert!(r.sections[0].commands.is_empty());
}

#[test]
fn sections_filters_and_warnings() {
    let text = "# comment\n\n  Save : ctrl + s  \r\n@exefilter notepad.exe\n@exefilter other\n@app Browser\n@exefilter firefox\nBack: alt+[\n@bogus x\n@app\nBad: ctrl+nope\nCmd: a:b\n";
    let r = parse_hotkeys(text);
    assert_eq!(
        r.warnings,
        vec![
            HotkeyWarning::DuplicateExeFilter { line: 5 },
            HotkeyWarning::UnrecognizedDirective { directive: String::from("@bogus"), line: 9 },
            HotkeyWarning::MissingAppName { line: 10 },
            HotkeyWarning::BadHotkey { key: String::from("nope"), line: 11 },
        ]
    );
    assert_eq!(r.sections.len(), 2);
    assert_eq!(r.sections[0].name, "Global");
    assert_eq!(r.sections[0].exe_filter, Some(String::from("notepad.exe")));
    assert_eq!(r.sections[0].commands.len(), 1);
    assert_eq!(r.sections[0].commands[0].name, "Save (ctrl + s)");
    assert_eq!(r.sections[0].commands[0].hotkey.keys, vec![VirtualKey::Control, graphic('s')]);
    assert_eq!(r.sections[1].name, "Browser");
    assert_eq!(r.sections[1].exe_filter, Some(String::from("firefox")));
    assert_eq!(r.sections[1].commands.len(), 2);
    assert_eq!(r.sections[1].commands[0].name, "Back (alt+[)");
    assert_eq!(r.sections[1].commands[0].hotkey.keys, vec![VirtualKey::Alt, graphic('[')]);
    assert_eq!(r.sections[1].commands[1].name, "Cmd: a (b)");
}

#[test]
fn missing_exefilter_value_warns() {
    let r = parse_hotkeys("@exefilter");
    assert_eq!(r.warnings, vec![HotkeyWarning::MissingExeFilter { line: 1 }]);
}

#[test]
fn empty_file_has_only_the_global_section() {
    let r = parse_hotkeys("");
    assert!(r.warnings.is_empty());
    assert_eq!(r.sections.len(), 1);
    assert!(r.sections[0].commands.is_empty());
}

#[test]
fn combination_parse_reports_first_bad_token() {
    let c = HotkeyCombination::parse("shift + alt + F4").unwrap();
    assert_eq!(c.keys, vec![VirtualKey::Shift, VirtualKey::Alt, VirtualKey::F4]);
    assert_eq!(HotkeyCombination::parse("ctrl+xx+yy"), Err(String::from("xx")));
    assert_eq!(HotkeyCombination::parse(""), Err(String::from("")));
}

#[test]
fn press_goes_down_in_order_and_up_in_reverse() {
    let c = HotkeyCombination { keys: vec![VirtualKey::Control, VirtualKey::Shift, graphic('t')] };
    assert_eq!(
        c.press(),
        vec![
            (VirtualKey::Control, KeyDirection::Down),
            (VirtualKey::Shift, KeyDirection::Down),
            (graphic('t'), KeyDirection::Down),
            (graphic('t'), KeyDirection::Up),
            (VirtualKey::Shift, KeyDirection::Up),
            (VirtualKey::Control, KeyDirection::Up),
        ]
    );
}

#[test]
fn reload_after_deletion_unregisters_loaded_bindings() {
    let mut registry = CommandRegistry::new();
    registry.register(Command { name: String::from("quit"), action: CommandAction::Quit });
    let mut plugin = InvokeHotkeysPlugin::new();
    assert!(plugin.needs_read(Some(10)));
    let reparsed = plugin.maybe_reload(&mut registry, None, Some(10), Some("Copy: ctrl+c\nPaste: ctrl+v"));
    assert!(reparsed);
    assert!(registry.contains("Copy (ctrl+c)"));
    assert!(registry.contains("Paste (ctrl+v)"));
    assert!(!plugin.needs_read(Some(10)));
    assert!(!plugin.maybe_reload(&mut registry, None, Some(10), None));
    assert!(registry.contains("Copy (ctrl+c)"));
    assert!(plugin.maybe_reload(&mut registry, None, None, None));
    assert!(!registry.contains("Copy (ctrl+c)"));
    assert!(!registry.contains("Paste (ctrl+v)"));
    assert!(registry.contains("quit"));
}

#[test]
fn taken_names_are_skipped_and_kept() {
    let mut registry = CommandRegistry::new();
    registry.register(Command { name: String::from("Copy (ctrl+c)"), action: CommandAction::ShowHelp });
    let mut plugin = InvokeHotkeysPlugin::new();
    plugin.maybe_reload(&mut registry, None, Some(1), Some("Copy: ctrl+c"));
    plugin.maybe_reload(&mut registry, None, None, None);
    assert!(registry.contains("Copy (ctrl+c)"));
}

#[test]
fn exefilter_follows_the_foreground_application() {
    let mut registry = CommandRegistry::new();
    let mut plugin = InvokeHotkeysPlugin::new();
    let text = "@app Notes\n@exefilter notepad\nSave: ctrl+s";
    plugin.maybe_reload(&mut registry, Some(String::from("C:\\Windows\\explorer.exe")), Some(1), Some(text));
    assert!(!registry.contains("Save (ctrl+s)"));
    assert!(!plugin.maybe_reload(&mut registry, Some(String::from("C:\\Windows\\notepad.exe")), Some(1), None));
    assert!(registry.contains("Save (ctrl+s)"));
    plugin.maybe_reload(&mut registry, None, Some(1), None);
    assert!(registry.contains("Save (ctrl+s)"));
}

#[test]
fn newer_file_is_parsed_again_with_warnings() {
    let mut registry = CommandRegistry::new();
    let mut plugin = InvokeHotkeysPlugin::new();
    plugin.maybe_reload(&mut registry, None, Some(1), Some("A: a"));
    assert!(plugin.needs_read(Some(2)));
    assert!(plugin.maybe_reload(&mut registry, None, Some(2), Some("B: b\noops")));
    assert!(!registry.contains("A (a)"));
    assert!(registry.contains("B (b)"));
    assert_eq!(
        plugin.parse_warnings().unwrap(),
        &vec![HotkeyWarning::NoColon { text: String::from("oops"), line: 2 }]
    );
}
