//! Plugins that fill the command registry, and the hotkey loader that
//! keeps the registry in step with the hotkey file.
use vstd::prelude::*;

use crate::autocomplete::bytes_of;
use crate::commands::{ActionModel, Command, CommandAction, CommandRegistry};
use crate::hotkeys::{
    parse_file, parse_hotkeys, result_view, section_view, CommandModel, HotkeyCombination,
    HotkeyCommand, HotkeyParseResult, HotkeySection, HotkeyWarning, SectionModel, WarningModel, command_view,
};
use crate::keys::VirtualKey;
use crate::text::{contains_bytes, find_bytes, lemma_first_occurrence};

verus! {

/// A section applies unless it filters on the executable and the
/// foreground executable's path, when known, does not contain the filter.
pub open spec fn passes_filter(filter: Option<Seq<char>>, foreground: Option<Seq<char>>) -> bool {
    match (filter, foreground) {
        (Some(f), Some(p)) => contains_bytes(bytes_of(p), bytes_of(f)),
        _ => true,
    }
}

/// The registry and the names this loader put in it.
pub struct LoadModel {
    pub registry: Map<Seq<char>, ActionModel>,
    pub loaded: Seq<Seq<char>>,
}

/// Registers a binding unless its name is taken.
pub open spec fn load_one(st: LoadModel, c: CommandModel) -> LoadModel {
    if st.registry.contains_key(c.name) {
        st
    } else {
        LoadModel {
            registry: st.registry.insert(c.name, ActionModel::PressHotkey(c.keys)),
            loaded: st.loaded.push(c.name),
        }
    }
}

pub open spec fn load_commands(st: LoadModel, cmds: Seq<CommandModel>) -> LoadModel
    decreases cmds.len(),
{
    if cmds.len() == 0 {
        st
    } else {
        load_commands(load_one(st, cmds[0]), cmds.drop_first())
    }
}

pub open spec fn load_sections(
    st: LoadModel,
    secs: Seq<SectionModel>,
    foreground: Option<Seq<char>>,
) -> LoadModel
    decreases secs.len(),
{
    if secs.len() == 0 {
        st
    } else {
        let next = if passes_filter(secs[0].exe_filter, foreground) {
            load_commands(st, secs[0].commands)
        } else {
            st
        };
        load_sections(next, secs.drop_first(), foreground)
    }
}

/// `reg` without the names in `names`.
pub open spec fn unload_all(reg: Map<Seq<char>, ActionModel>, names: Seq<Seq<char>>) -> Map<
    Seq<char>,
    ActionModel,
>
    decreases names.len(),
{
    if names.len() == 0 {
        reg
    } else {
        unload_all(reg.remove(names[0]), names.drop_first())
    }
}

/// A reload: every name this loader put in is taken out, then each
/// applicable binding goes in unless its name is taken.
pub open spec fn reload_model(
    reg: Map<Seq<char>, ActionModel>,
    loaded: Seq<Seq<char>>,
    parsed: Option<Seq<SectionModel>>,
    foreground: Option<Seq<char>>,
) -> LoadModel {
    let base = LoadModel { registry: unload_all(reg, loaded), loaded: Seq::empty() };
    match parsed {
        None => base,
        Some(secs) => load_sections(base, secs, foreground),
    }
}

/// Unloading takes out exactly the given names and keeps every other
/// command as it was.
pub proof fn lemma_unload_all(reg: Map<Seq<char>, ActionModel>, names: Seq<Seq<char>>)
    ensures
        forall|k: Seq<char>|
            #[trigger] unload_all(reg, names).contains_key(k) <==> reg.contains_key(k) && !names.contains(k),
        forall|k: Seq<char>|
            #[trigger] unload_all(reg, names).contains_key(k) ==> unload_all(reg, names)[k] == reg[k],
    decreases names.len(),
{
    if names.len() > 0 {
        let rest = names.drop_first();
        lemma_unload_all(reg.remove(names[0]), rest);
        assert forall|k: Seq<char>| names.contains(k) <==> k == names[0] || rest.contains(k) by {
            if names.contains(k) && k != names[0] {
                let i = choose|i: int| 0 <= i < names.len() && names[i] == k;
                assert(rest[i - 1] == k);
            }
            if rest.contains(k) {
                let i = choose|i: int| 0 <= i < rest.len() && rest[i] == k;
                assert(names[i + 1] == k);
            }
            if k == names[0] {
                assert(names[0] == k);
            }
        }
        let u = unload_all(reg, names);
        assert(u == unload_all(reg.remove(names[0]), rest));
        assert forall|k: Seq<char>| #[trigger] u.contains_key(k) <==> reg.contains_key(k) && !names.contains(k) by {
            assert(unload_all(reg.remove(names[0]), rest).contains_key(k) <==> reg.remove(names[0]).contains_key(k) && !rest.contains(k));
        }
        assert forall|k: Seq<char>| #[trigger] u.contains_key(k) implies u[k] == reg[k] by {
            assert(unload_all(reg.remove(names[0]), rest).contains_key(k));
        }
    }
}

/// Once the hotkey file is gone, a reload takes out every binding the
/// loader had registered and registers none; every other command stays.
pub proof fn lemma_reload_without_file(
    reg: Map<Seq<char>, ActionModel>,
    loaded: Seq<Seq<char>>,
    foreground: Option<Seq<char>>,
)
    ensures
        reload_model(reg, loaded, None, foreground).loaded.len() == 0,
        forall|k: Seq<char>|
            #[trigger] reload_model(reg, loaded, None, foreground).registry.contains_key(k) <==> reg.contains_key(k)
                && !loaded.contains(k),
        forall|k: Seq<char>|
            #[trigger] reload_model(reg, loaded, None, foreground).registry.contains_key(k)
                ==> reload_model(reg, loaded, None, foreground).registry[k] == reg[k],
{
    lemma_unload_all(reg, loaded);
}

/// Whether the file must be read: it exists and is newer than the last
/// parse, or was never parsed.
pub open spec fn needs_parse(last: Option<u128>, modified: Option<u128>) -> bool {
    match modified {
        Some(m) => match last {
            Some(t) => m > t,
            None => true,
        },
        None => false,
    }
}

/// Whether the parsed bindings change: a new parse, or the file is gone.
pub open spec fn parse_changes(last: Option<u128>, modified: Option<u128>) -> bool {
    needs_parse(last, modified) || (modified is None && last is Some)
}

pub open spec fn opt_view(s: Option<String>) -> Option<Seq<char>> {
    match s {
        Some(x) => Some(x@),
        None => None,
    }
}

/// Whether `path` contains `filter`.
fn path_contains(path: &String, filter: &String) -> (r: bool)
    ensures
        r == contains_bytes(bytes_of(path@), bytes_of(filter@)),
{
    let hay = path.as_str().as_bytes();
    let needle = filter.as_str().as_bytes();
    proof {
        lemma_first_occurrence(hay@, needle@);
    }
    find_bytes(hay, needle).is_some()
}

/// Whether two optional texts are equal.
fn same_text(a: &Option<String>, b: &Option<String>) -> (r: bool)
    ensures
        r == (opt_view(*a) == opt_view(*b)),
{
    match (a, b) {
        (Some(x), Some(y)) => *x == *y,
        (None, None) => true,
        _ => false,
    }
}

/// A copy of a list of keys.
fn copy_keys(keys: &Vec<VirtualKey>) -> (r: Vec<VirtualKey>)
    ensures
        r@ == keys@,
{
    let mut r: Vec<VirtualKey> = Vec::new();
    let mut i: usize = 0;
    while i < keys.len()
        invariant
            i <= keys@.len(),
            r@ == keys@.subrange(0, i as int),
        decreases keys@.len() - i,
    {
        r.push(keys[i]);
        assert(r@ =~= keys@.subrange(0, i + 1));
        i += 1;
    }
    assert(r@ =~= keys@);
    r
}

/// Loads the bindings of the hotkey file into the registry and keeps them
/// current as the file and the foreground application change.
pub struct InvokeHotkeysPlugin {
    commands_loaded: Vec<String>,
    last_foreground_executable_path: Option<String>,
    last_parse: Option<(u128, HotkeyParseResult)>,
}

impl InvokeHotkeysPlugin {
    /// The names this loader registered.
    pub closed spec fn loaded(&self) -> Seq<Seq<char>> {
        self.commands_loaded@.map_values(|s: String| s@)
    }

    /// The foreground executable's path at the last reload.
    pub closed spec fn foreground(&self) -> Option<Seq<char>> {
        opt_view(self.last_foreground_executable_path)
    }

    /// When the file was last parsed.
    pub closed spec fn parsed_at(&self) -> Option<u128> {
        match self.last_parse {
            Some((t, _)) => Some(t),
            None => None,
        }
    }

    /// The last parse's warnings and sections.
    pub closed spec fn parsed(&self) -> Option<(Seq<WarningModel>, Seq<SectionModel>)> {
        match self.last_parse {
            Some((_, p)) => Some(result_view(p)),
            None => None,
        }
    }

    pub open spec fn parsed_sections(&self) -> Option<Seq<SectionModel>> {
        match self.parsed() {
            Some((_, s)) => Some(s),
            None => None,
        }
    }

    /// A loader that has loaded nothing and parsed nothing.
    pub fn new() -> (r: Self)
        ensures
            r.loaded() == Seq::<Seq<char>>::empty(),
            r.foreground() is None,
            r.parsed_at() is None,
            r.parsed() is None,
    {
        let r = InvokeHotkeysPlugin {
            commands_loaded: Vec::new(),
            last_foreground_executable_path: None,
            last_parse: None,
        };
        assert(r.loaded() =~= Seq::<Seq<char>>::empty());
        r
    }

    /// Whether the file, last modified at `modified` (none: it does not
    /// exist), has to be read.
    pub fn needs_read(&self, modified: Option<u128>) -> (r: bool)
        ensures
            r == needs_parse(self.parsed_at(), modified),
    {
        match modified {
            Some(m) => match &self.last_parse {
                Some((t, _)) => m > *t,
                None => true,
            },
            None => false,
        }
    }

    /// The warnings of the last parse.
    pub fn parse_warnings(&self) -> (r: Option<&Vec<HotkeyWarning>>)
        ensures
            self.parsed() is None <==> r is None,
            r matches Some(w) ==> self.parsed() matches Some(p) && p.0 == w@.map_values(
                |x: HotkeyWarning| crate::hotkeys::warning_view(x),
            ),
    {
        match &self.last_parse {
            Some((_, p)) => Some(&p.warnings),
            None => None,
        }
    }

    /// Parses the file again if it changed; forgets it if it is gone.
    /// `modified` is its modification time (none: it does not exist) and
    /// `contents` its text, read when `needs_read` asked for it.
    pub fn maybe_reparse(&mut self, modified: Option<u128>, contents: Option<&str>) -> (r: bool)
        requires
            needs_parse(old(self).parsed_at(), modified) ==> contents is Some,
        ensures
            r == parse_changes(old(self).parsed_at(), modified),
            final(self).loaded() == old(self).loaded(),
            final(self).foreground() == old(self).foreground(),
            needs_parse(old(self).parsed_at(), modified) ==> final(self).parsed_at() == modified
                && final(self).parsed() == Some(parse_file(contents->0@)),
            modified is None ==> final(self).parsed() is None && final(self).parsed_at() is None,
            !r ==> final(self).parsed() == old(self).parsed() && final(self).parsed_at() == old(
                self,
            ).parsed_at(),
    {
        let needed = self.needs_read(modified);
        if needed {
            let m = match modified {
                Some(m) => m,
                None => 0,
            };
            let text = match contents {
                Some(t) => t,
                None => "",
            };
            let parsed = parse_hotkeys(text);
            self.last_parse = Some((m, parsed));
            true
        } else if modified.is_none() && self.last_parse.is_some() {
            self.last_parse = None;
            true
        } else {
            false
        }
    }

    /// Takes every command this loader registered out of `registry`, then
    /// registers the applicable bindings of the last parse, skipping names
    /// already taken.
    pub fn reload(&mut self, registry: &mut CommandRegistry)
        requires
            old(registry).wf(),
        ensures
            final(registry).wf(),
            final(registry).view() == reload_model(
                old(registry).view(),
                old(self).loaded(),
                old(self).parsed_sections(),
                old(self).foreground(),
            ).registry,
            final(self).loaded() == reload_model(
                old(registry).view(),
                old(self).loaded(),
                old(self).parsed_sections(),
                old(self).foreground(),
            ).loaded,
            final(self).foreground() == old(self).foreground(),
            final(self).parsed() == old(self).parsed(),
            final(self).parsed_at() == old(self).parsed_at(),
    {
        let ghost names = self.loaded();
        let ghost reg0 = registry.view();
        let ghost lp = self.last_parse;
        let ghost fgp = self.last_foreground_executable_path;
        assert(names.subrange(0, names.len() as int) =~= names);
        let mut k: usize = 0;
        while k < self.commands_loaded.len()
            invariant
                k <= self.commands_loaded@.len(),
                names == self.loaded(),
                self.last_parse == lp,
                self.last_foreground_executable_path == fgp,
                registry.wf(),
                unload_all(reg0, names) == unload_all(registry.view(), names.subrange(k as int, names.len() as int)),
            decreases self.commands_loaded@.len() - k,
        {
            let ghost rest = names.subrange(k as int, names.len() as int);
            registry.unregister(self.commands_loaded[k].as_str());
            assert(rest.drop_first() =~= names.subrange(k + 1, names.len() as int));
            k += 1;
        }
        assert(names.subrange(k as int, names.len() as int) =~= Seq::<Seq<char>>::empty());
        self.commands_loaded = Vec::new();
        assert(self.loaded() =~= Seq::<Seq<char>>::empty());
        let ghost fg = self.foreground();
        match &self.last_parse {
            None => {},
            Some((_, parse)) => {
                let sections = &parse.sections;
                let ghost secs = sections@.map_values(|s: HotkeySection| section_view(s));
                assert(secs.subrange(0, secs.len() as int) =~= secs);
                let mut i: usize = 0;
                while i < sections.len()
                    invariant
                        i <= sections@.len(),
                        secs == sections@.map_values(|s: HotkeySection| section_view(s)),
                        fg == opt_view(self.last_foreground_executable_path),
                        self.last_parse == lp,
                        self.last_foreground_executable_path == fgp,
                        lp matches Some((_, pp)) && pp.sections == *sections,
                        registry.wf(),
                        load_sections(
                            LoadModel { registry: unload_all(reg0, names), loaded: Seq::empty() },
                            secs,
                            fg,
                        ) == load_sections(
                            LoadModel { registry: registry.view(), loaded: self.loaded() },
                            secs.subrange(i as int, secs.len() as int),
                            fg,
                        ),
                    decreases sections@.len() - i,
                {
                    let section = &sections[i];
                    let ghost here = secs.subrange(i as int, secs.len() as int);
                    assert(here[0] == section_view(*section));
                    assert(here.drop_first() =~= secs.subrange(i + 1, secs.len() as int));
                    let applies = match (&section.exe_filter, &self.last_foreground_executable_path) {
                        (Some(f), Some(p)) => path_contains(p, f),
                        _ => true,
                    };
                    assert(applies == passes_filter(here[0].exe_filter, fg));
                    if applies {
                        let commands = &section.commands;
                        let ghost cmds = section_view(*section).commands;
                        let ghost target = load_commands(
                            LoadModel { registry: registry.view(), loaded: self.loaded() },
                            cmds,
                        );
                        assert(cmds.subrange(0, cmds.len() as int) =~= cmds);
                        let mut c: usize = 0;
                        while c < commands.len()
                            invariant
                                c <= commands@.len(),
                                cmds == commands@.map_values(
                                    |x: HotkeyCommand| command_view(x),
                                ),
                                registry.wf(),
                                self.last_parse == lp,
                                self.last_foreground_executable_path == fgp,
                                target == load_commands(
                                    LoadModel { registry: registry.view(), loaded: self.loaded() },
                                    cmds.subrange(c as int, cmds.len() as int),
                                ),
                            decreases commands@.len() - c,
                        {
                            let command = &commands[c];
                            let ghost here_c = cmds.subrange(c as int, cmds.len() as int);
                            assert(here_c[0] == command_view(*command));
                            assert(here_c.drop_first() =~= cmds.subrange(c + 1, cmds.len() as int));
                            if !registry.contains(command.name.as_str()) {
                                let ghost before = self.loaded();
                                self.commands_loaded.push(command.name.clone());
                                assert(self.loaded() =~= before.push(command.name@));
                                let keys = copy_keys(&command.hotkey.keys);
                                registry.register(
                                    Command {
                                        name: command.name.clone(),
                                        action: CommandAction::PressHotkey(HotkeyCombination { keys: keys }),
                                    },
                                );
                            }
                            c += 1;
                        }
                        assert(cmds.subrange(c as int, cmds.len() as int) =~= Seq::<CommandModel>::empty());
                    }
                    i += 1;
                }
            },
        }
    }

    /// Brings the registry up to date: reparses the file if it changed and
    /// reloads if it did or if the foreground executable changed. Whether
    /// the file was parsed again or dropped, so that its warnings can be
    /// shown.
    pub fn maybe_reload(
        &mut self,
        registry: &mut CommandRegistry,
        foreground: Option<String>,
        modified: Option<u128>,
        contents: Option<&str>,
    ) -> (r: bool)
        requires
            old(registry).wf(),
            needs_parse(old(self).parsed_at(), modified) ==> contents is Some,
        ensures
            final(registry).wf(),
            hotkey_state_after(*old(self), opt_view(foreground), modified, opt_text(contents), *final(self), r),
            final(registry).view() == hotkey_reload_result(
                *old(self),
                old(registry).view(),
                opt_view(foreground),
                *final(self),
                r,
            ).registry,
            final(self).loaded() == hotkey_reload_result(
                *old(self),
                old(registry).view(),
                opt_view(foreground),
                *final(self),
                r,
            ).loaded,
    {
        let changed_foreground = !same_text(&foreground, &self.last_foreground_executable_path);
        let reparsed = self.maybe_reparse(modified, contents);
        if !changed_foreground && !reparsed {
            return false;
        }
        if changed_foreground {
            self.last_foreground_executable_path = foreground;
        }
        self.reload(registry);
        reparsed
    }

    /// First load: the bindings of the file, and the command that shows the
    /// foreground window's name and executable.
    pub fn init(
        &mut self,
        registry: &mut CommandRegistry,
        foreground: Option<String>,
        modified: Option<u128>,
        contents: Option<&str>,
    ) -> (r: bool)
        requires
            old(registry).wf(),
            needs_parse(old(self).parsed_at(), modified) ==> contents is Some,
        ensures
            final(registry).wf(),
            hotkey_state_after(*old(self), opt_view(foreground), modified, opt_text(contents), *final(self), r),
            final(registry).view() == hotkey_reload_result(
                *old(self),
                old(registry).view(),
                opt_view(foreground),
                *final(self),
                r,
            ).registry.insert("show foreground window info"@, ActionModel::ShowForegroundWindowInfo),
            final(self).loaded() == hotkey_reload_result(
                *old(self),
                old(registry).view(),
                opt_view(foreground),
                *final(self),
                r,
            ).loaded,
    {
        let reparsed = self.maybe_reload(registry, foreground, modified, contents);
        registry.register(
            Command {
                name: "show foreground window info".to_owned(),
                action: CommandAction::ShowForegroundWindowInfo,
            },
        );
        reparsed
    }
}

pub open spec fn opt_text(c: Option<&str>) -> Option<Seq<char>> {
    match c {
        Some(t) => Some(t@),
        None => None,
    }
}

/// What a hotkey reload leaves of the loader's own state, from `p0` to
/// `p1`: the foreground executable `foreground` is remembered, the file
/// (modified at `modified`, with text `text`) is parsed when it is new or
/// newer, forgotten when it is gone, and kept otherwise; `r` says whether
/// the parse changed.
pub open spec fn hotkey_state_after(
    p0: InvokeHotkeysPlugin,
    foreground: Option<Seq<char>>,
    modified: Option<u128>,
    text: Option<Seq<char>>,
    p1: InvokeHotkeysPlugin,
    r: bool,
) -> bool {
    &&& r == parse_changes(p0.parsed_at(), modified)
    &&& p1.foreground() == foreground
    &&& needs_parse(p0.parsed_at(), modified) ==> p1.parsed_at() == modified && p1.parsed() == Some(
        parse_file(text->0),
    )
    &&& modified is None ==> p1.parsed() is None && p1.parsed_at() is None
    &&& !r ==> p1.parsed() == p0.parsed() && p1.parsed_at() == p0.parsed_at()
}

/// The registry and the loaded names after a hotkey reload: reloaded when
/// the foreground executable or the parse changed, untouched otherwise.
pub open spec fn hotkey_reload_result(
    p0: InvokeHotkeysPlugin,
    reg0: Map<Seq<char>, ActionModel>,
    foreground: Option<Seq<char>>,
    p1: InvokeHotkeysPlugin,
    r: bool,
) -> LoadModel {
    if foreground != p0.foreground() || r {
        reload_model(reg0, p0.loaded(), p1.parsed_sections(), foreground)
    } else {
        LoadModel { registry: reg0, loaded: p0.loaded() }
    }
}

/// The registry with the built-in commands added.
pub open spec fn with_builtin_commands(reg: Map<Seq<char>, ActionModel>) -> Map<Seq<char>, ActionModel> {
    reg.insert("help"@, ActionModel::ShowHelp).insert("quit"@, ActionModel::Quit).insert(
        "open enso directory"@,
        ActionModel::OpenHomeDirectory,
    )
}

/// The registry with an `insert <name>` command for each annotated
/// character, in order.
pub open spec fn with_insert_commands(
    reg: Map<Seq<char>, ActionModel>,
    annotations: Seq<(Seq<char>, Seq<char>)>,
) -> Map<Seq<char>, ActionModel>
    decreases annotations.len(),
{
    if annotations.len() == 0 {
        reg
    } else {
        with_insert_commands(
            reg.insert("insert "@ + annotations[0].1, ActionModel::TypeText(annotations[0].0)),
            annotations.drop_first(),
        )
    }
}

pub open spec fn annotation_views(a: Seq<(String, String)>) -> Seq<(Seq<char>, Seq<char>)> {
    a.map_values(|p: (String, String)| (p.0@, p.1@))
}

/// Registers `help`, `quit` and `open enso directory`.
fn register_builtin(registry: &mut CommandRegistry)
    requires
        old(registry).wf(),
    ensures
        final(registry).wf(),
        final(registry).view() == with_builtin_commands(old(registry).view()),
{
    registry.register(Command { name: "help".to_owned(), action: CommandAction::ShowHelp });
    registry.register(Command { name: "quit".to_owned(), action: CommandAction::Quit });
    registry.register(
        Command { name: "open enso directory".to_owned(), action: CommandAction::OpenHomeDirectory },
    );
}

/// Registers `insert <name>` for each `(character, name)`.
fn register_insert_commands(registry: &mut CommandRegistry, annotations: &Vec<(String, String)>)
    requires
        old(registry).wf(),
    ensures
        final(registry).wf(),
        final(registry).view() == with_insert_commands(old(registry).view(), annotation_views(annotations@)),
{
    let ghost anns = annotation_views(annotations@);
    let ghost target = with_insert_commands(registry.view(), anns);
    assert(anns.subrange(0, anns.len() as int) =~= anns);
    let mut i: usize = 0;
    while i < annotations.len()
        invariant
            i <= annotations@.len(),
            anns == annotation_views(annotations@),
            registry.wf(),
            target == with_insert_commands(registry.view(), anns.subrange(i as int, anns.len() as int)),
        decreases annotations@.len() - i,
    {
        let (ch, name) = &annotations[i];
        let ghost here = anns.subrange(i as int, anns.len() as int);
        assert(here[0] == (ch@, name@));
        assert(here.drop_first() =~= anns.subrange(i + 1, anns.len() as int));
        let mut command_name = "insert ".to_owned();
        command_name.append(name.as_str());
        registry.register(Command { name: command_name, action: CommandAction::TypeText(ch.clone()) });
        i += 1;
    }
    assert(anns.subrange(i as int, anns.len() as int) =~= Seq::<(Seq<char>, Seq<char>)>::empty());
}

/// Adds `help`, `quit` and `open enso directory`.
pub struct BuiltinPlugin;

impl BuiltinPlugin {
    pub fn init(&mut self, registry: &mut CommandRegistry)
        requires
            old(registry).wf(),
        ensures
            final(registry).wf(),
            final(registry).view() == with_builtin_commands(old(registry).view()),
    {
        register_builtin(registry);
    }
}

/// Adds an `insert <name>` command for each annotated character.
pub struct InsertUnicodeCharactersPlugin {
    pub annotations: Vec<(String, String)>,
}

impl InsertUnicodeCharactersPlugin {
    pub fn init(&self, registry: &mut CommandRegistry)
        requires
            old(registry).wf(),
        ensures
            final(registry).wf(),
            final(registry).view() == with_insert_commands(old(registry).view(), annotation_views(self.annotations@)),
    {
        register_insert_commands(registry, &self.annotations);
    }
}

/// Adds `help` and `quit`, and the insert commands.
pub struct DefaultCommandsPlugin {
    pub annotations: Vec<(String, String)>,
}

impl DefaultCommandsPlugin {
    /// The plugin, with the characters its insert commands type.
    pub fn new(annotations: Vec<(String, String)>) -> (r: Plugin)
        ensures
            r matches Plugin::DefaultCommands(p) && p.annotations@ == annotations@,
    {
        Plugin::DefaultCommands(DefaultCommandsPlugin { annotations: annotations })
    }

    pub fn init(&self, registry: &mut CommandRegistry)
        requires
            old(registry).wf(),
        ensures
            final(registry).wf(),
            final(registry).view() == with_insert_commands(
                old(registry).view().insert("help"@, ActionModel::ShowHelp).insert("quit"@, ActionModel::Quit),
                annotation_views(self.annotations@),
            ),
    {
        registry.register(Command { name: "help".to_owned(), action: CommandAction::ShowHelp });
        registry.register(Command { name: "quit".to_owned(), action: CommandAction::Quit });
        register_insert_commands(registry, &self.annotations);
    }
}

/// A source of commands, set up once and told when a quasimode starts.
pub enum Plugin {
    Builtin(BuiltinPlugin),
    InsertUnicodeCharacters(InsertUnicodeCharactersPlugin),
    InvokeHotkeys(InvokeHotkeysPlugin),
    DefaultCommands(DefaultCommandsPlugin),
}

/// What the host knows when a plugin runs: the foreground executable's
/// path, and the hotkey file's modification time (none: it does not exist)
/// and text (read when `Plugin::needs_hotkey_file` asked for it).
pub struct HostState {
    pub foreground: Option<String>,
    pub hotkeys_modified: Option<u128>,
    pub hotkeys_text: Option<String>,
}

/// The hotkey file's text as the loader takes it.
fn host_text(host: &HostState) -> (r: Option<&str>)
    ensures
        r is Some <==> host.hotkeys_text is Some,
        r matches Some(t) ==> t@ == host.hotkeys_text->0@,
        opt_text(r) == opt_view(host.hotkeys_text),
{
    match &host.hotkeys_text {
        Some(t) => Some(t.as_str()),
        None => None,
    }
}

impl Plugin {
    /// Whether this plugin must be handed the hotkey file's text, last
    /// modified at `modified`.
    pub fn needs_hotkey_file(&self, modified: Option<u128>) -> (r: bool)
        ensures
            r == (self matches Plugin::InvokeHotkeys(p) && needs_parse(p.parsed_at(), modified)),
    {
        match self {
            Plugin::InvokeHotkeys(p) => p.needs_read(modified),
            _ => false,
        }
    }

    /// Sets the plugin up; whether hotkey warnings are to be shown.
    pub fn init(&mut self, registry: &mut CommandRegistry, host: &HostState) -> (r: bool)
        requires
            old(registry).wf(),
            old(self).needs_hotkey_file_spec(host.hotkeys_modified) ==> host.hotkeys_text is Some,
        ensures
            final(registry).wf(),
            (*old(self)) is Builtin ==> !r && final(registry).view() == with_builtin_commands(
                old(registry).view(),
            ),
            (*old(self)) is InsertUnicodeCharacters ==> !r && final(registry).view()
                == with_insert_commands(
                old(registry).view(),
                annotation_views((*old(self))->InsertUnicodeCharacters_0.annotations@),
            ),
            (*old(self)) is DefaultCommands ==> !r && final(registry).view() == with_insert_commands(
                old(registry).view().insert("help"@, ActionModel::ShowHelp).insert(
                    "quit"@,
                    ActionModel::Quit,
                ),
                annotation_views((*old(self))->DefaultCommands_0.annotations@),
            ),
            (*old(self)) is InvokeHotkeys ==> {
                let p0 = (*old(self))->InvokeHotkeys_0;
                let p1 = (*final(self))->InvokeHotkeys_0;
                let fg = opt_view(host.foreground);
                &&& (*final(self)) is InvokeHotkeys
                &&& hotkey_state_after(p0, fg, host.hotkeys_modified, opt_view(host.hotkeys_text), p1, r)
                &&& final(registry).view() == hotkey_reload_result(
                    p0,
                    old(registry).view(),
                    fg,
                    p1,
                    r,
                ).registry.insert("show foreground window info"@, ActionModel::ShowForegroundWindowInfo)
                &&& p1.loaded() == hotkey_reload_result(p0, old(registry).view(), fg, p1, r).loaded
            },
            !((*old(self)) is InvokeHotkeys) ==> *final(self) == *old(self),
    {
        match self {
            Plugin::Builtin(p) => {
                p.init(registry);
                false
            },
            Plugin::InsertUnicodeCharacters(p) => {
                p.init(registry);
                false
            },
            Plugin::DefaultCommands(p) => {
                p.init(registry);
                false
            },
            Plugin::InvokeHotkeys(p) => {
                let foreground = clone_text(&host.foreground);
                p.init(registry, foreground, host.hotkeys_modified, host_text(host))
            },
        }
    }

    /// Tells the plugin a quasimode starts; whether hotkey warnings are to
    /// be shown.
    pub fn on_quasimode_start(&mut self, registry: &mut CommandRegistry, host: &HostState) -> (r: bool)
        requires
            old(registry).wf(),
            old(self).needs_hotkey_file_spec(host.hotkeys_modified) ==> host.hotkeys_text is Some,
        ensures
            final(registry).wf(),
            !((*old(self)) is InvokeHotkeys) ==> !r && final(registry).view() == old(registry).view()
                && *final(self) == *old(self),
            (*old(self)) is InvokeHotkeys ==> {
                let p0 = (*old(self))->InvokeHotkeys_0;
                let p1 = (*final(self))->InvokeHotkeys_0;
                let fg = opt_view(host.foreground);
                &&& (*final(self)) is InvokeHotkeys
                &&& hotkey_state_after(p0, fg, host.hotkeys_modified, opt_view(host.hotkeys_text), p1, r)
                &&& final(registry).view() == hotkey_reload_result(
                    p0,
                    old(registry).view(),
                    fg,
                    p1,
                    r,
                ).registry
                &&& p1.loaded() == hotkey_reload_result(p0, old(registry).view(), fg, p1, r).loaded
            },
    {
        match self {
            Plugin::InvokeHotkeys(p) => {
                let foreground = clone_text(&host.foreground);
                p.maybe_reload(registry, foreground, host.hotkeys_modified, host_text(host))
            },
            _ => false,
        }
    }

    pub open spec fn needs_hotkey_file_spec(&self, modified: Option<u128>) -> bool {
        self matches Plugin::InvokeHotkeys(p) && needs_parse(p.parsed_at(), modified)
    }
}

/// A copy of an optional text.
fn clone_text(s: &Option<String>) -> (r: Option<String>)
    ensures
        opt_view(r) == opt_view(*s),
{
    match s {
        Some(t) => Some(t.clone()),
        None => None,
    }
}

/// The plugins, in the order they are set up.
pub fn get_all_plugins(annotations: Vec<(String, String)>) -> (r: Vec<Plugin>)
    ensures
        r@.len() == 3,
        r@[0] is Builtin,
        r@[1] matches Plugin::InsertUnicodeCharacters(p) && p.annotations@ == annotations@,
        r@[2] matches Plugin::InvokeHotkeys(p) && p.loaded() == Seq::<Seq<char>>::empty()
            && p.parsed() is None && p.parsed_at() is None && p.foreground() is None,
{
    let mut r: Vec<Plugin> = Vec::new();
    r.push(Plugin::Builtin(BuiltinPlugin));
    r.push(Plugin::InsertUnicodeCharacters(InsertUnicodeCharactersPlugin { annotations: annotations }));
    r.push(Plugin::InvokeHotkeys(InvokeHotkeysPlugin::new()));
    r
}

} // verus!
