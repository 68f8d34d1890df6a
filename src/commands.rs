//! Commands and the registry that names them.
use vstd::prelude::*;

use crate::autocomplete::{capped, is_top_ranking, match_ranges_of, matching_names, AutocompleteMap, AutocompleteSuggestion};
use crate::hotkeys::HotkeyCombination;
use crate::keys::VirtualKey;

verus! {

/// What a command does when it runs; the host carries it out.
#[derive(Debug, Clone, PartialEq, Eq)]
pub enum CommandAction {
    /// Show the help message.
    ShowHelp,
    /// Leave the launcher.
    Quit,
    /// Open the launcher's home directory in the file browser.
    OpenHomeDirectory,
    /// Show the foreground window's name and executable path.
    ShowForegroundWindowInfo,
    /// Press a key combination.
    PressHotkey(HotkeyCombination),
    /// Type text into the foreground application.
    TypeText(String),
}

/// A command's action as plain values.
pub enum ActionModel {
    ShowHelp,
    Quit,
    OpenHomeDirectory,
    ShowForegroundWindowInfo,
    PressHotkey(Seq<VirtualKey>),
    TypeText(Seq<char>),
}

pub open spec fn action_view(a: CommandAction) -> ActionModel {
    match a {
        CommandAction::ShowHelp => ActionModel::ShowHelp,
        CommandAction::Quit => ActionModel::Quit,
        CommandAction::OpenHomeDirectory => ActionModel::OpenHomeDirectory,
        CommandAction::ShowForegroundWindowInfo => ActionModel::ShowForegroundWindowInfo,
        CommandAction::PressHotkey(h) => ActionModel::PressHotkey(h.keys@),
        CommandAction::TypeText(t) => ActionModel::TypeText(t@),
    }
}

/// A named unit of work.
#[derive(Debug, Clone, PartialEq, Eq)]
pub struct Command {
    pub name: String,
    pub action: CommandAction,
}

/// Commands by name, queried by the autocomplete index.
pub struct CommandRegistry {
    commands: AutocompleteMap<CommandAction>,
}

impl CommandRegistry {
    pub closed spec fn wf(&self) -> bool {
        self.commands.wf()
    }

    /// The registered actions by name.
    pub closed spec fn view(&self) -> Map<Seq<char>, ActionModel> {
        self.commands.view().map_values(|a: CommandAction| action_view(a))
    }

    /// The registered actions by name, as they are held.
    pub closed spec fn actions(&self) -> Map<Seq<char>, CommandAction> {
        self.commands.view()
    }

    /// The registry holds finitely many commands.
    pub proof fn lemma_domain_finite(&self)
        requires
            self.wf(),
        ensures
            self.view().dom().finite(),
            self.view().dom() == self.actions().dom(),
    {
        self.commands.lemma_domain_finite();
        assert(self.view().dom() =~= self.actions().dom());
    }

    pub fn new() -> (r: Self)
        ensures
            r.wf(),
            r.view() == Map::<Seq<char>, ActionModel>::empty(),
    {
        let r = CommandRegistry { commands: AutocompleteMap::new() };
        assert(r.view() =~= Map::<Seq<char>, ActionModel>::empty());
        r
    }

    /// Registers `command` under its name, replacing any command of that name.
    pub fn register(&mut self, command: Command)
        requires
            old(self).wf(),
        ensures
            final(self).wf(),
            final(self).view() == old(self).view().insert(command.name@, action_view(command.action)),
            final(self).actions() == old(self).actions().insert(command.name@, command.action),
    {
        let Command { name, action } = command;
        self.commands.insert(name.as_str(), action);
        assert(self.view() =~= old(self).view().insert(name@, action_view(action)));
    }

    /// Removes the command named `name`; whether there was one.
    pub fn unregister(&mut self, name: &str) -> (r: bool)
        requires
            old(self).wf(),
        ensures
            final(self).wf(),
            final(self).view() == old(self).view().remove(name@),
            final(self).actions() == old(self).actions().remove(name@),
            r == old(self).view().contains_key(name@),
    {
        let removed = self.commands.remove(name);
        assert(self.view() =~= old(self).view().remove(name@));
        removed.is_some()
    }

    /// Whether a command named `name` is registered.
    pub fn contains(&self, name: &str) -> (r: bool)
        requires
            self.wf(),
        ensures
            r == self.view().contains_key(name@),
    {
        self.commands.contains(name)
    }

    /// The `max_results` best-ranked commands for `text`, best first.
    pub fn resolve(&self, text: &str, max_results: usize) -> (r: Vec<AutocompleteSuggestion<CommandAction>>)
        requires
            self.wf(),
        ensures
            is_top_ranking(text@, self.view().dom(), max_results as nat, crate::autocomplete::suggestion_names(r@)),
            r@.len() == capped(max_results as nat, matching_names(text@, self.view().dom()).len()),
            forall|i: int|
                0 <= i < r@.len() ==> match_ranges_of(text@, #[trigger] r@[i].name@, r@[i].matches@)
                    && cloned(self.actions()[r@[i].name@], r@[i].value),
    {
        assert(self.view().dom() =~= self.commands.view().dom());
        self.commands.autocomplete(text, max_results)
    }
}

} // verus!
