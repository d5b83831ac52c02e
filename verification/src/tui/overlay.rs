//! Dialogs over the document.

use std::collections::HashMap;

use vstd::prelude::*;

use crate::code::CodeId;
use crate::picker::PickerAction;
use crate::task::TaskStatus;
use crate::tui::confirm::{self, Confirm, ConfirmAction};
use crate::tui::dependencies::{self, Dependencies};
use crate::tui::envs::{self, EnvVars};
use crate::tui::file_picker::FilePicker;
use crate::tui::goto::{self, Goto};
use crate::tui::help::{self, Help};
use crate::tui::preview::interact::MouseKind;
use crate::tui::search::{self, Search};
use crate::tui::themes::{self, outcome_view, OutcomeView, ThemeSelector};

verus! {

/// A dialog over the document.
pub enum Overlay {
    Confirm(Confirm),
    Help(Help),
    /// The variables, which outlive the dialog.
    Envs,
    Search(Search),
    Goto(Goto),
    Themes(ThemeSelector),
    FilePicker { picker: FilePicker, quit_on_cancel: bool },
    Dependencies(Dependencies),
}

/// An action of a dialog.
#[derive(Clone, Copy, Debug, PartialEq, Eq, Structural)]
pub enum Message {
    Confirm(confirm::Action),
    Help(help::Action),
    Envs(envs::Action),
    Search(search::Action),
    Goto(goto::Action),
    Themes(themes::Action),
    FilePicker(PickerAction),
    Dependencies(dependencies::Action),
}

/// What a dialog asks of its owner.
pub enum Effect {
    Close,
    Quit,
    Reload,
    Rerun(CodeId),
    ClearSearch,
    RefreshSearch(String),
    SelectCode(CodeId),
    OpenFile(String),
    /// Show the theme of a name for now.
    PreviewTheme(String),
    /// Take the theme of a name.
    SaveTheme(String),
    /// Go back to the theme of a name.
    RestoreTheme(String),
}

/// What a dialog asks of its owner.
pub enum EffectView {
    Close,
    Quit,
    Reload,
    Rerun(CodeId),
    ClearSearch,
    RefreshSearch(Seq<char>),
    SelectCode(CodeId),
    OpenFile(Seq<char>),
    PreviewTheme(Seq<char>),
    SaveTheme(Seq<char>),
    RestoreTheme(Seq<char>),
}

impl View for Effect {
    type V = EffectView;

    open spec fn view(&self) -> EffectView {
        match self {
            Effect::Close => EffectView::Close,
            Effect::Quit => EffectView::Quit,
            Effect::Reload => EffectView::Reload,
            Effect::Rerun(id) => EffectView::Rerun(*id),
            Effect::ClearSearch => EffectView::ClearSearch,
            Effect::RefreshSearch(term) => EffectView::RefreshSearch(term@),
            Effect::SelectCode(id) => EffectView::SelectCode(*id),
            Effect::OpenFile(path) => EffectView::OpenFile(path@),
            Effect::PreviewTheme(name) => EffectView::PreviewTheme(name@),
            Effect::SaveTheme(name) => EffectView::SaveTheme(name@),
            Effect::RestoreTheme(name) => EffectView::RestoreTheme(name@),
        }
    }
}

/// The contents of an effect that may be missing.
pub open spec fn effect_view(effect: Option<Effect>) -> Option<EffectView> {
    match effect {
        Some(effect) => Some(effect@),
        None => None,
    }
}

/// What follows from a prompt.
pub open spec fn confirm_effect(outcome: Option<confirm::Action>) -> Option<EffectView> {
    match outcome {
        Some(confirm::Action::Confirmed(ConfirmAction::Quit)) => Some(EffectView::Quit),
        Some(confirm::Action::Confirmed(ConfirmAction::ReloadFile)) => Some(EffectView::Reload),
        Some(confirm::Action::Confirmed(ConfirmAction::ReRun(id))) => Some(EffectView::Rerun(id)),
        Some(confirm::Action::Cancelled) => Some(EffectView::Close),
        _ => None,
    }
}

/// What follows from the table of themes.
pub open spec fn theme_effect(outcome: Option<OutcomeView>) -> Option<EffectView> {
    match outcome {
        Some(OutcomeView::Preview(name)) => Some(EffectView::PreviewTheme(name)),
        Some(OutcomeView::Select(name)) => Some(EffectView::SaveTheme(name)),
        Some(OutcomeView::Restore(name)) => Some(EffectView::RestoreTheme(name)),
        None => None,
    }
}

impl Overlay {
    /// The parts of the dialog fit together.
    pub open spec fn wf(&self) -> bool {
        match self {
            Overlay::Help(help) => help.wf(),
            Overlay::Goto(goto) => goto.wf(),
            Overlay::Themes(themes) => themes.wf(),
            Overlay::FilePicker { picker, .. } => picker.wf(),
            _ => true,
        }
    }

    /// The dialog, the variables and what is asked of the owner after an action. An
    /// action of another dialog does nothing.
    pub open spec fn updated(
        &self,
        before: &Overlay,
        message: Message,
        envs: EnvVars,
        envs_before: EnvVars,
        effect: Option<EffectView>,
    ) -> bool {
        match (*before, message) {
            (Overlay::Confirm(confirm), Message::Confirm(action)) => {
                &&& *self is Confirm
                &&& self->Confirm_0.applied(&confirm, action)
                &&& effect == confirm_effect(confirm.outcome(action))
                &&& envs == envs_before
            },
            (Overlay::Help(help), Message::Help(action)) => {
                &&& *self is Help
                &&& self->Help_0.applied(&help, action)
                &&& effect == (if action is Quit {
                    Some(EffectView::Close)
                } else {
                    None
                })
                &&& envs == envs_before
            },
            (Overlay::Envs, Message::Envs(action)) => {
                &&& *self is Envs
                &&& envs.applied(&envs_before, action)
                &&& effect == (if action == envs::Action::Quit || action == envs::Action::Main(
                    envs::MainAction::Quit,
                ) {
                    Some(EffectView::Close)
                } else {
                    None
                })
            },
            (Overlay::Search(search), Message::Search(action)) => {
                &&& *self is Search
                &&& self->Search_0@ == search@.updated(action)
                &&& effect == Some(
                    match action {
                        search::Action::Quit => EffectView::ClearSearch,
                        search::Action::Select => EffectView::Close,
                        _ => EffectView::RefreshSearch(search@.updated(action).term),
                    },
                )
                &&& envs == envs_before
            },
            (Overlay::Goto(goto), Message::Goto(action)) => {
                &&& *self is Goto
                &&& self->Goto_0.applied(&goto, action)
                &&& effect == (match action {
                    goto::Action::Select => match self->Goto_0.selected_id() {
                        Some(id) => Some(EffectView::SelectCode(id)),
                        None => None,
                    },
                    goto::Action::Quit => Some(EffectView::Close),
                    _ => None,
                })
                &&& envs == envs_before
            },
            (Overlay::Themes(themes), Message::Themes(action)) => {
                &&& *self is Themes
                &&& envs == envs_before
                &&& exists|outcome: Option<OutcomeView>| #[trigger]
                    self->Themes_0.applied(&themes, action, outcome) && effect == theme_effect(
                        outcome,
                    )
            },
            (
                Overlay::FilePicker { picker, quit_on_cancel },
                Message::FilePicker(action),
            ) => {
                &&& *self is FilePicker
                &&& self->quit_on_cancel == quit_on_cancel
                &&& self->picker.state.navigated(picker.state, action)
                &&& self->picker.previews == picker.previews
                &&& effect == (match action {
                    PickerAction::Select => match self->picker.selected_file() {
                        Some(path) => Some(EffectView::OpenFile(path)),
                        None => None,
                    },
                    PickerAction::Quit => Some(
                        if quit_on_cancel {
                            EffectView::Quit
                        } else {
                            EffectView::Close
                        },
                    ),
                    _ => None,
                })
                &&& envs == envs_before
            },
            (Overlay::Dependencies(deps), Message::Dependencies(action)) => {
                &&& *self is Dependencies
                &&& self->Dependencies_0.applied(&deps, action)
                &&& effect == (match action {
                    dependencies::Action::Quit => Some(EffectView::Close),
                    dependencies::Action::Exit => Some(EffectView::Quit),
                    _ => None,
                })
                &&& envs == envs_before
            },
            _ => *self == *before && envs == envs_before && effect is None,
        }
    }

    /// What the wheel of the mouse asks of the dialog: lists move, others ignore it.
    pub open spec fn wheel_asks(&self, kind: MouseKind) -> Option<Message> {
        let down = kind == MouseKind::ScrollDown;
        if !down && kind != MouseKind::ScrollUp {
            None
        } else {
            match *self {
                Overlay::Help(_) => Some(
                    Message::Help(
                        if down {
                            help::Action::Next
                        } else {
                            help::Action::Prev
                        },
                    ),
                ),
                Overlay::Goto(_) => Some(
                    Message::Goto(
                        if down {
                            goto::Action::Next
                        } else {
                            goto::Action::Prev
                        },
                    ),
                ),
                Overlay::FilePicker { .. } => Some(
                    Message::FilePicker(
                        if down {
                            PickerAction::Next
                        } else {
                            PickerAction::Prev
                        },
                    ),
                ),
                Overlay::Envs => Some(
                    Message::Envs(
                        if down {
                            envs::Action::ScrollDown
                        } else {
                            envs::Action::ScrollUp
                        },
                    ),
                ),
                Overlay::Themes(_) => Some(
                    Message::Themes(
                        if down {
                            themes::Action::ScrollDown
                        } else {
                            themes::Action::ScrollUp
                        },
                    ),
                ),
                _ => None,
            }
        }
    }

    /// What the wheel of the mouse asks of the dialog.
    pub fn wheel(&self, kind: MouseKind) -> (message: Option<Message>)
        ensures
            message == self.wheel_asks(kind),
    {
        let down = match kind {
            MouseKind::ScrollDown => true,
            MouseKind::ScrollUp => false,
            _ => {
                return None;
            },
        };
        match (self, down) {
            (Overlay::Help(_), true) => Some(Message::Help(help::Action::Next)),
            (Overlay::Help(_), false) => Some(Message::Help(help::Action::Prev)),
            (Overlay::Goto(_), true) => Some(Message::Goto(goto::Action::Next)),
            (Overlay::Goto(_), false) => Some(Message::Goto(goto::Action::Prev)),
            (Overlay::FilePicker { .. }, true) => Some(Message::FilePicker(PickerAction::Next)),
            (Overlay::FilePicker { .. }, false) => Some(Message::FilePicker(PickerAction::Prev)),
            (Overlay::Envs, true) => Some(Message::Envs(envs::Action::ScrollDown)),
            (Overlay::Envs, false) => Some(Message::Envs(envs::Action::ScrollUp)),
            (Overlay::Themes(_), true) => Some(Message::Themes(themes::Action::ScrollDown)),
            (Overlay::Themes(_), false) => Some(Message::Themes(themes::Action::ScrollUp)),
            _ => None,
        }
    }

    /// Carries out an action of the dialog; returns what is asked of the owner.
    pub fn update(&mut self, message: Message, envs: &mut EnvVars) -> (effect: Option<Effect>)
        requires
            old(self).wf(),
            old(envs).wf(),
        ensures
            final(self).wf(),
            final(envs).wf(),
            final(self).updated(old(self), message, *final(envs), *old(envs), effect_view(effect)),
    {
        match (self, message) {
            (Overlay::Confirm(confirm), Message::Confirm(action)) => match confirm.update(action) {
                Some(confirm::Action::Confirmed(ConfirmAction::Quit)) => Some(Effect::Quit),
                Some(confirm::Action::Confirmed(ConfirmAction::ReloadFile)) => Some(Effect::Reload),
                Some(confirm::Action::Confirmed(ConfirmAction::ReRun(id))) => Some(
                    Effect::Rerun(id),
                ),
                Some(confirm::Action::Cancelled) => Some(Effect::Close),
                _ => None,
            },
            (Overlay::Help(help), Message::Help(action)) => {
                if help.update(action).is_some() {
                    Some(Effect::Close)
                } else {
                    None
                }
            },
            (Overlay::Envs, Message::Envs(action)) => {
                if envs.update(action).is_some() {
                    Some(Effect::Close)
                } else {
                    None
                }
            },
            (Overlay::Search(search), Message::Search(action)) => match search.update(action) {
                Some(search::Action::Quit) => Some(Effect::ClearSearch),
                Some(_) => Some(Effect::Close),
                None => Some(Effect::RefreshSearch(search.term().to_owned())),
            },
            (Overlay::Goto(goto), Message::Goto(action)) => match goto.update(action) {
                Some(goto::Action::Select) => match goto.selected_code_id() {
                    Some(id) => Some(Effect::SelectCode(id)),
                    None => None,
                },
                Some(_) => Some(Effect::Close),
                None => None,
            },
            (Overlay::Themes(themes), Message::Themes(action)) => {
                let outcome = themes.update(action);
                let ghost shown = outcome_view(outcome);
                assert(themes.applied(&old(self)->Themes_0, action, shown));
                match outcome {
                    Some(themes::Outcome::Preview(name)) => Some(Effect::PreviewTheme(name)),
                    Some(themes::Outcome::Select(name)) => Some(Effect::SaveTheme(name)),
                    Some(themes::Outcome::Restore(name)) => Some(Effect::RestoreTheme(name)),
                    None => None,
                }
            },
            (
                Overlay::FilePicker { picker, quit_on_cancel },
                Message::FilePicker(action),
            ) => match picker.update(action) {
                Some(PickerAction::Select) => match picker.selected_path() {
                    Some(path) => Some(Effect::OpenFile(path.to_owned())),
                    None => None,
                },
                Some(_) => if *quit_on_cancel {
                    Some(Effect::Quit)
                } else {
                    Some(Effect::Close)
                },
                None => None,
            },
            (Overlay::Dependencies(deps), Message::Dependencies(action)) => match deps.update(
                action,
            ) {
                Some(dependencies::Outcome::Closed) => Some(Effect::Close),
                Some(dependencies::Outcome::Quit) => Some(Effect::Quit),
                None => None,
            },
            _ => None,
        }
    }

    /// Takes over what a search found; returns the row to show.
    pub fn apply_search_results(&mut self, results: &[usize]) -> (row: Option<usize>)
        ensures
            old(self).wf() ==> final(self).wf(),
            match *old(self) {
                Overlay::Search(search) => {
                    &&& *final(self) is Search
                    &&& final(self)->Search_0@ == search@.found(results@.len() as int)
                    &&& row == (if results@.len() > 0 {
                        Some(results@[final(self)->Search_0@.index])
                    } else {
                        None
                    })
                },
                _ => *final(self) == *old(self) && row is None,
            },
    {
        match self {
            Overlay::Search(search) => match search.search(results) {
                Some(row) => Some(*row),
                None => None,
            },
            _ => None,
        }
    }

    /// Takes over how the blocks stand.
    pub fn tick(&mut self, statuses: HashMap<CodeId, TaskStatus>)
        requires
            old(self).wf(),
        ensures
            final(self).wf(),
            match *old(self) {
                Overlay::Dependencies(deps) => *final(self) is Dependencies
                    && final(self)->Dependencies_0 == (Dependencies { statuses, ..deps }),
                _ => *final(self) == *old(self),
            },
    {
        if let Overlay::Dependencies(deps) = self {
            deps.tick(statuses);
        }
    }
}

impl Overlay {
    /// A dialog closes, or asks for what it is for, only where its own action says so:
    /// moving and typing leave it open, and a message for another dialog changes
    /// nothing.
    pub proof fn law_dialogs_ask_for_what_was_chosen(
        before: Overlay,
        after: Overlay,
        message: Message,
        envs: EnvVars,
        envs_before: EnvVars,
        effect: Option<EffectView>,
    )
        requires
            after.updated(&before, message, envs, envs_before, effect),
        ensures
            effect matches Some(EffectView::SelectCode(id)) ==> before is Goto && message
                == Message::Goto(goto::Action::Select) && after->Goto_0.selected_id() == Some(id),
            effect matches Some(EffectView::OpenFile(path)) ==> before is FilePicker && message
                == Message::FilePicker(PickerAction::Select) && after->picker.selected_file()
                == Some(path),
            effect matches Some(EffectView::Rerun(id)) ==> before is Confirm
                && before->Confirm_0.action == ConfirmAction::ReRun(id)
                && before->Confirm_0.selected || message is Confirm,
            effect matches Some(EffectView::ClearSearch) ==> message == Message::Search(
                search::Action::Quit,
            ),
            effect matches Some(EffectView::RefreshSearch(term)) ==> before is Search && after
                is Search && term == after->Search_0@.term,
            message == Message::Goto(goto::Action::Quit) && before is Goto ==> effect == Some(
                EffectView::Close,
            ),
            message == Message::Goto(goto::Action::Next) || message == Message::Goto(
                goto::Action::Prev,
            ) ==> effect is None,
            message == Message::Help(help::Action::Quit) && before is Help ==> effect == Some(
                EffectView::Close,
            ),
            message == Message::FilePicker(PickerAction::Quit) ==> (before
                matches Overlay::FilePicker { picker, quit_on_cancel } ==> (effect == Some(
                EffectView::Quit,
            ) <==> quit_on_cancel) && (effect == Some(EffectView::Close) <==> !quit_on_cancel)),
            !(message is Envs) ==> envs == envs_before,
    {
    }

    /// A prompt that was answered with "Yes" leads to what it asked about, and any other
    /// answer just closes it.
    pub proof fn law_prompts_lead_to_what_they_ask(confirm: Confirm)
        ensures
            confirm.selected && confirm.action == ConfirmAction::Quit ==> confirm_effect(
                confirm.outcome(confirm::Action::Select),
            ) == Some(EffectView::Quit),
            confirm.selected && confirm.action == ConfirmAction::ReloadFile ==> confirm_effect(
                confirm.outcome(confirm::Action::Select),
            ) == Some(EffectView::Reload),
            confirm.selected ==> (confirm.action matches ConfirmAction::ReRun(id)
                ==> confirm_effect(confirm.outcome(confirm::Action::Select)) == Some(
                EffectView::Rerun(id),
            )),
            !confirm.selected ==> confirm_effect(confirm.outcome(confirm::Action::Select)) == Some(
                EffectView::Close,
            ),
            confirm_effect(confirm.outcome(confirm::Action::Cancel)) == Some(EffectView::Close),
            confirm_effect(confirm.outcome(confirm::Action::Switch)) is None,
    {
    }

    /// Turning the wheel down moves on and turning it up moves back, and only turning
    /// does.
    pub proof fn law_the_wheel_moves_both_ways(&self, kind: MouseKind)
        ensures
            self.wheel_asks(MouseKind::ScrollDown) is Some <==> self.wheel_asks(
                MouseKind::ScrollUp,
            ) is Some,
            self.wheel_asks(MouseKind::ScrollDown) is Some ==> self.wheel_asks(
                MouseKind::ScrollDown,
            ) != self.wheel_asks(MouseKind::ScrollUp),
            *self is Goto ==> self.wheel_asks(MouseKind::ScrollDown) == Some(
                Message::Goto(goto::Action::Next),
            ),
            *self is Help ==> self.wheel_asks(MouseKind::ScrollDown) == Some(
                Message::Help(help::Action::Next),
            ),
            kind != MouseKind::ScrollDown && kind != MouseKind::ScrollUp ==> self.wheel_asks(kind)
                is None,
    {
    }
}

/// A theme that is shown, taken or restored is the one that the table named.
pub proof fn law_theme_effects_name_the_theme(name: Seq<char>)
    ensures
        theme_effect(Some(OutcomeView::Preview(name))) == Some(EffectView::PreviewTheme(name)),
        theme_effect(Some(OutcomeView::Select(name))) == Some(EffectView::SaveTheme(name)),
        theme_effect(Some(OutcomeView::Restore(name))) == Some(EffectView::RestoreTheme(name)),
{
}

} // verus!
