//! Dialog that confirms or cancels an action.

use vstd::prelude::*;

use crate::code::CodeId;
use crate::rect::Rect;
use crate::style::{bold_only, line_view, plain, Span, Style};
use crate::theme::Theme;

verus! {

/// What is to be confirmed.
#[derive(Clone, Copy, Debug, PartialEq, Eq, Hash, Structural)]
pub enum ConfirmAction {
    Quit,
    ReloadFile,
    ReRun(CodeId),
}

impl Default for ConfirmAction {
    fn default() -> (action: ConfirmAction)
        ensures
            action == ConfirmAction::Quit,
    {
        ConfirmAction::Quit
    }
}

/// Prompts the user to confirm or cancel an action.
pub struct Confirm {
    pub title: String,
    pub message: String,
    /// The highlighted option is "Yes".
    pub selected: bool,
    pub action: ConfirmAction,
}

#[derive(Clone, Copy, Debug, PartialEq, Eq, Hash, Structural)]
pub enum Action {
    /// Switches between confirm dialog options.
    Switch,
    /// Confirms the currently highlighted option.
    Select,
    /// Cancels the dialog without taking action.
    Cancel,
    Confirmed(ConfirmAction),
    Cancelled,
}

impl Confirm {
    pub fn new(title: &str, message: &str, action: ConfirmAction) -> (confirm: Confirm)
        ensures
            confirm.title@ == title@,
            confirm.message@ == message@,
            !confirm.selected,
            confirm.action == action,
    {
        Confirm { title: title.to_owned(), message: message.to_owned(), selected: false, action }
    }

    pub fn quit() -> (confirm: Confirm)
        ensures
            confirm.title@ == "Quit"@,
            confirm.message@ == "Are you sure you want to quit?"@,
            !confirm.selected,
            confirm.action == ConfirmAction::Quit,
    {
        Self::new("Quit", "Are you sure you want to quit?", ConfirmAction::Quit)
    }

    pub fn reload() -> (confirm: Confirm)
        ensures
            confirm.title@ == "Reload File"@,
            confirm.message@
                == "This will clear all output and state. Are you sure you want to reload?"@,
            !confirm.selected,
            confirm.action == ConfirmAction::ReloadFile,
    {
        Self::new(
            "Reload File",
            "This will clear all output and state. Are you sure you want to reload?",
            ConfirmAction::ReloadFile,
        )
    }

    pub fn rerun(id: CodeId) -> (confirm: Confirm)
        ensures
            confirm.title@ == "Re-run?"@,
            confirm.message@ == "This will override existing output."@,
            !confirm.selected,
            confirm.action == ConfirmAction::ReRun(id),
    {
        Self::new("Re-run?", "This will override existing output.", ConfirmAction::ReRun(id))
    }

    /// What an action asks of the owner.
    pub open spec fn outcome(&self, action: Action) -> Option<Action> {
        match action {
            Action::Switch => None,
            Action::Select => if self.selected {
                Some(Action::Confirmed(self.action))
            } else {
                Some(Action::Cancelled)
            },
            Action::Cancel => Some(Action::Cancelled),
            Action::Confirmed(_) | Action::Cancelled => Some(action),
        }
    }

    /// The prompt after an action.
    pub open spec fn applied(&self, before: &Confirm, action: Action) -> bool {
        *self == (Confirm {
            selected: if action is Switch {
                !before.selected
            } else {
                before.selected
            },
            ..*before
        })
    }

    /// Takes an action; hands out what the owner has to act on.
    pub fn update(&mut self, action: Action) -> (outcome: Option<Action>)
        ensures
            outcome == old(self).outcome(action),
            final(self).applied(old(self), action),
    {
        match action {
            Action::Switch => {
                self.selected = !self.selected;
                None
            },
            Action::Select => {
                if self.selected {
                    Some(Action::Confirmed(self.action))
                } else {
                    Some(Action::Cancelled)
                }
            },
            Action::Cancel => Some(Action::Cancelled),
            Action::Confirmed(_) | Action::Cancelled => Some(action),
        }
    }

    /// The options: the highlighted one stands out.
    pub open spec fn buttons_line(&self, theme: Theme) -> Seq<(Seq<char>, Style)> {
        let active = plain().bg_spec(theme.active).fg_spec(theme.active_text).add_spec(bold_only());
        let (yes, no) = if self.selected {
            (active, plain())
        } else {
            (plain(), active)
        };
        seq![("  Yes  "@, yes), ("    "@, plain()), ("  No  "@, no)]
    }

    /// The options: the highlighted one stands out.
    pub fn buttons(&self, theme: &Theme) -> (spans: Vec<Span>)
        ensures
            line_view(spans@) == self.buttons_line(*theme),
    {
        let active = theme.active_style().bold();
        let (yes, no) = if self.selected {
            (active, Style::default())
        } else {
            (Style::default(), active)
        };
        let mut spans: Vec<Span> = Vec::new();
        spans.push(Span::styled("  Yes  ".to_owned(), yes));
        spans.push(Span::styled("    ".to_owned(), Style::default()));
        spans.push(Span::styled("  No  ".to_owned(), no));
        assert(line_view(spans@) =~= self.buttons_line(*theme));
        spans
    }

    /// The margin inside of the dialog: none on a low one.
    pub fn margin(inner: Rect) -> (margin: u16)
        ensures
            margin == if inner.height > 4 { 1u16 } else { 0u16 },
    {
        if inner.height > 4 {
            1
        } else {
            0
        }
    }
}

/// Nothing happens unless "Yes" was highlighted: a dialog that was just opened
/// cancels on `Select`.
pub proof fn law_default_is_cancel(confirm: Confirm)
    requires
        !confirm.selected,
    ensures
        confirm.outcome(Action::Select) == Some(Action::Cancelled),
        confirm.outcome(Action::Cancel) == Some(Action::Cancelled),
{
}

/// Only a highlighted "Yes" confirms, and it confirms what was asked; switching once
/// highlights the other option, switching twice the same. The highlighted option, and no
/// other, stands out.
pub proof fn law_only_yes_confirms(before: Confirm, switched: Confirm, back: Confirm, theme: Theme)
    requires
        switched.applied(&before, Action::Switch),
        back.applied(&switched, Action::Switch),
    ensures
        switched.selected != before.selected,
        switched.action == before.action,
        back == before,
        before.outcome(Action::Select) matches Some(Action::Confirmed(action)) ==> before.selected
            && action == before.action,
        before.selected ==> before.outcome(Action::Select) == Some(
            Action::Confirmed(before.action),
        ),
        before.outcome(Action::Switch) is None,
        before.outcome(Action::Select) is Some,
        before.buttons_line(theme).len() == 3,
        before.buttons_line(theme)[0].0 == "  Yes  "@,
        before.buttons_line(theme)[2].0 == "  No  "@,
        before.buttons_line(theme)[0].1.add.bold == before.selected,
        before.buttons_line(theme)[2].1.add.bold != before.selected,
{
}

} // verus!
