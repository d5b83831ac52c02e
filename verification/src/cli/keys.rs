//! What keys do, and who gets the terminal.

use vstd::prelude::*;

use super::app::{
    card_size, picker_next, Action, App, KeyBindings, NextView, PickerNext,
    Route, StepView, StreamEffect,
};
use crate::code::{Code, CodeId};
use crate::navigation::Navigation;
use crate::picker::{PickerAction, PickerState};
use crate::scheduler::Scheduler;

verus! {

impl App {
    /// The selected block runs.
    pub open spec fn selected_runs(&self, id: CodeId) -> bool {
        &&& self.focused(id)
        &&& self.outputs@.contains_key(id)
        &&& self.outputs@[id].task.started
        &&& !self.outputs@[id].task.done
    }

    /// An open picker gets every key. Else the process of the selected block gets what can
    /// be sent, as long as it runs, but for the key that switches between blocks that run
    /// side by side.
    pub proof fn law_running_processes_get_the_keys(&self, keys: KeyBindings, id: CodeId)
        ensures
            self.picker is Some ==> (self.key_route(keys) is Picker <==> keys.picker is Some)
                && (keys.picker is None ==> self.key_route(keys) == Route::Nothing),
            self.picker is Some && keys.picker is Some ==> self.key_route(keys) == Route::Picker(
                keys.picker->0,
            ),
            self.key_route(keys) is Picker ==> self.picker is Some,
            self.key_route(keys) == Route::Process(id) ==> self.picker is None
                && self.selected_runs(id) && keys.sendable,
            self.picker is None && self.selected_runs(id) && keys.sendable && !(keys.action
                == Some(Action::FocusNext)) ==> self.key_route(keys) == Route::Process(id),
            self.picker is None && self.batch_output@.visible.len() > 1 && keys.action == Some(
                Action::FocusNext,
            ) ==> self.key_route(keys) == Route::Action(Action::FocusNext),
    {
    }

    /// Keys do what they are bound to where no process takes them; without any block they
    /// can only quit.
    pub proof fn law_keys_do_what_they_are_bound_to(&self, keys: KeyBindings, action: Action)
        requires
            self.picker is None,
        ensures
            self.key_route(keys) == Route::Action(action) ==> keys.action == Some(action),
            self.codes@.len() == 0 && self.batch_output@.visible.len() == 0 ==> self.key_route(keys)
                == Route::Nothing || self.key_route(keys) == Route::Action(Action::Quit),
            self.codes@.len() == 0 && keys.action == Some(Action::Quit) ==> self.key_route(keys)
                == Route::Action(Action::Quit),
            self.selected < self.codes@.len() && !keys.sendable && keys.action == Some(action)
                ==> self.key_route(keys) == Route::Action(action),
            self.selected < self.codes@.len() && !keys.sendable && keys.action is None ==> (
            self.key_route(keys) is Navigation <==> keys.navigation is Some),
            self.key_route(keys) is Navigation ==> keys.navigation == Some(
                self.key_route(keys)->Navigation_0,
            ),
    {
    }

    /// Quitting quits and changes nothing; running and switching never quit by themselves.
    pub proof fn law_only_quitting_quits(before: App, after: App, action: Action, step: StepView)
        requires
            after.acted(&before, action, step),
        ensures
            action == Action::Quit ==> step.next == NextView::Quit && after.flow()
                == before.flow(),
            action == Action::FocusNext ==> step.next == NextView::Nothing
                && after.flow().workflow == before.flow().workflow,
            action == Action::Run && before.workflow is Some ==> step.next != NextView::Quit
                && after.flow() == before.flow(),
            action == Action::Run && before.codes@.len() == 0 ==> step.next == NextView::Nothing
                && after.flow() == before.flow(),
    {
    }

    /// Within a plan the selected block is started only as one of the running batch, and
    /// no other block is.
    pub proof fn law_running_starts_the_selected_block(
        before: App,
        after: App,
        step: StepView,
        id: CodeId,
    )
        requires
            after.acted(&before, Action::Run, step),
            before.focused(id),
            before.workflow is Some,
        ensures
            step.next == NextView::Start(id) <==> before.workflow->0@.running.contains(id),
            step.next != NextView::Start(id) ==> step.next == NextView::Nothing,
    {
    }

    /// Moving without `yes` starts nothing, and moves nothing but the selection.
    pub proof fn law_moving_starts_nothing_unasked(
        before: App,
        after: App,
        nav: Navigation,
        step: StepView,
    )
        requires
            after.moved(&before, nav, step),
            !before.yes || before.codes@.len() == 0,
        ensures
            step.next == NextView::Nothing,
            step.message is None,
            after.flow().workflow == before.flow().workflow,
            after.flow().envs == before.flow().envs,
            after.flow().failed == before.flow().failed,
    {
    }

    /// Moving with `yes` runs the block that the selection comes to.
    pub proof fn law_moving_runs_where_asked(
        before: App,
        after: App,
        nav: Navigation,
        step: StepView,
        at: int,
    )
        requires
            after.moved(&before, nav, step),
            before.yes,
            before.workflow is Some,
            0 <= at < before.codes@.len(),
            after.flow().selected == at,
        ensures
            step.next == NextView::Start(before.codes@[at].id)
                <==> before.workflow->0@.running.contains(before.codes@[at].id),
    {
    }

    /// A new document starts afresh: nothing ran, nothing is planned, and the picker is
    /// closed. The variables, the directory and the options are kept.
    pub proof fn law_documents_start_afresh(
        before: App,
        after: App,
        codes: Vec<Code>,
        wanted: Option<Vec<CodeId>>,
        id: CodeId,
    )
        requires
            after.opened(&before, codes, wanted),
        ensures
            after.codes == codes,
            !after.outputs@.contains_key(id),
            after.workflow is None,
            after.picker is None,
            after.pending_states@.len() == 0,
            after.batch_output@.visible.len() == 0,
            after.batch_output@.pending.len() == 0,
            after.batch_output@.previous_lines == 0,
            after.batch_output@.terminal == before.batch_output@.terminal,
            after.envs == before.envs,
            after.cwd == before.cwd,
            after.yes == before.yes,
            after.all == before.all,
            after.failed == before.failed,
            wanted is None ==> after.selected == 0,
    {
    }

    /// Output is passed through only for the selected block, on a terminal, while a
    /// full-screen program has it or gives it back. The size changes with that alone.
    pub proof fn law_full_screen_programs_get_the_terminal(
        &self,
        id: CodeId,
        is_output: bool,
        was_alternate: bool,
        now_alternate: bool,
        cols: u16,
        rows: u16,
        effect: StreamEffect,
    )
        requires
            self.has_effect(id, is_output, was_alternate, now_alternate, cols, rows, effect),
        ensures
            effect.pass_through ==> is_output && self.batch_output@.terminal && self.focused(id),
            !was_alternate && !now_alternate ==> !effect.pass_through && effect.resize is None,
            was_alternate && now_alternate ==> effect.resize is None,
            is_output && self.batch_output@.terminal && self.focused(id) && now_alternate
                ==> effect.pass_through,
            !was_alternate && now_alternate && self.batch_output@.terminal && self.focused(id)
                ==> effect.resize == Some((cols, rows)),
            was_alternate && !now_alternate ==> effect.resize is Some,
            was_alternate && !now_alternate && cols >= 44 && rows >= 15 ==> effect.resize == Some(
                ((cols - 4) as u16, (rows - 10) as u16),
            ),
            !was_alternate && now_alternate && !self.focused(id) && cols >= 44 && rows >= 15
                ==> effect.resize == Some(((cols - 4) as u16, (rows - 10) as u16)),
    {
        law_cards_leave_room(cols, rows);
    }
}

/// Beside its card a block's terminal is four columns narrower and ten rows lower than the
/// terminal, but never smaller than forty columns and five rows.
pub proof fn law_cards_leave_room(cols: u16, rows: u16)
    ensures
        cols >= 44 ==> card_size(cols, rows).0 == cols - 4,
        cols < 44 ==> card_size(cols, rows).0 == 40,
        rows >= 15 ==> card_size(cols, rows).1 == rows - 10,
        rows < 15 ==> card_size(cols, rows).1 == 5,
{
}

/// The picker opens the selected one of the matching files, and nothing where none
/// matches; only quitting quits.
pub proof fn law_the_picker_opens_a_match(picker: PickerState, action: PickerAction, file: usize)
    requires
        picker.wf(),
    ensures
        picker_next(Some(picker), action) == PickerNext::Open(file) ==> action
            == PickerAction::Select && picker.selected < picker.matches@.len() && file
            == picker.matches@[picker.selected as int],
        action == PickerAction::Select && picker.matches@.len() == 0 ==> picker_next(
            Some(picker),
            action,
        ) == PickerNext::Nothing,
        action == PickerAction::Select && picker.selected < picker.matches@.len() ==> picker_next(
            Some(picker),
            action,
        ) is Open,
        picker_next(Some(picker), action) == PickerNext::Quit <==> action == PickerAction::Quit,
        picker_next(None, action) == PickerNext::Nothing,
{
}

impl App {
    /// Nothing begins by itself while a file is picked, nor where neither a block nor all
    /// of them were asked to run. A block that was asked for begins before all of them.
    pub proof fn law_only_what_was_asked_for_begins(before: App, after: App, step: StepView)
        requires
            after.begun(&before, step),
        ensures
            before.picker is Some ==> step.next == NextView::Nothing && after.flow()
                == before.flow(),
            !before.all && !before.yes ==> step.next == NextView::Nothing && after.flow()
                == before.flow(),
            !before.all && !before.block ==> step.next == NextView::Nothing && after.flow()
                == before.flow(),
            before.picker is None && before.block && before.yes && before.selected
                < before.codes@.len() ==> Self::asked_for(
                before.flow(),
                before.codes@,
                true,
                before.codes@[before.selected as int].id,
                after.flow(),
                step,
            ),
            before.picker is None && !before.block && before.all ==> exists|
                plan: Result<Scheduler, String>,
            | #[trigger]
                Scheduler::built_all(before.codes@, before.yes, plan) && (after.flow(), step)
                    == before.flow().planned(before.codes@, before.yes, plan),
    {
    }
}

} // verus!
