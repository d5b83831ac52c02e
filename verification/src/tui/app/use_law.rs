//! What the keys, the mouse and the dialogs of the interface do.

use vstd::prelude::*;

use super::actions::{goto_label, lists_blocks, prompts, Action, CommandView};
use super::dialogs::{AnswerView, Clicked};
use super::events::{Event, OutputCommand, OutputRoute, Route};
use super::flow::{graph_of, App, Flow, NextView, Options, Screen};
use super::resize::Resize;
use super::tick::still_shown;
use crate::code::{Code, CodeId};
use crate::exec::{Envs, Stream};
use crate::picker::MarkdownFile;
use crate::scheduler::{AdvanceView, DependencyGraph, Scheduler};
use crate::text::{
    contains_text, decimal_text, decimal_value, law_digits_stand_for_the_number,
    lemma_stands_between,
};
use crate::tui::confirm::ConfirmAction;
use crate::tui::goto::{Goto, StatusKind};
use crate::tui::menu::MenuMode;
use crate::tui::notification::{FlashKind, FlashMessage};
use crate::tui::output;
use crate::tui::overlay::{EffectView, Message};
use crate::tui::preview::images::parent_dir;
use crate::tui::preview::interact::{Mouse, MouseKind};
use crate::tui::tasks::{TaskOutput, Tasks};

verus! {

impl App {
    /// Running a block that ran before asks first, and starts nothing yet; any other one
    /// is run at once. It is the one that is selected in the menu, or else in the
    /// document.
    pub proof fn law_running_again_asks_first(
        before: App,
        after: App,
        command: CommandView,
        now: u64,
        id: CodeId,
    )
        requires
            after.acted(&before, Action::Execute, command, now),
            before.content.focused() == Some(id),
        ensures
            before.tasks.outputs@.contains_key(id) ==> prompts(
                after.overlay,
                ConfirmAction::ReRun(id),
            ) && command == CommandView::Run(NextView::Nothing) && after.workflow
                == before.workflow,
            !before.tasks.outputs@.contains_key(id) ==> command is Run && after.executed(
                &(App { auto_input_paused: false, ..before }),
                id,
                command->Run_0,
                now,
            ),
            before.content.menu.selected_id() is Some ==> before.content.menu.selected_id() == Some(
                id,
            ),
            before.content.menu.selected_id() is None ==> before.content.preview.selected_code()
                == Some(id),
    {
        reveal(App::ran_focused);
    }

    /// A block that is run outside of a plan begins the plan for it; within a plan it is
    /// started only as one of the running batch.
    pub proof fn law_blocks_run_within_plans(
        before: App,
        after: App,
        id: CodeId,
        next: NextView,
        now: u64,
    )
        requires
            after.executed(&before, id, next, now),
        ensures
            before.workflow is Some ==> after == before && (next == NextView::Start(id)
                <==> before.workflow->0@.running.contains(id)) && (next == NextView::Start(id)
                || next == NextView::Nothing),
            before.workflow is None && after.workflow is Some
                ==> after.workflow->0@.graph.target_view() == Some(id),
    {
        if before.workflow is None {
            reveal(App::targeted);
            let codes = before.content.preview.codes@;
            let (plan, graph) = choose|
                plan: Result<Scheduler, String>,
                graph: Result<DependencyGraph, String>,
            |
                {
                    &&& #[trigger] Scheduler::built_for(codes, id, true, plan)
                    &&& #[trigger] graph_of(codes, id, graph)
                    &&& after.plan_begun(&before, plan, graph, now)
                    &&& next == before.flow().planned(plan).1.next
                };
            if plan is Ok {
                assert(plan->Ok_0@.start().0.graph == plan->Ok_0@.graph);
            }
            assert(after.flow() == before.flow().planned(plan).0);
        }
    }

    /// Quitting and reloading ask first; nothing else changes until the answer.
    pub proof fn law_quitting_asks_first(
        before: App,
        after: App,
        action: Action,
        command: CommandView,
        now: u64,
    )
        requires
            after.acted(&before, action, command, now),
        ensures
            action == Action::Quit ==> prompts(after.overlay, ConfirmAction::Quit) && command
                == CommandView::Nothing,
            action == Action::Reload ==> prompts(after.overlay, ConfirmAction::ReloadFile)
                && command == CommandView::Nothing,
            action == Action::Quit || action == Action::Reload ==> after.content == before.content
                && after.tasks == before.tasks && after.screen == before.screen,
    {
        reveal(App::dialog_opened);
    }

    /// Each action shows what it is for, and what is not possible now changes nothing.
    pub proof fn law_actions_show_what_they_are_for(
        before: App,
        after: App,
        action: Action,
        command: CommandView,
        now: u64,
    )
        requires
            after.acted(&before, action, command, now),
        ensures
            action == Action::Envs ==> after.overlay is Some && after.overlay->0 is Envs,
            action == Action::Search ==> after.overlay is Some && after.overlay->0 is Search,
            action == Action::Goto ==> after.overlay is Some && after.overlay->0 is Goto,
            action == Action::ShowDeps ==> after.overlay is Some && after.overlay->0 is Dependencies,
            action == Action::Help ==> command == CommandView::ShowHelp,
            action == Action::SwitchTheme ==> command == CommandView::ShowThemes,
            action == Action::OpenFilePicker ==> command is FindFiles,
            action == Action::ToggleTransparency ==> command == CommandView::SetTransparency(
                !before.options.transparent,
            ),
            action == Action::ToggleZen ==> after.zen != before.zen,
            action == Action::ToggleWorkflowGraph && before.graph is Some ==> after.graph_shown
                != before.graph_shown,
            action == Action::Input && before.selected_runs() ==> after.screen == Screen::Input,
            action == Action::Input && !before.selected_runs() ==> after == before,
            action == Action::ExitInput && before.screen == Screen::Input ==> after.screen
                == Screen::Home,
            action == Action::ViewOutput && before.selected() is Some
                && before.tasks.outputs@.contains_key(before.selected()->0) ==> after.screen
                == Screen::Output,
            action == Action::Paste && before.screen == Screen::Input && before.selected_runs()
                ==> command == CommandView::Paste(before.selected()->0),
            action == Action::Paste && before.screen != Screen::Input ==> command
                == CommandView::Nothing,
    {
        reveal(App::dialog_opened);
        reveal(App::goto_open);
        reveal(App::deps_open);
        reveal(App::view_changed);
        reveal(App::views_output);
        reveal(App::relaid_menu);
        reveal(App::toc_changed);
        reveal(App::ran_focused);
    }

    /// While keys go to a program, all do but those that leave it or paste; while they
    /// do not, none does.
    pub proof fn law_programs_get_the_keys(
        before: App,
        after: App,
        action: Option<Action>,
        route: Route,
    )
        requires
            after.routed(&before, Event::Key(action), route),
        ensures
            after == before,
            before.screen == Screen::Input && before.selected_runs() && action != Some(
                Action::ExitInput,
            ) && action != Some(Action::Paste) ==> route == Route::Forward,
            before.screen == Screen::Input && action == Some(Action::ExitInput) ==> route
                == Route::Action(Action::ExitInput),
            before.screen != Screen::Input ==> route == Route::Document(action),
            route == Route::Forward ==> before.screen == Screen::Input && before.selected_runs(),
    {
        reveal(App::routed);
    }

    /// While keys go to a program, the wheel scrolls its output, unless the program asks
    /// for the mouse; a click beside the block leaves it.
    pub proof fn law_clicks_beside_the_block_leave_it(
        before: App,
        after: App,
        mouse: Mouse,
        click: bool,
        encodable: bool,
        route: Route,
    )
        requires
            before.screen == Screen::Input,
            after.routed(&before, Event::Mouse { mouse, click, encodable }, route),
            !before.sends_mouse(mouse, encodable),
        ensures
            mouse.kind == MouseKind::ScrollUp ==> route == Route::ScrollInline(true),
            mouse.kind == MouseKind::ScrollDown ==> route == Route::ScrollInline(false),
            mouse.kind != MouseKind::ScrollUp && mouse.kind != MouseKind::ScrollDown && click
                && before.clicked(mouse) != before.selected() ==> after.screen == Screen::Home,
            mouse.kind != MouseKind::ScrollUp && mouse.kind != MouseKind::ScrollDown && click
                && before.clicked(mouse) == before.selected() ==> after.screen == Screen::Input,
    {
        reveal(App::routed);
    }

    /// Closing a dialog leads back to the document, and changes nothing else.
    pub proof fn law_closed_dialogs_leave_no_trace(
        before: App,
        after: App,
        answer: AnswerView,
        now: u64,
    )
        requires
            after.effected(&before, EffectView::Close, answer, now),
        ensures
            after.overlay is None,
            after.screen == Screen::Home,
            after.content == before.content,
            after.tasks == before.tasks,
            after.envs == before.envs,
            answer == AnswerView::Nothing,
    {
        reveal(App::effected);
    }

    /// The block that was chosen in a dialog is selected, in the menu and in the
    /// document.
    pub proof fn law_chosen_blocks_are_selected(
        before: App,
        after: App,
        id: CodeId,
        answer: AnswerView,
        now: u64,
    )
        requires
            after.effected(&before, EffectView::SelectCode(id), answer, now),
            before.content.preview.start_row(id) is Some,
            before.content.menu.mode == MenuMode::CodeBlocks,
            before.content.menu.items@.contains(id),
        ensures
            after.overlay is None,
            after.content.menu.selected_id() == Some(id),
            after.content.preview.selected_code() == Some(id),
    {
        reveal(App::effected);
        reveal(App::code_selected);
        before.content.preview.law_going_to_a_block_selects_it(id);
        before.content.menu.law_blocks_are_selected_by_number(after.content.menu, id);
    }

    /// Answers that need the owner are handed on as they were given.
    pub proof fn law_answers_are_handed_on(
        before: App,
        after: App,
        effect: EffectView,
        answer: AnswerView,
        now: u64,
    )
        requires
            after.effected(&before, effect, answer, now),
        ensures
            effect == EffectView::Quit ==> answer == AnswerView::Quit,
            effect == EffectView::Reload ==> answer == AnswerView::Reload,
            effect matches EffectView::OpenFile(path) ==> answer == AnswerView::OpenFile(path),
            effect matches EffectView::PreviewTheme(name) ==> answer == AnswerView::UseTheme(name)
                && after == before,
            effect matches EffectView::SaveTheme(name) ==> answer == AnswerView::KeepTheme(name)
                && after.overlay is None,
            effect matches EffectView::RestoreTheme(name) ==> answer == AnswerView::UseTheme(name)
                && after.overlay is None,
            answer == AnswerView::Quit ==> effect == EffectView::Quit,
    {
        reveal(App::effected);
        reveal(App::targeted);
    }

    /// While a search is open, the match that its place tells is shown at the top and
    /// selected; leaving the search clears the term.
    pub proof fn law_the_match_is_shown(before: App, after: App, rows: Seq<usize>)
        requires
            before.overlay is Some,
            before.overlay->0 is Search,
            after.match_shown(&before, rows),
            0 < rows.len() <= usize::MAX,
            0 <= before.overlay->0->Search_0@.index,
            forall|k: int|
                0 <= k < rows.len() ==> (#[trigger] rows[k])
                    < before.content.preview.rows().len(),
        ensures
            ({
                let search = before.overlay->0->Search_0@;
                let place = if search.index < rows.len() {
                    search.index
                } else {
                    rows.len() - 1
                };
                &&& after.content.preview.state.selected == Some(rows[place])
                &&& after.content.preview.state.offset == rows[place]
                &&& after.overlay is Some
                &&& after.overlay->0 is Search
                &&& after.overlay->0->Search_0@.total == rows.len()
                &&& after.overlay->0->Search_0@.shown_index() == place + 1
            }),
    {
        reveal(App::match_shown);
        let search = before.overlay->0->Search_0@;
        let found = search.found(rows.len() as int);
        assert(rows[found.index] < before.content.preview.rows().len());
        before.overlay->0->Search_0.law_counts_are_natural();
        assert(after.content.preview.layout_lines.lines.len()
            == after.content.preview.rows().len());
    }

    /// Clearing a search forgets its term.
    pub proof fn law_cleared_searches_mark_nothing(
        before: App,
        after: App,
        answer: AnswerView,
        now: u64,
    )
        requires
            after.effected(&before, EffectView::ClearSearch, answer, now),
        ensures
            after.content.preview.search.term is None,
            after.overlay is None,
            after.content.preview.state == before.content.preview.state,
            after.content.preview.logical_lines == before.content.preview.logical_lines,
    {
        reveal(App::effected);
        reveal(App::searches);
    }

    /// The output screen is left by its keys: at once, or once the program is done; it
    /// is copied only then.
    pub proof fn law_the_output_is_left_by_its_keys(
        before: App,
        after: App,
        action: output::Action,
        command: OutputCommand,
        id: CodeId,
    )
        requires
            before.selected() == Some(id),
            before.tasks.outputs@.contains_key(id),
            after.output_acted(&before, action, command),
        ensures
            ({
                let done = before.tasks.outputs@[id].task.done;
                &&& action == output::Action::Back ==> after.screen == Screen::Home
                &&& action == output::Action::BackIfDone && done ==> after.screen == Screen::Home
                &&& action == output::Action::BackIfDone && !done ==> after == before
                &&& action == output::Action::Copy && done ==> command == OutputCommand::Copy(id)
                &&& action == output::Action::Copy && !done ==> command == OutputCommand::Nothing
                &&& action == output::Action::Paste ==> command == OutputCommand::Paste(id)
            }),
    {
        reveal(App::went_home);
    }

    /// Keys of the output count as long as its program does not need them; the others go
    /// to the program.
    pub proof fn law_programs_get_the_keys_of_the_output(
        &self,
        bound: Option<output::Action>,
        id: CodeId,
    )
        requires
            self.selected() == Some(id),
            self.tasks.outputs@.contains_key(id),
        ensures
            ({
                let done = self.tasks.outputs@[id].task.done;
                &&& bound is None ==> self.output_routed(bound, None) == OutputRoute::Forward
                &&& bound == Some(output::Action::Back) ==> self.output_routed(bound, None)
                    == OutputRoute::Action(output::Action::Back)
                &&& bound == Some(output::Action::BackIfDone) && !done ==> self.output_routed(
                    bound,
                    None,
                ) == OutputRoute::Forward
                &&& bound is Some && done ==> self.output_routed(bound, None)
                    == OutputRoute::Action(bound->0)
            }),
    {
    }

    /// A program is told of the mouse as a cell of its screen, counted from one; where
    /// it does not ask for it, the mouse scrolls and selects.
    pub proof fn law_programs_get_the_cell_of_the_mouse(
        &self,
        mouse: Mouse,
        encodable: bool,
        id: CodeId,
    )
        requires
            self.selected() == Some(id),
            self.tasks.outputs@.contains_key(id),
            self.tasks.outputs@[id].cols > 0,
            self.tasks.outputs@[id].rows > 0,
        ensures
            ({
                let task = self.tasks.outputs@[id];
                let route = self.output_routed(None, Some((mouse, encodable)));
                let area = self.output.last_area;
                &&& route is SendMouse <==> task.sgr_mouse && encodable
                &&& !(task.sgr_mouse && encodable) ==> route == OutputRoute::Local(id)
                &&& route matches OutputRoute::SendMouse(to, col, row) ==> to == id && 1 <= col
                    <= task.cols && 1 <= row <= task.rows
                &&& route matches OutputRoute::SendMouse(to, col, row) ==> (area.x <= mouse.column
                    < area.x + task.cols && area.y <= mouse.row < area.y + task.rows ==> col
                    == mouse.column - area.x + 1 && row == mouse.row - area.y + 1)
            }),
    {
    }

    /// A click on a running block lets keys go to it again where that was paused; one
    /// beside it leads back to the document.
    pub proof fn law_clicks_move_the_keys(
        &self,
        previous: Option<CodeId>,
        selected: CodeId,
        copied: Option<bool>,
    )
        ensures
            self.screen == Screen::Home && self.auto_input_paused && self.tasks.runs(selected)
                ==> self.clicked_screen(Some(Clicked::Code { previous, selected, copied })).0
                == Screen::Input,
            self.screen == Screen::Input && previous != Some(selected) && !self.tasks.runs(
                selected,
            ) ==> self.clicked_screen(Some(Clicked::Code { previous, selected, copied })).0
                == Screen::Home,
            self.screen == Screen::Input ==> self.clicked_screen(
                Some(Clicked::Preview { copied }),
            ).0 == Screen::Home,
            self.clicked_screen(None).0 == self.screen,
    {
    }
}

impl Flow {
    /// On the way to one block that block stays selected; a plan for all blocks selects
    /// the first of each batch. A plan that runs by itself launches the batch.
    pub proof fn law_batches_begin(self, batch: Seq<CodeId>)
        requires
            batch.len() > 0,
            self.workflow is Some,
        ensures
            self.workflow->0.graph.target_view() is Some ==> self.selection(batch) is None,
            self.workflow->0.graph.target_view() is None ==> self.selection(batch) == Some(
                batch[0],
            ),
            self.batch_begun(batch).next == NextView::Launch(batch) <==> self.workflow->0.auto_run,
            self.batch_begun(batch).next == NextView::Nothing <==> !self.workflow->0.auto_run,
            self.batch_begun(batch).error is None,
    {
    }

    /// A failed block that stops its plan is reported by its number.
    pub proof fn law_stopped_plans_name_the_block(self, result: AdvanceView)
        requires
            result is Stopped,
        ensures
            ({
                let text = self.handled(result).1.error->0;
                let digits = decimal_text(result->Stopped_0.block as nat).len() as int;
                &&& self.handled(result).1.error is Some
                &&& text.len() >= 6 + digits
                &&& decimal_value(text.subrange(6, 6 + digits)) == result->Stopped_0.block
            }),
    {
        reveal_strlit("Block ");
        let number = decimal_text(result->Stopped_0.block as nat);
        law_digits_stand_for_the_number(result->Stopped_0.block as nat);
        let text = self.handled(result).1.error->0;
        assert(text.subrange(6, 6 + number.len() as int) =~= number);
    }
}

/// A message is shown until its time is over, and is gone then.
pub proof fn law_messages_go_when_their_time_is_over(flash: FlashMessage, now: u64)
    ensures
        now < flash.expires_at ==> still_shown(Some(flash), now) == Some(flash),
        now >= flash.expires_at ==> still_shown(Some(flash), now) is None,
        still_shown(None, now) is None,
{
}

/// The dialog to go to a block lists each by its number, and its name or else its
/// language, with how it stands.
pub proof fn law_goto_lists_every_block(goto: Goto, codes: Seq<Code>, tasks: Tasks, i: int)
    requires
        lists_blocks(goto, codes, tasks),
        0 <= i < codes.len(),
    ensures
        ({
            let block = goto.all_blocks@[i];
            let digits = decimal_text(codes[i].id as nat).len() as int;
            let name = if codes[i].name@.len() > 0 {
                codes[i].name@
            } else {
                codes[i].language@
            };
            &&& block.id == codes[i].id
            &&& decimal_value(block.label@.take(digits)) == codes[i].id
            &&& block.label@.skip(digits + 2) == name
            &&& tasks.at(codes[i].id) is None ==> block.kind == StatusKind::NotRun
            &&& tasks.at(codes[i].id) matches Some(output) ==> (block.kind == StatusKind::Running
                <==> !output.task.done) && (block.kind == StatusKind::Success <==> output.task.done
                && output.task.exit_code == Some(0i32)) && (block.kind == StatusKind::Error
                <==> output.task.done && output.task.exit_code != Some(0i32))
        }),
{
    reveal_strlit(". ");
    let number = decimal_text(codes[i].id as nat);
    law_digits_stand_for_the_number(codes[i].id as nat);
    let label = goto.all_blocks@[i].label@;
    let name = if codes[i].name@.len() > 0 {
        codes[i].name@
    } else {
        codes[i].language@
    };
    assert(label == goto_label(codes[i]));
    assert(label.take(number.len() as int) =~= number);
    assert(label.skip(number.len() as int + 2) =~= name);
}

impl App {
    /// A copy is told of, as a success or as a failure; without one no message changes.
    pub proof fn law_copies_are_told(before: App, after: App, copied: Option<bool>, now: u64)
        requires
            after.copy_told(&before, copied, now),
        ensures
            copied is None ==> after == before,
            copied is Some ==> after.notification is Some,
            copied == Some(true) ==> after.notification->0.kind == FlashKind::Success,
            copied == Some(false) ==> after.notification->0.kind == FlashKind::Error,
            after.tasks == before.tasks && after.content == before.content && after.screen
                == before.screen,
    {
    }

    /// The picker opens on the files that were found, all of them listed and the first
    /// selected. Where none was found, or looking failed, a message tells so and nothing
    /// opens.
    pub proof fn law_the_picker_opens_on_files(
        before: App,
        after: App,
        root: Seq<char>,
        files: Result<Vec<MarkdownFile>, String>,
        now: u64,
    )
        requires
            after.picker_opened(&before, root, files, now),
        ensures
            files is Ok && files->Ok_0@.len() > 0 ==> after.overlay is Some && after.overlay->0
                is FilePicker && after.overlay->0->picker.state.files == files->Ok_0
                && after.overlay->0->picker.state.selected == 0 && !after.overlay->0->quit_on_cancel
                && after.notification == before.notification,
            files is Ok && files->Ok_0@.len() == 0 ==> after.overlay == before.overlay
                && after.notification is Some && after.notification->0.kind == FlashKind::Error
                && contains_text(after.notification->0.text@, root),
            files is Err ==> after.overlay == before.overlay && after.notification is Some
                && after.notification->0.text@ == files->Err_0@,
            after.content == before.content,
            after.tasks == before.tasks,
    {
        let told = "No Markdown files found under "@;
        assert(told + root =~= told + root + Seq::empty());
        lemma_stands_between(told, root, Seq::empty());
    }

    /// Messages for dialogs do nothing where none is open.
    pub proof fn law_no_dialog_no_answer(
        before: App,
        after: App,
        message: Message,
        answer: AnswerView,
        now: u64,
    )
        requires
            after.dialog_answered(&before, message, answer, now),
            before.overlay is None,
        ensures
            after == before,
            answer == AnswerView::Nothing,
    {
    }

    /// A message of a block changes its own task alone; its screen is taken as it is, and
    /// with it nothing of the task.
    pub proof fn law_messages_change_one_task(
        before: App,
        after: App,
        id: CodeId,
        stream: Stream,
        screen: Option<TaskOutput>,
        other: CodeId,
    )
        requires
            after.took_stream(&before, id, stream, screen),
        ensures
            other != id ==> after.tasks.at(other) == before.tasks.at(other),
            before.tasks.at(id) is None ==> after.tasks.at(id) is None,
            before.tasks.at(id) is Some ==> after.tasks.at(id) is Some,
            before.tasks.at(id) is Some && screen is Some ==> after.tasks.at(id)->0.lines
                == screen->0.lines && after.tasks.at(id)->0.alternate == screen->0.alternate,
            before.tasks.at(id) is Some && screen is None ==> after.tasks.at(id)->0.lines
                == before.tasks.at(id)->0.lines,
            before.tasks.at(id) is Some && stream is Out ==> after.tasks.at(id)->0.task.dirty,
            after.content == before.content,
            after.workflow == before.workflow,
    {
        reveal(App::took_stream);
    }

    /// While an output is open its program has the whole terminal but for the footer, and
    /// so has every other one.
    pub proof fn law_open_outputs_have_the_terminal(
        before: App,
        after: App,
        resize: Resize,
        id: CodeId,
    )
        requires
            after.programs_fitted(&before, resize),
            before.screen == Screen::Output,
            before.layout.last_area.height >= 1,
        ensures
            resize == Resize::All(
                before.layout.last_area.width,
                (before.layout.last_area.height - 1) as u16,
            ),
            before.tasks.at(id) is Some ==> after.tasks.at(id) is Some && after.tasks.at(
                id,
            )->0.cols == before.layout.last_area.width && after.tasks.at(id)->0.rows + 1
                == before.layout.last_area.height,
            after.content == before.content,
    {
        reveal(App::programs_fitted);
    }

    /// In the document only the selected block's program is resized, and only where its
    /// size changes.
    pub proof fn law_only_the_selected_program_is_resized(
        before: App,
        after: App,
        resize: Resize,
        other: CodeId,
    )
        requires
            after.programs_fitted(&before, resize),
            before.screen != Screen::Output,
            before.selected() != Some(other),
        ensures
            after.tasks.at(other) == before.tasks.at(other),
            !(resize is All),
            resize is One ==> before.selected() == Some(resize->One_0),
            resize == Resize::Nothing && before.selected() is Some ==> after.tasks.at(
                before.selected()->0,
            ) == before.tasks.at(before.selected()->0),
    {
        reveal(App::programs_fitted);
    }

    /// The graph below the preview takes its rows and a border, and never more than the
    /// preview has.
    pub proof fn law_the_graph_leaves_room(self)
        requires
            self.layout.preview.height >= 2,
        ensures
            self.graph_height() is Some <==> self.graph_shown && self.graph is Some,
            self.graph_height() matches Some(height) ==> 2 <= height
                <= self.layout.preview.height,
            self.graph_height() is Some && self.graph->0.rows_shown() + 2
                <= self.layout.preview.height ==> self.graph_height()->0
                == self.graph->0.rows_shown() + 2,
    {
    }

    /// The interface starts in the document, with nothing run, planned or open.
    pub proof fn law_nothing_runs_at_first(self, options: Options, envs: Envs, id: CodeId)
        requires
            self.starts(options, envs),
        ensures
            self.tasks.at(id) is None,
            self.workflow is None,
            self.overlay is None,
            self.notification is None,
            self.screen == Screen::Home,
            self.captures@.len() == 0,
            !self.started,
            self.envs.items@.map == envs@,
            self.options == options,
    {
    }
}

impl App {
    /// The list of headings gets wider and narrower; the list of blocks keeps its width.
    pub proof fn law_only_headings_change_their_width(before: App, after: App, delta: int)
        requires
            after.toc_changed(&before, delta),
        ensures
            before.content.menu.mode == MenuMode::CodeBlocks ==> after == before,
    {
        reveal(App::toc_changed);
    }

    /// Files are looked for where the picker was opened first, or else beside the document.
    pub proof fn law_files_are_looked_for_beside_the_document(self)
        ensures
            self.file_picker_root is Some ==> self.picker_root() == Some(
                self.file_picker_root->0@,
            ),
            self.file_picker_root is None && self.options.file is None ==> self.picker_root() is None,
            self.file_picker_root is None && self.options.file is Some && parent_dir(
                self.options.file->0@,
            ).len() > 0 ==> self.picker_root() == Some(parent_dir(self.options.file->0@)),
    {
    }
}

} // verus!
