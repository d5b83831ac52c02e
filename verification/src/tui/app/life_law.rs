//! How the interface opens documents, starts blocks, keeps time and hands the keys over.

use vstd::prelude::*;

use super::flow::{App, Flow, NextView, Screen};
use super::footer::{listed_keys, mode_of, Binding};
use super::open::{open_failed_text, Document, Look};
use crate::code::CodeId;
use crate::exec::Stream;
use crate::scheduler::AdvanceView;
use crate::task::TaskStatus;
use crate::text::{contains_text, lemma_stands_between};
use crate::theme::Theme;
use crate::tui::notification::FlashKind;
use crate::tui::preview::interact::Mouse;
use crate::tui::tasks::Tasks;

verus! {

impl App {
    /// The keys go to a program no longer than it runs; the output stays open until it is
    /// left.
    pub proof fn law_input_ends_with_the_program(&self)
        ensures
            self.input_screen() == Screen::Output <==> self.screen == Screen::Output,
            self.input_screen() == Screen::Input ==> self.screen == Screen::Input
                && self.selected() is Some && self.tasks.outputs@.contains_key(self.selected()->0)
                && !self.tasks.outputs@[self.selected()->0].task.done,
            self.screen == Screen::Input && self.selected_runs() ==> self.input_screen()
                == Screen::Input,
            self.screen == Screen::Home ==> self.input_screen() == Screen::Home,
    {
    }

    /// The keys go over to the selected block's program by themselves once it waits for
    /// them: never to another block's, nor under a dialog, nor where this is paused.
    pub proof fn law_waiting_programs_get_the_keys(before: App, after: App, id: CodeId)
        requires
            after.focused(&before, id),
        ensures
            before.screen == Screen::Home && before.overlay is None && !before.auto_input_paused
                && before.selected() == Some(id) && before.tasks.waits(id) ==> after.screen
                == Screen::Input,
            before.screen == Screen::Home && after.screen == Screen::Input ==> before.overlay is None
                && !before.auto_input_paused && before.selected() == Some(id)
                && before.tasks.outputs@.contains_key(id) && before.tasks.outputs@[id].task.started
                && !before.tasks.outputs@[id].cursor_hidden,
            after.tasks == before.tasks,
            after.content == before.content,
            after.overlay == before.overlay,
    {
        reveal(App::focused_screen);
        reveal(App::focused);
    }

    /// A block that started runs, on an empty screen; one that could not has ended
    /// without an exit code. Other blocks are left alone.
    pub proof fn law_started_blocks_run(before: App, after: App, id: CodeId, started: bool, other: CodeId)
        requires
            after.began(&before, id, started),
        ensures
            after.tasks.runs(id) <==> started,
            after.tasks.outputs@[id].task.exit_code is None,
            after.tasks.outputs@[id].lines@.len() == 0,
            after.tasks.outputs@[id].task.captured_envs is None,
            after.tasks.outputs@[id].task.captured_cwd is None,
            after.tasks.outputs@[id].task.dirty,
            other != id ==> after.tasks.at(other) == before.tasks.at(other),
            !started ==> after.tasks.outputs@[id].task.status_spec() == TaskStatus::Error,
            started ==> after.tasks.outputs@[id].task.status_spec() == TaskStatus::Running,
            after.workflow == before.workflow,
            after.captures == before.captures,
    {
    }

    /// The menu shows for each block how its task is doing.
    pub proof fn law_the_menu_shows_the_status(before: App, after: App, id: CodeId)
        requires
            after.with_statuses(&before),
        ensures
            after.content.menu.code_statuses@.contains_key(id)
                <==> before.tasks.outputs@.contains_key(id),
            before.tasks.outputs@.contains_key(id) ==> after.content.menu.code_statuses@[id]
                == before.tasks.outputs@[id].task.status_spec(),
            after.content.menu.state == before.content.menu.state,
            after.content.menu.items == before.content.menu.items,
            after.content.preview == before.content.preview,
            after.tasks == before.tasks,
    {
        reveal(App::with_statuses);
    }

    /// Time clears messages and refreshes the statuses; it moves nothing and ends no plan.
    pub proof fn law_time_moves_nothing(before: App, after: App, now: u64)
        requires
            after.ticked(&before, now),
        ensures
            before.notification matches Some(message) && now < message.expires_at
                ==> after.notification == before.notification,
            before.notification matches Some(message) && now >= message.expires_at
                ==> after.notification is None,
            before.notification is None ==> after.notification is None,
            after.content == before.content,
            after.tasks == before.tasks,
            after.workflow == before.workflow,
            after.screen == before.screen,
            before.overlay is None <==> after.overlay is None,
            before.overlay is Some && !(before.overlay->0 is Dependencies) ==> after.overlay
                == before.overlay,
    {
        reveal(App::ticked);
    }

    /// What was asked for at the start is begun once.
    pub proof fn law_the_first_step_is_taken_once(&self)
        ensures
            self.started ==> !self.has_first_step(),
            !self.started && self.options.all && !self.options.block ==> self.has_first_step(),
            !self.options.all && !self.options.yes ==> !self.has_first_step(),
            !self.options.all && !self.options.block ==> !self.has_first_step(),
            !self.started && self.options.block && self.options.yes ==> (self.has_first_step()
                <==> self.selected() is Some),
    {
    }

    /// A document that was opened starts afresh: no block has run, no plan goes on and no
    /// dialog stays open. The variables, the directory and the options are kept.
    pub proof fn law_documents_start_afresh<W: Fn(&str, usize) -> Vec<(usize, usize)>>(
        before: App,
        after: App,
        path: Option<String>,
        doc: Document,
        selected: Result<Option<CodeId>, String>,
        look: Look,
        wrap: W,
        now: u64,
        id: CodeId,
    )
        requires
            after.document_taken(&before, path, doc, selected, look, wrap, now),
            selected is Ok,
        ensures
            after.tasks.at(id) is None,
            after.captures@.len() == 0,
            after.workflow is None,
            after.overlay is None,
            after.graph is None,
            !after.started,
            !after.auto_input_paused,
            after.screen == Screen::Home,
            after.envs == before.envs,
            after.last_cwd == before.last_cwd,
            after.options.yes == before.options.yes,
            after.options.all == before.options.all,
            after.options.block == before.options.block,
            after.zen == before.zen,
            path is Some ==> after.options.file == path,
            path is None ==> after.options.file == before.options.file,
    {
        reveal(App::loaded);
    }

    /// A document without the block that was asked for is not opened: all stays as it was,
    /// and a message tells why.
    pub proof fn law_refused_documents_change_nothing<W: Fn(&str, usize) -> Vec<(usize, usize)>>(
        before: App,
        after: App,
        path: Option<String>,
        doc: Document,
        selected: Result<Option<CodeId>, String>,
        look: Look,
        wrap: W,
        now: u64,
    )
        requires
            after.document_taken(&before, path, doc, selected, look, wrap, now),
            selected is Err,
        ensures
            after == (App { notification: after.notification, ..before }),
            after.notification is Some,
            after.notification->0.text@ == selected->Err_0@,
            after.notification->0.kind == FlashKind::Error,
            after.notification->0.expires_at > now || now == u64::MAX,
    {
    }

    /// The footer names the mode: input only where keys go to a running program, and the
    /// dialog where one is open.
    pub proof fn law_the_footer_names_the_mode(app: App, theme: Theme)
        ensures
            mode_of(app, theme).0 == "INPUT"@ <==> app.screen == Screen::Input
                && app.selected_runs() && !(app.overlay is Some && (app.overlay->0 is Search
                || app.overlay->0 is Goto || app.overlay->0 is FilePicker)),
            app.overlay is Some && app.overlay->0 is Search ==> mode_of(app, theme).0
                == "SEARCH"@,
            app.overlay is Some && app.overlay->0 is Goto ==> mode_of(app, theme).0 == "GOTO"@,
            app.overlay is Some && app.overlay->0 is FilePicker ==> mode_of(app, theme).0
                == "OPEN"@,
            app.overlay is None && app.screen == Screen::Home ==> (mode_of(app, theme).0 == "ZEN"@
                <==> app.zen),
    {
        reveal_strlit("INPUT");
        reveal_strlit("NORMAL");
        reveal_strlit("SEARCH");
        reveal_strlit("GOTO");
        reveal_strlit("OPEN");
        reveal_strlit("ZEN");
        let mode = mode_of(app, theme).0;
        assert("NORMAL"@.len() == 6 && "INPUT"@.len() == 5 && "ZEN"@.len() == 3);
        assert("SEARCH"@.len() == 6 && "GOTO"@.len() == 4 && "OPEN"@.len() == 4);
    }

    /// A program that asked for the mouse is told of it in its own cells, as long as it
    /// runs.
    pub proof fn law_only_running_programs_get_the_mouse(&self, mouse: Mouse, encodable: bool)
        requires
            self.sends_mouse(mouse, encodable),
        ensures
            encodable,
            self.selected() is Some,
            ({
                let id = self.selected()->0;
                let output = self.tasks.outputs@[id];
                &&& self.tasks.outputs@.contains_key(id)
                &&& output.task.started && !output.task.done && output.sgr_mouse
                &&& (self.program_place(mouse)->0).0 == id
                &&& (self.program_place(mouse)->0).1 <= output.cols
                &&& 1 <= (self.program_place(mouse)->0).2 <= output.rows
            }),
    {
    }

    /// A block that has ended shows its status in the gutter; output alone does not
    /// change what the gutter shows.
    pub proof fn law_ended_blocks_show_their_status(&self, id: CodeId, stream: Stream)
        ensures
            stream is Exit || stream is End ==> self.ended_marked(
                id,
                stream,
            ).content.preview.prefer_status_gutter == Some(id),
            stream is Out ==> self.ended_marked(id, stream) == *self,
            self.ended_marked(id, stream).tasks == self.tasks,
            self.ended_marked(id, stream).screen == self.screen,
    {
        reveal(App::ended_marked);
    }
}

impl Tasks {
    /// A program is resized to the size it is given, and keeps what is on its screen.
    /// Others keep their size.
    pub proof fn law_programs_are_resized(
        before: Tasks,
        after: Tasks,
        id: CodeId,
        cols: u16,
        rows: u16,
        other: CodeId,
    )
        requires
            after.resized(&before, id, cols, rows),
        ensures
            other != id ==> after.at(other) == before.at(other),
            before.at(id) is None ==> after.at(id) is None,
            before.at(id) is Some ==> after.at(id) is Some && after.at(id)->0.cols == cols
                && after.at(id)->0.rows == rows && after.at(id)->0.lines == before.at(id)->0.lines
                && after.at(id)->0.task == before.at(id)->0.task,
    {
    }

    /// Output marks its block as changed; how a block runs or ended is told by its own
    /// messages alone.
    pub proof fn law_messages_reach_their_block(
        before: Tasks,
        after: Tasks,
        id: CodeId,
        stream: Stream,
        other: CodeId,
    )
        requires
            after.streamed(&before, id, stream),
        ensures
            other != id ==> after.at(other) == before.at(other),
            before.at(id) is None ==> after.at(id) is None,
            before.at(id) is Some && stream is Out ==> after.at(id) is Some
                && after.at(id)->0.task.dirty && after.dirty(),
            before.at(id) is Some ==> after.at(id) is Some && after.at(id)->0.lines == before.at(
                id,
            )->0.lines,
    {
        if before.at(id) is Some && stream is Out {
            assert(after.outputs@.contains_key(id));
        }
    }
}

impl Flow {
    /// Blocks of a batch whose results are reused count as successes, those that could not
    /// be started as failures; a block that runs is waited for.
    pub proof fn law_blocks_that_do_not_run_are_counted(
        self,
        id: CodeId,
        succeeded: spec_fn(CodeId) -> bool,
        not_started: Seq<CodeId>,
    )
        requires
            self.workflow is Some,
        ensures
            ({
                let (flow, result) = self.launched(seq![id], succeeded, not_started);
                let workflow = self.workflow->0;
                &&& !workflow.executes(id, succeeded(id)) ==> flow.workflow == Some(
                    workflow.advance(id, Some(0)).0,
                ) && result == Some(workflow.advance(id, Some(0)).1)
                &&& workflow.executes(id, succeeded(id)) && not_started.contains(id)
                    ==> flow.workflow == Some(workflow.advance(id, Some(1)).0) && result == Some(
                    workflow.advance(id, Some(1)).1,
                )
                &&& workflow.executes(id, succeeded(id)) && !not_started.contains(id) ==> flow
                    == self && result is None
            }),
    {
        assert(seq![id].drop_last() =~= Seq::empty());
        assert(self.launched(Seq::empty(), succeeded, not_started) == (
            self,
            Option::<AdvanceView>::None,
        ));
    }

    /// Nothing is handed on and nothing begins before every block of the batch has ended.
    pub proof fn law_running_batches_hand_nothing_on(self, result: AdvanceView)
        ensures
            result is Pending || result is Untracked ==> self.handled(result).0 == self
                && self.handled(result).1.next == NextView::Nothing && self.handled(
                result,
            ).1.error is None,
            result is NextBatch ==> self.handled(result).0.pending.len() == 0 && self.handled(
                result,
            ).0.workflow == self.workflow,
    {
    }
}

/// The message about a document that could not be opened tells which and why.
pub proof fn law_failed_opening_is_told(path: Seq<char>, error: Seq<char>)
    ensures
        contains_text(open_failed_text(path, error), path),
        contains_text(open_failed_text(path, error), error),
{
    let text = open_failed_text(path, error);
    assert(text =~= "Failed to open "@ + path + (": "@ + error));
    lemma_stands_between("Failed to open "@, path, ": "@ + error);
    assert(text =~= "Failed to open "@ + path + ": "@ + error + Seq::empty());
    lemma_stands_between("Failed to open "@ + path + ": "@, error, Seq::empty());
}

/// Each key that the footer lists is bound to an action that can be done now, and each
/// such action with a key to show is listed.
pub proof fn law_the_footer_lists_what_can_be_done(
    app: App,
    bound: Seq<Binding>,
    keys: Seq<(String, String)>,
    i: int,
    k: int,
)
    requires
        listed_keys(app, bound, keys),
    ensures
        0 <= k < keys.len() ==> exists|j: int|
            0 <= j < bound.len() && app.enables((#[trigger] bound[j]).action)
                && bound[j].help.shown() && keys[k].0@ == bound[j].help.symbol->0@ && keys[k].1@
                == bound[j].help.help->0@,
        0 <= i < bound.len() && app.shows_in_footer(bound[i].action) && bound[i].help.shown()
            ==> exists|j: int|
            0 <= j < keys.len() && (#[trigger] keys[j]).0@ == bound[i].help.symbol->0@
                && keys[j].1@ == bound[i].help.help->0@,
        keys.len() <= bound.len(),
    decreases bound.len(),
{
    if bound.len() > 0 {
        let less = bound.drop_last();
        let last = bound.last();
        if app.shows_in_footer(last.action) && last.help.shown() {
            let shorter = keys.drop_last();
            law_the_footer_lists_what_can_be_done(app, less, shorter, i, k);
            if 0 <= k < keys.len() {
                if k < shorter.len() {
                    assert(keys[k] == shorter[k]);
                    let j = choose|j: int|
                        0 <= j < less.len() && app.enables((#[trigger] less[j]).action)
                            && less[j].help.shown() && keys[k].0@ == less[j].help.symbol->0@
                            && keys[k].1@ == less[j].help.help->0@;
                    assert(bound[j] == less[j]);
                } else {
                    assert(bound[bound.len() - 1] == last);
                }
            }
            if 0 <= i < bound.len() && app.shows_in_footer(bound[i].action)
                && bound[i].help.shown() {
                if i < less.len() {
                    assert(bound[i] == less[i]);
                    let j = choose|j: int|
                        0 <= j < shorter.len() && (#[trigger] shorter[j]).0@
                            == less[i].help.symbol->0@ && shorter[j].1@ == less[i].help.help->0@;
                    assert(keys[j] == shorter[j]);
                } else {
                    assert(keys[keys.len() - 1] == keys.last());
                }
            }
        } else {
            law_the_footer_lists_what_can_be_done(app, less, keys, i, k);
            if 0 <= k < keys.len() {
                let j = choose|j: int|
                    0 <= j < less.len() && app.enables((#[trigger] less[j]).action)
                        && less[j].help.shown() && keys[k].0@ == less[j].help.symbol->0@
                        && keys[k].1@ == less[j].help.help->0@;
                assert(bound[j] == less[j]);
            }
            if 0 <= i < less.len() {
                assert(bound[i] == less[i]);
            }
        }
    }
}

impl Tasks {
    /// The output below a block is scrolled by one line, from the first to the last of
    /// what there is; scrolling back undoes it. Other blocks stay where they are.
    pub proof fn law_inline_output_scrolls_by_one_line(
        before: Tasks,
        after: Tasks,
        id: CodeId,
        up: bool,
        lines: usize,
        n: Option<usize>,
        other: CodeId,
    )
        requires
            after.scrolled_inline(&before, id, up, lines, n),
            before.outputs@.contains_key(id),
        ensures
            ({
                let output = before.outputs@[id];
                let now = output.task.inline_scroll;
                let then = after.outputs@[id].task.inline_scroll;
                let room = output.max_scrollback + output.rows - lines;
                &&& after.outputs@.contains_key(id)
                &&& up && now < room ==> then == now + 1
                &&& up && now >= room && room >= 0 ==> then == room
                &&& !up && 0 < now <= room ==> then == now - 1
                &&& !up && now == 0 ==> then == 0
                &&& room <= 0 ==> then == 0
                &&& n is Some
                &&& n->0 <= output.max_scrollback
                &&& then <= output.max_scrollback ==> n == Some(then)
                &&& then > output.max_scrollback ==> n == Some(output.max_scrollback as usize)
                &&& after.outputs@[id].lines == output.lines
            }),
            other != id ==> after.at(other) == before.at(other),
    {
    }
}

} // verus!
