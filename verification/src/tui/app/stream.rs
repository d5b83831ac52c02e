//! Messages of running blocks.

use vstd::prelude::*;

use super::flow::App;
use super::input::StreamStep;
use super::render::lemma_rerendered_flow;
use crate::code::CodeId;
use crate::exec::{forces_rebuild, Stream};
use crate::tui::notification::DEFAULT_DURATION;
use crate::tui::preview::layout_lines::is_wrap;
use crate::tui::tasks::TaskOutput;

verus! {

impl App {
    /// The document has to be rendered anew after a message.
    pub open spec fn rebuild_due(&self, taken: App, id: CodeId, stream: Stream) -> bool {
        taken.has_to_fit(self, id) || (self.tasks.at(id) is Some && forces_rebuild(
            self.tasks.at(id)->0.task,
            stream,
        ))
    }

    /// A full-screen program that has just taken the screen is fitted.
    #[verifier::opaque]
    pub open spec fn fitted_after(
        &self,
        before: &App,
        taken: App,
        id: CodeId,
        resize: Option<(u16, u16)>,
    ) -> bool {
        if taken.has_to_fit(before, id) {
            resize is Some && self.fitted_program(&taken, id, resize->0)
        } else {
            resize is None && *self == taken
        }
    }

    /// The document is rendered anew where that is due.
    #[verifier::opaque]
    pub open spec fn shown_after<W: Fn(&str, usize) -> Vec<(usize, usize)>>(
        &self,
        marked: App,
        due: bool,
        wrap: W,
    ) -> bool {
        if due {
            self.rerendered(&marked, wrap)
        } else {
            *self == marked
        }
    }

    /// What a message of a block leads to, but for the plan, step by step: the task
    /// takes it; a full-screen program is fitted; the end shows in the gutter; the
    /// document is rendered anew where that is due; input follows the program; and
    /// the menu shows how the blocks stand.
    #[verifier::opaque]
    pub open spec fn received<W: Fn(&str, usize) -> Vec<(usize, usize)>>(
        &self,
        before: &App,
        id: CodeId,
        stream: Stream,
        screen: Option<TaskOutput>,
        wrap: W,
        resize: Option<(u16, u16)>,
        exit_code: Option<i32>,
    ) -> bool {
        exists|taken: App, fit: App, shown: App, waiting: App|
            {
                &&& #[trigger] taken.took_stream(before, id, stream, screen)
                &&& exit_code == taken.exit_of(id)
                &&& #[trigger] fit.fitted_after(before, taken, id, resize)
                &&& #[trigger] shown.shown_after(
                    fit.ended_marked(id, stream),
                    before.rebuild_due(taken, id, stream),
                    wrap,
                )
                &&& #[trigger] waiting.focused(&shown, id)
                &&& self.with_statuses(&waiting)
            }
    }

    fn fit_after(&mut self, id: CodeId, was_alternate: bool, Ghost(before): Ghost<App>) -> (resize:
        Option<(u16, u16)>)
        requires
            old(self).wf(),
            was_alternate == before.alternate(id),
        ensures
            final(self).wf(),
            final(self).flow() == old(self).flow(),
            final(self).fitted_after(&before, *old(self), id, resize),
            resize is Some <==> old(self).has_to_fit(&before, id),
    {
        proof {
            reveal(App::fitted_after);
        }
        let is_alternate = match self.tasks.get(id) {
            Some(output) => output.alternate,
            None => false,
        };
        if !was_alternate && is_alternate && self.screen != super::flow::Screen::Output
            && self.content.selected_code_id() == Some(id) {
            let size = self.fit_program(id);
            Some(size)
        } else {
            None
        }
    }

    fn show_after<W: Fn(&str, usize) -> Vec<(usize, usize)>>(&mut self, due: bool, wrap: &W)
        requires
            is_wrap(*wrap),
            old(self).wf(),
        ensures
            final(self).wf(),
            final(self).flow() == old(self).flow(),
            final(self).shown_after(*old(self), due, *wrap),
    {
        proof {
            reveal(App::shown_after);
        }
        if due {
            self.rebuild_outputs(wrap);
            proof {
                lemma_rerendered_flow(*self, *old(self), *wrap);
            }
        }
    }

    fn exit_code_of(&self, id: CodeId) -> (code: Option<i32>)
        ensures
            code == self.exit_of(id),
    {
        match self.tasks.get(id) {
            Some(output) => output.task.exit_code,
            None => None,
        }
    }

    fn is_alternate(&self, id: CodeId) -> (yes: bool)
        ensures
            yes == self.alternate(id),
    {
        match self.tasks.get(id) {
            Some(output) => output.alternate,
            None => false,
        }
    }

    /// Takes a message of a running block, but for what the plan makes of it;
    /// returns the new size of its program, and how the block ended.
    fn receive<W: Fn(&str, usize) -> Vec<(usize, usize)>>(
        &mut self,
        id: CodeId,
        stream: &Stream,
        screen: Option<TaskOutput>,
        wrap: &W,
    ) -> (out: (Option<(u16, u16)>, Option<i32>))
        requires
            is_wrap(*wrap),
            old(self).wf(),
            stream matches Stream::Env(envs) ==> envs.wf(),
        ensures
            final(self).wf(),
            final(self).flow() == old(self).flow(),
            final(self).received(old(self), id, *stream, screen, *wrap, out.0, out.1),
    {
        let was_alternate = self.is_alternate(id);
        let forced = self.take_stream(id, stream, screen);
        let ghost taken = *self;
        let exit_code = self.exit_code_of(id);
        let resize = self.fit_after(id, was_alternate, Ghost(*old(self)));
        let ghost fit = *self;
        self.mark_end(id, stream);
        self.show_after(forced || resize.is_some(), wrap);
        let ghost shown = *self;
        self.focus_waiting(id);
        let ghost waiting = *self;
        self.sync_task_statuses();
        assert(self.received(old(self), id, *stream, screen, *wrap, resize, exit_code)) by {
            reveal(App::received);
            assert(taken.took_stream(old(self), id, *stream, screen));
            assert(fit.fitted_after(old(self), taken, id, resize));
            assert(shown.shown_after(
                fit.ended_marked(id, *stream),
                old(self).rebuild_due(taken, id, *stream),
                *wrap,
            ));
            assert(waiting.focused(&shown, id));
        }
        (resize, exit_code)
    }

    /// Takes a message of a running block, and lets the plan go on. `screen` is what
    /// its screen shows then, where that changed.
    pub fn handle_stream_update<W: Fn(&str, usize) -> Vec<(usize, usize)>>(
        &mut self,
        id: CodeId,
        stream: &Stream,
        screen: Option<TaskOutput>,
        now: u64,
        wrap: &W,
    ) -> (step: StreamStep)
        requires
            is_wrap(*wrap),
            old(self).wf(),
            stream matches Stream::Env(envs) ==> envs.wf(),
            now + DEFAULT_DURATION <= u64::MAX,
        ensures
            final(self).wf(),
            exists|listed: App, exit_code: Option<i32>|
                {
                    let outcome = App::stream_flow(
                        old(self).flow(),
                        old(self).tasks.at(id) is Some,
                        id,
                        *stream,
                        exit_code,
                    );
                    &&& #[trigger] listed.received(
                        old(self),
                        id,
                        *stream,
                        screen,
                        *wrap,
                        step.resize,
                        exit_code,
                    )
                    &&& final(self).ran(&listed, outcome, now)
                    &&& step.next@ == outcome.1.next
                },
    {
        let known = self.tasks.contains(id);
        let (resize, exit_code) = self.receive(id, stream, screen, wrap);
        let ghost listed = *self;
        let next = self.stream_to_flow(id, stream, known, exit_code, now);
        assert(listed.received(old(self), id, *stream, screen, *wrap, resize, exit_code));
        StreamStep { next, resize }
    }
}

} // verus!
