//! The document with the output of its blocks.

use vstd::prelude::*;

use super::flow::{App, Screen};
use crate::code::CodeId;
use crate::exec::{forces_rebuild, Stream};
use crate::task::Task;
use crate::tui::content::Content;
use crate::tui::preview::layout_lines::is_wrap;
use crate::tui::preview::pane::Preview;
use crate::tui::tasks::{TaskOutput, Tasks};

verus! {

/// What a screen shows, where it changed.
pub open spec fn screen_shown(
    before: Map<CodeId, TaskOutput>,
    id: CodeId,
    screen: Option<TaskOutput>,
) -> Map<CodeId, TaskOutput> {
    if screen is Some && before.contains_key(id) {
        before.insert(id, TaskOutput { task: before[id].task, ..screen->0 })
    } else {
        before
    }
}

/// Tasks whose output is shown.
pub open spec fn all_clean(outputs: Map<CodeId, TaskOutput>) -> Map<CodeId, TaskOutput> {
    outputs.map_values(
        |output: TaskOutput| TaskOutput { task: Task { dirty: false, ..output.task }, ..output },
    )
}

impl App {
    /// A message came in, and the screen shows it.
    #[verifier::opaque]
    pub open spec fn took_stream(
        &self,
        before: &App,
        id: CodeId,
        stream: Stream,
        screen: Option<TaskOutput>,
    ) -> bool {
        &&& *self == (App { tasks: self.tasks, ..*before })
        &&& exists|tasks: Tasks| #[trigger]
            tasks.streamed(&before.tasks, id, stream) && self.tasks.outputs@ == screen_shown(
                tasks.outputs@,
                id,
                screen,
            )
    }

    /// A full-screen program has just taken the screen of the selected block, in
    /// the document.
    pub open spec fn has_to_fit(&self, before: &App, id: CodeId) -> bool {
        !before.alternate(id) && self.alternate(id) && self.screen != Screen::Output
            && self.selected() == Some(id)
    }

    /// A full-screen program was fitted below its block.
    #[verifier::opaque]
    pub open spec fn fitted_program(&self, before: &App, id: CodeId, size: (u16, u16)) -> bool {
        &&& (size.0 as int, size.1 as int) == before.inline_size(id)
        &&& (App { tasks: before.tasks, ..*self }).fitted(before, id)
        &&& self.tasks.resized(&before.tasks, id, size.0, size.1)
    }

    /// The document was rendered anew with the blocks' output.
    #[verifier::opaque]
    pub open spec fn rerendered<W: Fn(&str, usize) -> Vec<(usize, usize)>>(
        &self,
        before: &App,
        wrap: W,
    ) -> bool {
        &&& self.content.menu == before.content.menu
        &&& self.content.preview.rebuilt(
            &before.content.preview,
            before.tasks.outputs,
            before.content.preview.layout_lines.last_width,
            wrap,
        )
        &&& self.tasks.outputs@ == all_clean(before.tasks.outputs@)
        &&& *self == (App { content: self.content, tasks: self.tasks, ..*before })
    }

    /// Whether some block has output that is not shown yet.
    pub fn has_new_output(&self) -> (yes: bool)
        requires
            self.wf(),
        ensures
            yes == self.tasks.dirty(),
    {
        proof {
            reveal(App::wf);
        }
        self.tasks.is_dirty()
    }

    /// Renders the document anew with the blocks' output.
    pub fn rebuild_outputs<W: Fn(&str, usize) -> Vec<(usize, usize)>>(&mut self, wrap: &W)
        requires
            is_wrap(*wrap),
            old(self).wf(),
        ensures
            final(self).wf(),
            final(self).rerendered(old(self), *wrap),
    {
        proof {
            reveal(App::wf);
        }
        self.content.rebuild(&self.tasks.outputs, wrap);
        self.tasks.clear_dirty();
        assert(self.rerendered(old(self), *wrap)) by {
            reveal(App::rerendered);
        }
    }

    /// The screen after a message: input to a program lasts while it runs, and
    /// starts once the selected block waits for it, unless that is paused.
    #[verifier::opaque]
    pub open spec fn focused_screen(&self, id: CodeId) -> Screen {
        if self.input_screen() != Screen::Input && self.overlay is None && !self.auto_input_paused
            && self.selected() == Some(id) && self.tasks.waits(id) {
            Screen::Input
        } else {
            self.input_screen()
        }
    }

    /// Input follows the selected block's program.
    #[verifier::opaque]
    pub open spec fn focused(&self, before: &App, id: CodeId) -> bool {
        *self == (App { screen: before.focused_screen(id), ..*before })
    }

    /// Lets input follow the selected block's program.
    pub fn focus_waiting(&mut self, id: CodeId)
        requires
            old(self).wf(),
        ensures
            final(self).wf(),
            final(self).focused(old(self), id),
            final(self).flow() == old(self).flow(),
    {
        proof {
            reveal(App::wf);
            reveal(App::focused_screen);
            reveal(App::focused);
        }
        self.sync_input_mode();
        if self.screen != Screen::Input && self.overlay.is_none() && !self.auto_input_paused
            && self.content.selected_code_id() == Some(id) && self.tasks.is_waiting_for_input(id) {
            self.screen = Screen::Input;
        }
    }

    /// A block that has ended shows its status in its gutter.
    #[verifier::opaque]
    pub open spec fn ended_marked(&self, id: CodeId, stream: Stream) -> App {
        if stream is Exit || stream is End {
            App {
                content: Content {
                    menu: self.content.menu,
                    preview: Preview {
                        prefer_status_gutter: Some(id),
                        ..self.content.preview
                    },
                },
                ..*self
            }
        } else {
            *self
        }
    }

    /// How the block ended.
    pub open spec fn exit_of(&self, id: CodeId) -> Option<i32> {
        match self.tasks.at(id) {
            Some(output) => output.task.exit_code,
            None => None,
        }
    }

    /// The images to decode were taken.
    #[verifier::opaque]
    pub open spec fn images_taken(&self, before: &App) -> bool {
        &&& *self == (App {
            content: Content {
                menu: before.content.menu,
                preview: Preview {
                    images: self.content.preview.images,
                    ..before.content.preview
                },
            },
            ..*before
        })
        &&& self.content.preview.images.pending@.len() == 0
        &&& self.content.preview.images.entries == before.content.preview.images.entries
        &&& self.content.preview.images.loading == before.content.preview.images.loading
        &&& self.content.preview.images.width == before.content.preview.images.width
    }

    /// Takes the images to decode.
    pub fn take_images(&mut self) -> (paths: Vec<String>)
        requires
            old(self).wf(),
        ensures
            final(self).wf(),
            paths@ == old(self).content.preview.images.pending@,
            final(self).images_taken(old(self)),
    {
        proof {
            reveal(App::wf);
        }
        let paths = self.content.preview.take_image_requests();
        assert(self.images_taken(old(self))) by {
            reveal(App::images_taken);
        }
        paths
    }

    /// Takes a message of a running block, and what its screen shows then; tells
    /// whether the document has to be rendered anew.
    pub fn take_stream(&mut self, id: CodeId, stream: &Stream, screen: Option<TaskOutput>) -> (rebuild:
        bool)
        requires
            old(self).wf(),
            stream matches Stream::Env(envs) ==> envs.wf(),
        ensures
            final(self).wf(),
            final(self).took_stream(old(self), id, *stream, screen),
            final(self).flow() == old(self).flow(),
            rebuild == (old(self).tasks.at(id) is Some && forces_rebuild(
                old(self).tasks.at(id)->0.task,
                *stream,
            )),
    {
        proof {
            reveal(App::wf);
        }
        let rebuild = self.tasks.handle_stream(id, stream);
        let ghost streamed = self.tasks;
        if let Some(screen) = screen {
            self.tasks.show(id, screen);
        }
        assert(self.took_stream(old(self), id, *stream, screen)) by {
            reveal(App::took_stream);
            assert(streamed.streamed(&old(self).tasks, id, *stream));
            assert(self.tasks.outputs@ =~= screen_shown(streamed.outputs@, id, screen));
        }
        rebuild
    }

    /// Fits a full-screen program below its block; returns its size.
    pub fn fit_program(&mut self, id: CodeId) -> (size: (u16, u16))
        requires
            old(self).wf(),
        ensures
            final(self).wf(),
            final(self).fitted_program(old(self), id, size),
            final(self).flow() == old(self).flow(),
    {
        proof {
            reveal(App::wf);
        }
        let (cols, rows) = self.inline_pty_size_for_code(id);
        let ghost tasks = self.tasks;
        self.tasks.resize_task(id, cols, rows);
        assert(self.fitted_program(old(self), id, (cols, rows))) by {
            reveal(App::fitted_program);
            assert((App { tasks: old(self).tasks, ..*self }).fitted(old(self), id));
        }
        (cols, rows)
    }

    /// Shows the end of a block in its gutter.
    pub fn mark_end(&mut self, id: CodeId, stream: &Stream)
        requires
            old(self).wf(),
        ensures
            final(self).wf(),
            *final(self) == old(self).ended_marked(id, *stream),
            final(self).flow() == old(self).flow(),
    {
        proof {
            reveal(App::wf);
            reveal(App::ended_marked);
        }
        match stream {
            Stream::Exit(_) => self.content.prefer_status_gutter_for(id),
            Stream::End => self.content.prefer_status_gutter_for(id),
            _ => {},
        }
    }
}

/// Rendering the document anew does not touch the flow.
pub proof fn lemma_rerendered_flow<W: Fn(&str, usize) -> Vec<(usize, usize)>>(
    after: App,
    before: App,
    wrap: W,
)
    requires
        after.rerendered(&before, wrap),
    ensures
        after.flow() == before.flow(),
{
    reveal(App::rerendered);
}

} // verus!
