//! A new size of the terminal.

use vstd::prelude::*;

use super::flow::{App, Screen};
use crate::code::CodeId;
use crate::num::less_by;
use crate::rect::Rect;
use crate::config::OUTPUT_FOOTER_HEIGHT;
use crate::tui::preview::layout_lines::is_wrap;
use crate::tui::preview::pane::Preview;

verus! {

impl App {
    /// The regions are laid out for an area. What has not changed is kept.
    #[verifier::opaque]
    pub open spec fn laid_out(&self, before: &App, area: Rect) -> bool {
        &&& *self == (App { layout: self.layout, ..*before })
        &&& self.layout.laid(&before.layout, area, before.menu_room(area.width))
    }

    fn lay_out(&mut self, area: Rect)
        requires
            old(self).wf(),
        ensures
            final(self).wf(),
            final(self).laid_out(old(self), area),
    {
        proof {
            reveal(App::wf);
            reveal(App::laid_out);
        }
        let width = self.menu_width(area.width);
        self.layout.update(area, width);
    }

    /// The document is rendered anew for a height.
    #[verifier::opaque]
    pub open spec fn fits_height<W: Fn(&str, usize) -> Vec<(usize, usize)>>(
        &self,
        before: &App,
        rows: u16,
        wrap: W,
    ) -> bool {
        &&& *self == (App { content: self.content, ..*before })
        &&& self.content.menu == before.content.menu
        &&& self.content.preview.rebuilt(
            &(Preview {
                inline_max_lines: before.content.preview.inline_limit(rows as int) as usize,
                ..before.content.preview
            }),
            before.tasks.outputs,
            before.content.preview.layout_lines.last_width,
            wrap,
        )
    }

    fn fit_height<W: Fn(&str, usize) -> Vec<(usize, usize)>>(&mut self, rows: u16, wrap: &W)
        requires
            old(self).wf(),
            is_wrap(*wrap),
        ensures
            final(self).wf(),
            final(self).fits_height(old(self), rows, *wrap),
    {
        proof {
            reveal(App::wf);
            reveal(App::fits_height);
        }
        self.content.set_inline_max_lines(rows as usize);
        self.content.rebuild(self.tasks.buffers(), wrap);
    }

    /// The programs are fitted: every one to the screen where output takes it all,
    /// else that of the selected block to the document.
    #[verifier::opaque]
    pub open spec fn programs_fitted(&self, before: &App, resize: Resize) -> bool {
        if before.screen == Screen::Output {
            let cols = before.layout.last_area.width;
            let rows = less_by(
                before.layout.last_area.height as int,
                OUTPUT_FOOTER_HEIGHT as int,
            ) as u16;
            &&& *self == (App { tasks: self.tasks, ..*before })
            &&& self.tasks.all_resized(&before.tasks, cols, rows)
            &&& resize == Resize::All(cols, rows)
        } else {
            match before.selected() {
                Some(id) => {
                    let (cols, rows) = before.inline_size(id);
                    &&& (App { tasks: before.tasks, ..*self }).fitted(before, id)
                    &&& self.tasks.resized(&before.tasks, id, cols as u16, rows as u16)
                    &&& resize == (if before.tasks.at(id) is Some && (before.tasks.at(id)->0.rows
                        != rows || before.tasks.at(id)->0.cols != cols) {
                        Resize::One(id, cols as u16, rows as u16)
                    } else {
                        Resize::Nothing
                    })
                },
                None => *self == *before && resize == Resize::Nothing,
            }
        }
    }

    fn fit_programs(&mut self) -> (resize: Resize)
        requires
            old(self).wf(),
        ensures
            final(self).wf(),
            final(self).programs_fitted(old(self), resize),
    {
        proof {
            reveal(App::wf);
            reveal(App::programs_fitted);
        }
        if self.screen == Screen::Output {
            let (cols, rows) = self.layout.output_pty_size();
            self.tasks.resize(cols, rows);
            Resize::All(cols, rows)
        } else {
            match self.resize_tasks_for_preview() {
                Some((id, cols, rows)) => Resize::One(id, cols, rows),
                None => Resize::Nothing,
            }
        }
    }

    /// The state after the terminal took another size.
    pub open spec fn took_size<W: Fn(&str, usize) -> Vec<(usize, usize)>>(
        &self,
        before: &App,
        cols: u16,
        rows: u16,
        wrap: W,
        resize: Resize,
    ) -> bool {
        exists|laid: App, shown: App|
            {
                &&& #[trigger] laid.laid_out(
                    before,
                    (Rect { x: 0, y: 0, width: cols, height: rows }),
                )
                &&& #[trigger] shown.fits_height(&laid, rows, wrap)
                &&& self.programs_fitted(&shown, resize)
            }
    }

    /// Takes over another size of the terminal; returns the programs that have to
    /// be resized.
    pub fn handle_resize<W: Fn(&str, usize) -> Vec<(usize, usize)>>(
        &mut self,
        cols: u16,
        rows: u16,
        wrap: &W,
    ) -> (resize: Resize)
        requires
            old(self).wf(),
            is_wrap(*wrap),
        ensures
            final(self).wf(),
            final(self).took_size(old(self), cols, rows, *wrap, resize),
    {
        let ghost before = *self;
        let area = Rect { x: 0, y: 0, width: cols, height: rows };
        self.lay_out(area);
        let ghost laid = *self;
        assert(laid.laid_out(&before, (Rect { x: 0, y: 0, width: cols, height: rows })));
        self.fit_height(rows, wrap);
        let ghost shown = *self;
        assert(shown.fits_height(&laid, rows, *wrap));
        self.fit_programs()
    }
}

/// The programs that have to be resized, and to how many columns and rows.
#[derive(Clone, Copy, Debug, PartialEq, Eq, Structural)]
pub enum Resize {
    Nothing,
    One(CodeId, u16, u16),
    All(u16, u16),
}

} // verus!
