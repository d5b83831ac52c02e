//! The menu and the preview of a document.

use std::collections::HashMap;

use vstd::prelude::*;

use crate::cli::output::lemma_has_first_place;
use crate::code::{block_ids, code_of, has_block, Code, CodeId};
use crate::config::{INLINE_MAX_LINES_MAX, INLINE_MAX_LINES_MIN};
use crate::task::TaskStatus;
use crate::text::strings_view;
use crate::theme::Theme;
use crate::theme_library::Painter;
use crate::tui::list_state::ListState;
use crate::tui::markdown::ast::Node;
use crate::tui::markdown::document::document_ok;
use crate::tui::markdown::known::lemma_known_at;
use crate::tui::markdown::line::{logical_views, LogicalView};
use crate::tui::menu::{self, toc_base_width, toc_clamp, Menu, MenuMode};
use crate::tui::preview::interact::{self, Mouse};
use crate::tui::preview::layout_lines::{is_wrap, RowTest};
use crate::tui::preview::pane::Preview;
use crate::tui::preview::rows::{extent_of, pty_rows};
use crate::tui::preview::search::{matching_rows, term_view};
use crate::tui::tasks::TaskOutput;

verus! {

/// The menu and the preview of a document.
pub struct Content {
    pub menu: Menu,
    pub preview: Preview,
}

/// What an event is for.
pub enum Action {
    Menu(menu::Action),
    Preview(interact::Action),
}

impl Content {
    /// The preview fits its document, and the menu lists the document's blocks.
    pub open spec fn wf(&self) -> bool {
        &&& self.preview.wf()
        &&& self.menu.items@ == block_ids(self.preview.codes@)
    }

    /// A block that is shown in the preview is an entry of the menu, and selecting it
    /// there selects that block.
    pub proof fn law_shown_blocks_are_listed(&self, id: CodeId)
        requires
            self.wf(),
            self.preview.selected_code() == Some(id),
        ensures
            self.menu.items@.contains(id),
            self.menu.mode == MenuMode::CodeBlocks ==> (Menu {
                state: self.menu.with_id(id),
                ..self.menu
            }).selected_id() == Some(id),
    {
        let row = self.preview.state.selected->0 as int;
        let line = self.preview.rows()[row].logical_idx as int;
        let views = logical_views(self.preview.logical_lines@);
        lemma_known_at(views, self.preview.codes@, line);
        assert(views[line] == self.preview.logical_lines@[line]@);
        let codes = self.preview.codes@;
        let k = choose|k: int| 0 <= k < codes.len() && (#[trigger] codes[k]).id == id;
        assert(block_ids(codes)[k] == id);
        assert(self.menu.items.len() == self.menu.items@.len());
        lemma_has_first_place(self.menu.items@, id, self.menu.items@.len() as int);
    }

    /// A document with its menu. `selected` is the block to start with.
    #[verifier::opaque]
    pub open spec fn opens<W: Fn(&str, usize) -> Vec<(usize, usize)>>(
        &self,
        source: Seq<char>,
        nodes: Vec<Node>,
        codes: Vec<Code>,
        headings: Vec<(u8, String)>,
        selected: Option<CodeId>,
        theme: Theme,
        painter: Painter,
        outputs: HashMap<CodeId, TaskOutput>,
        inline_max_lines: usize,
        image_base_dir: Seq<char>,
        wrap: W,
    ) -> bool {
        &&& self.menu.items@ == block_ids(codes@)
        &&& self.menu.toc_items == headings
        &&& self.menu.mode == MenuMode::CodeBlocks
        &&& self.menu.state == (match selected {
            Some(id) => (Menu {
                state: Menu::first_state(codes@.len() as int),
                ..self.menu
            }).with_id(id),
            None => Menu::first_state(codes@.len() as int),
        })
        &&& exists|opened: Preview|
            {
                &&& #[trigger] opened.opens(
                    source,
                    nodes,
                    codes,
                    theme,
                    painter,
                    outputs,
                    inline_max_lines,
                    image_base_dir,
                    wrap,
                )
                &&& self.preview == (match selected {
                    Some(id) => opened.showing(id),
                    None => opened,
                })
            }
    }

    /// A document with its menu. `selected` is the block to start with.
    pub fn new<W: Fn(&str, usize) -> Vec<(usize, usize)>>(
        source: String,
        nodes: Vec<Node>,
        codes: Vec<Code>,
        headings: Vec<(u8, String)>,
        selected: Option<CodeId>,
        theme: Theme,
        painter: Painter,
        outputs: &HashMap<CodeId, TaskOutput>,
        inline_max_lines: usize,
        image_base_dir: String,
        wrap: &W,
    ) -> (content: Content)
        requires
            is_wrap(*wrap),
            document_ok(nodes, codes@, source@),
        ensures
            content.wf(),
            content.preview.codes == codes,
            content.opens(
                source@,
                nodes,
                codes,
                headings,
                selected,
                theme,
                painter,
                *outputs,
                inline_max_lines,
                image_base_dir@,
                *wrap,
            ),
    {
        proof {
            reveal(Content::opens);
        }
        let mut menu = Menu::new(codes.as_slice(), headings);
        let mut preview = Preview::new(
            source,
            nodes,
            codes,
            theme,
            painter,
            outputs,
            inline_max_lines,
            image_base_dir,
            wrap,
        );
        let ghost opened = preview;
        assert(opened.opens(
            source@,
            nodes,
            codes,
            theme,
            painter,
            *outputs,
            inline_max_lines,
            image_base_dir@,
            *wrap,
        ));
        if let Some(id) = selected {
            menu.select_by_id(id);
            preview.select_code(id);
        }
        Content { menu, preview }
    }

    /// With a code block selected in both.
    pub open spec fn selects(&self, before: &Content, id: CodeId) -> bool {
        &&& self.menu.same_but_state(&before.menu)
        &&& self.menu.state == before.menu.with_id(id)
        &&& self.preview == before.preview.showing(id)
    }

    /// Selects a code block.
    pub fn select_code(&mut self, id: CodeId)
        requires
            old(self).wf(),
        ensures
            final(self).wf(),
            final(self).selects(old(self), id),
    {
        self.menu.select_by_id(id);
        self.preview.select_code(id);
    }

    /// Selects a code block without moving the viewport.
    pub fn select_code_in_place(&mut self, id: CodeId)
        requires
            old(self).wf(),
        ensures
            final(self).wf(),
            final(self).menu.same_but_state(&old(self).menu),
            final(self).menu.state == old(self).menu.with_id(id),
            final(self).preview == old(self).preview.marking(id),
    {
        self.menu.select_by_id(id);
        self.preview.select_code_in_place(id);
    }

    /// With a heading selected in both.
    pub open spec fn selects_heading(&self, before: &Content, index: int) -> bool {
        &&& self.menu.same_but_state(&before.menu)
        &&& self.menu.state == before.menu.with_heading(index)
        &&& self.preview == before.preview.showing_heading(index)
    }

    /// Selects a heading.
    pub fn select_heading(&mut self, index: usize)
        requires
            old(self).wf(),
        ensures
            final(self).wf(),
            final(self).selects_heading(old(self), index as int),
    {
        self.menu.select_by_heading_idx(index);
        self.preview.select_heading(index);
    }

    /// The preview shows what is selected in the menu.
    pub open spec fn synced(&self, before: &Content) -> bool {
        match before.menu.mode {
            MenuMode::CodeBlocks => match before.menu.selected_id() {
                Some(id) => self.selects(before, id),
                None => *self == *before,
            },
            MenuMode::Toc => match before.menu.state.selected {
                Some(index) => self.selects_heading(before, index as int),
                None => *self == *before,
            },
        }
    }

    /// Shows in the preview what is selected in the menu.
    pub fn sync_from_menu(&mut self)
        requires
            old(self).wf(),
        ensures
            final(self).wf(),
            final(self).synced(old(self)),
    {
        match self.menu.mode() {
            MenuMode::CodeBlocks => {
                if let Some(id) = self.menu.selected() {
                    self.select_code(id);
                }
            },
            MenuMode::Toc => {
                if let Some(index) = self.menu.selected_toc_idx() {
                    self.select_heading(index);
                }
            },
        }
    }

    /// The menu's selection follows the heading above the selected line.
    pub open spec fn follows_heading(&self, before: &Content) -> bool {
        &&& self.preview == before.preview
        &&& self.menu.same_but_state(&before.menu)
        &&& self.menu.state == (match before.preview.selected_line() {
            Some(line) => before.menu.with_heading(before.preview.headings_above(line as int)),
            None => before.menu.state,
        })
    }

    fn follow_heading(&mut self)
        requires
            old(self).wf(),
        ensures
            final(self).wf(),
            final(self).follows_heading(old(self)),
    {
        if let Some(line) = self.preview.selected_logical_line() {
            let index = self.preview.heading_count_at_line(line);
            self.menu.select_by_heading_idx(index);
        }
    }

    /// The menu in another mode, before its selection follows the preview.
    pub open spec fn in_mode(&self, mode: MenuMode) -> Content {
        Content {
            menu: Menu { mode, state: self.menu.state.selecting(Some(0)), ..self.menu },
            preview: self.preview,
        }
    }

    /// The menu was switched between code blocks and headings.
    pub open spec fn toggled(&self, before: &Content) -> bool {
        match before.menu.mode {
            MenuMode::CodeBlocks => self.follows_heading(
                &before.in_mode(MenuMode::Toc),
            ),
            MenuMode::Toc => {
                let listed = before.in_mode(MenuMode::CodeBlocks);
                &&& self.preview == before.preview
                &&& self.menu.same_but_state(&listed.menu)
                &&& self.menu.state == (match before.preview.selected_code() {
                    Some(id) => listed.menu.with_id(id),
                    None => listed.menu.state,
                })
            },
        }
    }

    /// Switches the menu between code blocks and headings. What is selected there
    /// is what the preview shows.
    pub fn toggle_toc(&mut self)
        requires
            old(self).wf(),
        ensures
            final(self).wf(),
            final(self).menu.mode != old(self).menu.mode,
            final(self).menu.mode == MenuMode::Toc ==> final(self).menu.selected_id() is None,
            old(self).menu.mode == MenuMode::Toc && old(self).preview.selected_code() is Some
                ==> final(self).menu.selected_id() == old(self).preview.selected_code(),
            final(self).toggled(old(self)),
    {
        let ghost before = *self;
        match self.menu.mode() {
            MenuMode::CodeBlocks => {
                self.menu.set_mode(MenuMode::Toc);
                assert(*self == before.in_mode(MenuMode::Toc));
                self.follow_heading();
            },
            MenuMode::Toc => {
                self.menu.set_mode(MenuMode::CodeBlocks);
                assert(*self == before.in_mode(MenuMode::CodeBlocks));
                if let Some(id) = self.preview.selected_code_id() {
                    proof {
                        self.law_shown_blocks_are_listed(id);
                    }
                    self.menu.select_by_id(id);
                }
            },
        }
    }

    /// Selects in the menu what is selected in the preview: its code block, none
    /// outside of code blocks, or the heading above.
    pub open spec fn follows(&self, before: &Content) -> bool {
        match before.menu.mode {
            MenuMode::CodeBlocks => {
                &&& self.preview == before.preview
                &&& self.menu.same_but_state(&before.menu)
                &&& self.menu.state == (match before.preview.selected_code() {
                    Some(id) => before.menu.with_id(id),
                    None => ListState { selected: None, offset: 0 },
                })
            },
            MenuMode::Toc => self.follows_heading(before),
        }
    }

    /// Selects in the menu what is selected in the preview.
    pub fn sync_from_preview(&mut self)
        requires
            old(self).wf(),
        ensures
            final(self).wf(),
            final(self).follows(old(self)),
    {
        match self.menu.mode() {
            MenuMode::CodeBlocks => {
                if let Some(id) = self.preview.selected_code_id() {
                    self.menu.select_by_id(id);
                } else {
                    self.menu.deselect();
                }
            },
            MenuMode::Toc => {
                self.follow_heading();
            },
        }
    }

    /// Selects a row that was found.
    pub fn select_search_match(&mut self, index: usize)
        requires
            old(self).wf(),
        ensures
            final(self).wf(),
            final(self).follows(
                &(Content {
                    preview: Preview {
                        state: crate::tui::preview::pane::at_row(
                            crate::num::smaller(
                                index as int,
                                crate::num::less_by(old(self).preview.rows().len() as int, 1),
                            ) as usize,
                        ),
                        ..old(self).preview
                    },
                    menu: old(self).menu,
                }),
            ),
    {
        self.preview.select_search_match(index);
        self.sync_from_preview();
    }

    /// Takes another theme.
    pub fn set_theme(&mut self, theme: Theme, painter: Painter)
        requires
            old(self).wf(),
        ensures
            final(self).wf(),
            final(self).menu == old(self).menu,
            final(self).preview == (Preview {
                theme,
                painter,
                logical_lines: final(self).preview.logical_lines,
                ..old(self).preview
            }),
            logical_views(final(self).preview.logical_lines@) == logical_views(
                old(self).preview.logical_lines@,
            ).map_values(|line: LogicalView| line.uncached()),
    {
        self.preview.set_theme(theme, painter);
    }

    /// The block that is selected in the menu.
    pub fn selected_code_id(&self) -> (id: Option<CodeId>)
        ensures
            id == self.menu.selected_id(),
    {
        self.menu.selected()
    }

    /// The block that is selected in the menu, or else in the preview.
    pub open spec fn focused(&self) -> Option<CodeId> {
        match self.menu.selected_id() {
            Some(id) => Some(id),
            None => self.preview.selected_code(),
        }
    }

    /// The block that is selected in the menu, or else in the preview.
    pub fn focused_code_id(&self) -> (id: Option<CodeId>)
        requires
            self.wf(),
        ensures
            id == self.focused(),
    {
        match self.menu.selected() {
            Some(id) => Some(id),
            None => self.preview.selected_code_id(),
        }
    }

    /// All code blocks in document order.
    pub fn codes(&self) -> (codes: &Vec<Code>)
        ensures
            *codes == self.preview.codes,
    {
        self.preview.codes()
    }

    /// A code block by its number.
    pub fn code_by_id(&self, id: CodeId) -> (code: Option<&Code>)
        ensures
            code is Some <==> has_block(self.preview.codes@, id),
            code matches Some(c) ==> *c == code_of(self.preview.codes@, id),
    {
        self.preview.code_by_id(id)
    }

    /// Takes over how the blocks stand.
    pub fn set_code_statuses(&mut self, statuses: HashMap<CodeId, TaskStatus>)
        ensures
            *final(self) == (Content {
                menu: Menu { code_statuses: statuses, ..old(self).menu },
                preview: old(self).preview,
            }),
    {
        self.menu.set_code_statuses(statuses);
    }

    /// Renders the document anew.
    pub fn rebuild<W: Fn(&str, usize) -> Vec<(usize, usize)>>(
        &mut self,
        outputs: &HashMap<CodeId, TaskOutput>,
        wrap: &W,
    )
        requires
            is_wrap(*wrap),
            old(self).wf(),
        ensures
            final(self).wf(),
            final(self).menu == old(self).menu,
            final(self).preview.rebuilt(
                &old(self).preview,
                *outputs,
                old(self).preview.layout_lines.last_width,
                *wrap,
            ),
    {
        self.preview.rebuild_view(outputs, wrap);
    }

    /// Prefers the status of a block in its gutter.
    pub fn prefer_status_gutter_for(&mut self, id: CodeId)
        ensures
            old(self).wf() ==> final(self).wf(),
            *final(self) == (Content {
                menu: old(self).menu,
                preview: Preview { prefer_status_gutter: Some(id), ..old(self).preview },
            }),
    {
        self.preview.prefer_status_gutter_for(id);
    }

    /// The width of the menu.
    pub fn width(&self, total_width: u16) -> (width: u16)
        ensures
            width == self.menu.width_in(total_width),
    {
        self.menu.width(total_width)
    }

    /// Whether the menu lists headings.
    pub fn is_toc(&self) -> (yes: bool)
        ensures
            yes == (self.menu.mode == MenuMode::Toc),
    {
        match self.menu.mode() {
            MenuMode::Toc => true,
            MenuMode::CodeBlocks => false,
        }
    }

    /// Makes the list of headings wider or narrower.
    pub fn adjust_toc_width(&mut self, delta: i16, total_width: u16)
        ensures
            old(self).wf() ==> final(self).wf(),
            *final(self) == (Content {
                menu: Menu {
                    toc_width_adjustment: (toc_clamp(
                        toc_base_width(total_width) + old(self).menu.toc_width_adjustment + delta,
                    ) - toc_base_width(total_width)) as i16,
                    ..old(self).menu
                },
                preview: old(self).preview,
            }),
    {
        self.menu.adjust_toc_width(delta, total_width);
    }

    /// The most lines of output that are shown below a code block.
    pub fn inline_max_lines(&self) -> (lines: usize)
        ensures
            lines == self.preview.inline_max_lines,
    {
        self.preview.inline_max_lines()
    }

    /// Takes over a share of the height for lines of output.
    pub fn set_inline_max_lines(&mut self, height: usize)
        requires
            old(self).wf(),
        ensures
            final(self).wf(),
            INLINE_MAX_LINES_MIN <= final(self).preview.inline_max_lines <= INLINE_MAX_LINES_MAX,
            *final(self) == (Content {
                menu: old(self).menu,
                preview: Preview {
                    inline_max_lines: old(self).preview.inline_limit(height as int) as usize,
                    ..old(self).preview
                },
            }),
    {
        self.preview.set_inline_max_lines(height);
    }

    /// The characters in front of a code block.
    pub fn code_prefix_overhead(&self, id: CodeId) -> (width: usize)
        ensures
            width == self.preview.overhead(id),
    {
        self.preview.code_prefix_overhead(id)
    }

    /// Reserves rows below a code block for a full-screen program, and scrolls as
    /// little as that takes.
    pub fn fit_inline_pty_rows(&mut self, id: CodeId, viewport: usize) -> (rows: Option<usize>)
        requires
            old(self).wf(),
        ensures
            final(self).wf(),
            final(self).menu == old(self).menu,
            match extent_of(
                old(self).preview.rows(),
                old(self).preview.logical_lines@,
                RowTest::CodeSource(id),
            ) {
                Some((start, end)) => {
                    let fit = pty_rows(
                        viewport as int,
                        end as int,
                        end - start + 1,
                        old(self).preview.state.offset as int,
                    );
                    &&& rows == Some(fit.0 as usize)
                    &&& final(self).preview == (Preview {
                        state: ListState { offset: fit.1 as usize, ..old(self).preview.state },
                        ..old(self).preview
                    })
                },
                None => rows is None && final(self).preview == old(self).preview,
            },
    {
        self.preview.fit_inline_pty_rows(id, viewport)
    }

    /// The code block under the mouse.
    pub fn code_id_at_mouse(&self, mouse: Mouse) -> (id: Option<CodeId>)
        requires
            self.wf(),
        ensures
            id == (match self.preview.rel_row(mouse.row) {
                Some(row) => if self.preview.last_area.holds(mouse.column, mouse.row) {
                    self.preview.code_at(self.preview.state.offset + row)
                } else {
                    None
                },
                None => None,
            }),
    {
        self.preview.code_id_at_mouse(mouse)
    }

    /// Where a click on a code block falls on the screen of its program.
    pub fn mouse_to_pty_coords(&self, id: CodeId, mouse: Mouse, pty_cols: u16, pty_rows: u16) -> (at:
        Option<(u16, u16)>)
        requires
            self.wf(),
        ensures
            match at {
                Some((col, row)) => self.preview.pty_coords(id, mouse, pty_cols, pty_rows) == Some(
                    (col as int, row as int),
                ),
                None => self.preview.pty_coords(id, mouse, pty_cols, pty_rows) is None,
            },
    {
        self.preview.mouse_to_pty_coords(id, mouse, pty_cols, pty_rows)
    }

    /// Moves in the menu.
    pub fn update_menu(&mut self, action: menu::Action)
        ensures
            old(self).wf() ==> final(self).wf(),
            final(self).preview == old(self).preview,
            final(self).menu.same_but_state(&old(self).menu),
            final(self).menu.state == (match action {
                menu::Action::Navigation(nav) => old(self).menu.navigated(nav),
                _ => old(self).menu.state,
            }),
    {
        self.menu.update(action);
    }

    /// Carries out an action of the preview; returns the text to put on the
    /// clipboard.
    pub fn update_preview(&mut self, action: interact::Action) -> (copy: Option<String>)
        requires
            old(self).wf(),
        ensures
            final(self).wf(),
            final(self).menu == old(self).menu,
            final(self).preview.after_action(&old(self).preview, action, copy),
    {
        self.preview.update(action)
    }

    /// Takes whether the last copy succeeded.
    pub fn take_copy_result(&mut self) -> (result: Option<bool>)
        ensures
            old(self).wf() ==> final(self).wf(),
            result == old(self).preview.copy_result,
            *final(self) == (Content {
                menu: old(self).menu,
                preview: Preview { copy_result: None, ..old(self).preview },
            }),
    {
        self.preview.take_copy_result()
    }

    /// Searches the document: the rows that show lines with the term.
    pub fn search(&mut self, term: &str) -> (rows: Vec<usize>)
        ensures
            old(self).wf() ==> final(self).wf(),
            term_view(final(self).preview.search.term) == (if term@.len() == 0 {
                None
            } else {
                Some(term@)
            }),
            final(self).preview.search.logical_texts == old(self).preview.search.logical_texts,
            *final(self) == (Content {
                menu: old(self).menu,
                preview: Preview { search: final(self).preview.search, ..old(self).preview },
            }),
            rows@ == matching_rows(
                strings_view(old(self).preview.search.logical_texts@),
                term_view(final(self).preview.search.term),
                old(self).preview.rows(),
            ),
    {
        self.preview.search(term)
    }
}

impl Content {
    /// Switching the menu keeps the place in the document: among the headings the one
    /// above it is selected, among the code blocks the one it is in.
    pub proof fn law_switching_keeps_the_place(before: Content, after: Content, line: usize)
        requires
            after.toggled(&before),
            before.wf(),
        ensures
            after.preview == before.preview,
            after.menu.mode != before.menu.mode,
            after.menu.items == before.menu.items,
            after.menu.toc_items == before.menu.toc_items,
            before.menu.mode == MenuMode::CodeBlocks && before.preview.selected_line() == Some(
                line,
            ) && before.preview.headings_above(line as int) < before.menu.toc_items@.len()
                ==> after.menu.state.selected == Some(
                before.preview.headings_above(line as int) as usize,
            ),
            before.menu.mode == MenuMode::Toc && before.preview.selected_code() is Some
                ==> after.menu.selected_id() == before.preview.selected_code(),
    {
        if before.menu.mode == MenuMode::Toc {
            if let Some(id) = before.preview.selected_code() {
                let listed = before.in_mode(MenuMode::CodeBlocks);
                listed.law_shown_blocks_are_listed(id);
            }
        }
    }

    /// The document goes to what is selected in the menu, and stays where nothing is.
    pub proof fn law_the_document_follows_the_menu(before: Content, after: Content, id: CodeId)
        requires
            after.synced(&before),
        ensures
            before.menu.selected_id() == Some(id) ==> after.preview == before.preview.showing(id),
            before.menu.mode == MenuMode::Toc && before.menu.state.selected is Some
                ==> after.preview == before.preview.showing_heading(
                before.menu.state.selected->0 as int,
            ),
            before.menu.state.selected is None ==> after.preview == before.preview,
            after.menu.mode == before.menu.mode,
            after.menu.items == before.menu.items,
    {
    }

    /// The menu follows the document: the block that the place is in is selected, none
    /// outside of blocks.
    pub proof fn law_the_menu_follows_the_document(before: Content, after: Content)
        requires
            before.wf(),
            after.follows(&before),
            before.menu.mode == MenuMode::CodeBlocks,
        ensures
            after.menu.selected_id() == before.preview.selected_code(),
            after.preview == before.preview,
    {
        if let Some(id) = before.preview.selected_code() {
            before.law_shown_blocks_are_listed(id);
        }
    }
}

} // verus!
