//! Opening a document, themes, and images in view.

use std::collections::HashMap;

use vstd::prelude::*;

use crate::code::{Code, CodeId};
use crate::config::{
    INLINE_MAX_LINES_DEFAULT, OVERDRAW_FRACTION, PTY_DEFAULT_COLS,
};
use crate::num::{less_by, smaller};
use crate::rect::Rect;
use crate::text::strings_view;
use crate::theme::Theme;
use crate::theme_library::Painter;
use crate::tui::list_state::ListState;
use crate::tui::markdown::ast::Node;
use crate::tui::markdown::document::document_ok;
use crate::tui::markdown::known::{lemma_known_by_blocks, lemma_nothing_unknown};
use crate::tui::markdown::line::{lines_wf, logical_views, LogicalLine, LogicalView, RenderMode};
use crate::tui::preview::images::{has_scheme, joined_path, state_of, ImageCache, ImageEntry};
use crate::tui::preview::layout_lines::{is_wrap, LayoutLine, LayoutLines};
use crate::tui::preview::pane::Preview;
use crate::tui::preview::search::{lemma_same_texts, lower_texts, PreviewSearch};
use crate::tui::preview::selection::PreviewSelection;
use crate::tui::selection::SelectionView;
use crate::tui::tasks::TaskOutput;

verus! {

/// The images that are being decoded, and those to start decoding.
pub struct Requests {
    pub loading: Seq<Seq<char>>,
    pub pending: Seq<Seq<char>>,
}

/// The requests of a cache.
pub open spec fn requests_of(images: ImageCache) -> Requests {
    Requests {
        loading: strings_view(images.loading@),
        pending: strings_view(images.pending@),
    }
}

/// The requests after an image was asked for.
pub open spec fn asked(requests: Requests, entries: Seq<ImageEntry>, src: Seq<char>, base: Seq<char>) -> Requests {
    let path = joined_path(base, src);
    if has_scheme(src) || state_of(entries, path) is Some || requests.loading.contains(path) {
        requests
    } else {
        Requests { loading: requests.loading.push(path), pending: requests.pending.push(path) }
    }
}

/// The requests after the images that start in some rows were asked for.
pub open spec fn asked_for_rows(
    requests: Requests,
    entries: Seq<ImageEntry>,
    base: Seq<char>,
    lines: Seq<LogicalLine>,
    rows: Seq<LayoutLine>,
) -> Requests
    decreases rows.len(),
{
    if rows.len() == 0 {
        requests
    } else {
        let before = asked_for_rows(requests, entries, base, lines, rows.drop_last());
        let row = rows.last();
        let line = lines[row.logical_idx as int]@;
        if row.wrap_idx == 0 && line.source is Image {
            asked(before, entries, line.source->src, base)
        } else {
            before
        }
    }
}

impl Preview {
    /// A document that was not rendered yet.
    pub open spec fn is_blank(
        &self,
        source: Seq<char>,
        nodes: Vec<Node>,
        codes: Vec<Code>,
        theme: Theme,
        painter: Painter,
        cap: usize,
        base_dir: Seq<char>,
    ) -> bool {
        &&& self.source@ == source
        &&& self.nodes == nodes
        &&& self.codes == codes
        &&& self.theme == theme
        &&& self.painter == painter
        &&& self.inline_max_lines_cap == cap
        &&& self.image_base_dir@ == base_dir
        &&& self.logical_lines@.len() == 0
        &&& self.layout_lines.lines@.len() == 0
        &&& self.layout_lines.last_width == PTY_DEFAULT_COLS
        &&& self.layout_lines.last_height == 0
        &&& self.state == (ListState { selected: None, offset: 0 })
        &&& self.search.term is None
        &&& self.inline_max_lines == INLINE_MAX_LINES_DEFAULT
        &&& self.last_area == (Rect { x: 0, y: 0, width: 0, height: 0 })
        &&& self.selection.state@ == SelectionView::nothing()
        &&& self.selection.pending_code_click is None
        &&& self.target_block is None
        &&& self.prefer_status_gutter is None
        &&& self.copy_result is None
        &&& self.images.entries@.len() == 0
        &&& self.images.loading@.len() == 0
        &&& self.images.pending@.len() == 0
        &&& self.mode == RenderMode::Visual
    }

    /// A document that was rendered and laid out, with its first row selected.
    pub open spec fn opens<W: Fn(&str, usize) -> Vec<(usize, usize)>>(
        &self,
        source: Seq<char>,
        nodes: Vec<Node>,
        codes: Vec<Code>,
        theme: Theme,
        painter: Painter,
        outputs: HashMap<CodeId, TaskOutput>,
        cap: usize,
        base_dir: Seq<char>,
        wrap: W,
    ) -> bool {
        exists|blank: Preview, laid: Preview|
            {
                &&& #[trigger] blank.is_blank(
                    source,
                    nodes,
                    codes,
                    theme,
                    painter,
                    cap,
                    base_dir,
                )
                &&& #[trigger] laid.rebuilt(&blank, outputs, PTY_DEFAULT_COLS as usize, wrap)
                &&& *self == (Preview {
                    state: if laid.rows().len() > 0 {
                        laid.state.selecting(Some(0))
                    } else {
                        laid.state
                    },
                    ..laid
                })
            }
    }

    /// Opens a document, with its first row selected.
    pub fn new<W: Fn(&str, usize) -> Vec<(usize, usize)>>(
        source: String,
        nodes: Vec<Node>,
        codes: Vec<Code>,
        theme: Theme,
        painter: Painter,
        outputs: &HashMap<CodeId, TaskOutput>,
        inline_max_lines_cap: usize,
        image_base_dir: String,
        wrap: &W,
    ) -> (preview: Preview)
        requires
            is_wrap(*wrap),
            document_ok(nodes, codes@, source@),
        ensures
            preview.wf(),
            preview.opens(
                source@,
                nodes,
                codes,
                theme,
                painter,
                *outputs,
                inline_max_lines_cap,
                image_base_dir@,
                *wrap,
            ),
    {
        let mut preview = Preview {
            source,
            nodes,
            codes,
            logical_lines: Vec::new(),
            layout_lines: LayoutLines::new(),
            state: ListState::default(),
            theme,
            painter,
            search: PreviewSearch::new(),
            inline_max_lines_cap,
            inline_max_lines: INLINE_MAX_LINES_DEFAULT,
            last_area: Rect::default(),
            selection: PreviewSelection::new(),
            target_block: None,
            prefer_status_gutter: None,
            copy_result: None,
            code_prefix_overhead: HashMap::new(),
            images: ImageCache::new(),
            image_base_dir,
            mode: RenderMode::Visual,
        };
        let ghost blank = preview;
        proof {
            lemma_nothing_unknown(preview.codes@);
            assert(logical_views(preview.logical_lines@) =~= Seq::empty());
            reveal(lower_texts);
            assert(strings_view(preview.search.logical_texts@) =~= lower_texts(
                logical_views(preview.logical_lines@),
            ));
        }
        preview.rebuild_view(outputs, wrap);
        let ghost laid = preview;
        assert(blank.is_blank(
            source@,
            nodes,
            codes,
            theme,
            painter,
            inline_max_lines_cap,
            image_base_dir@,
        ));
        if !preview.layout_lines.is_empty() {
            preview.state.select(Some(0));
        }
        assert(laid.rebuilt(&blank, *outputs, PTY_DEFAULT_COLS as usize, *wrap));
        assert(preview == (Preview {
            state: if laid.rows().len() > 0 {
                laid.state.selecting(Some(0))
            } else {
                laid.state
            },
            ..laid
        }));
        preview
    }

    /// Takes another theme. What was rendered is forgotten.
    pub fn set_theme(&mut self, theme: Theme, painter: Painter)
        requires
            old(self).wf(),
        ensures
            final(self).wf(),
            *final(self) == (Preview {
                theme,
                painter,
                logical_lines: final(self).logical_lines,
                ..*old(self)
            }),
            logical_views(final(self).logical_lines@) == logical_views(
                old(self).logical_lines@,
            ).map_values(|line: LogicalView| line.uncached()),
    {
        self.theme = theme;
        self.painter = painter;
        let n: usize = self.logical_lines.len();
        let ghost before = self.logical_lines@;
        let mut i: usize = 0;
        while i < n
            invariant
                i <= n,
                n == before.len(),
                n == self.logical_lines@.len(),
                before == old(self).logical_lines@,
                lines_wf(self.logical_lines@),
                forall|k: int|
                    0 <= k < i ==> (#[trigger] self.logical_lines@[k])@ == before[k]@.uncached(),
                forall|k: int| i <= k < n ==> self.logical_lines@[k] == before[k],
                *self == (Preview {
                    theme,
                    painter,
                    logical_lines: self.logical_lines,
                    ..*old(self)
                }),
            decreases n - i,
        {
            let ghost now = self.logical_lines@;
            let line = &mut self.logical_lines[i];
            line.clear_cache();
            proof {
                assert forall|k: int| 0 <= k < n implies (
                #[trigger] self.logical_lines@[k]).source.wf() by {
                    if k != i {
                        assert(self.logical_lines@[k] == now[k]);
                    }
                }
                assert forall|k: int| 0 <= k < i + 1 implies (#[trigger] self.logical_lines@[k])@
                    == before[k]@.uncached() by {
                    if k != i {
                        assert(self.logical_lines@[k] == now[k]);
                    }
                }
            }
            i += 1;
        }
        assert(logical_views(self.logical_lines@) =~= logical_views(before).map_values(
            |line: LogicalView| line.uncached(),
        ));
        proof {
            lemma_known_by_blocks(
                logical_views(self.logical_lines@),
                logical_views(before),
                self.codes@,
            );
            lemma_same_texts(logical_views(self.logical_lines@), logical_views(before));
        }
    }

    /// The first and the end of the rows around the viewport.
    pub open spec fn nearby(&self) -> (int, int) {
        let viewport = self.layout_lines.last_height as int;
        let margin = viewport / OVERDRAW_FRACTION as int;
        let offset = self.state.offset as int;
        (
            less_by(offset, margin),
            smaller(offset + viewport + margin, self.rows().len() as int),
        )
    }

    /// Asks for the images in and around the viewport.
    pub fn request_visible_images(&mut self)
        requires
            old(self).wf(),
        ensures
            final(self).wf(),
            *final(self) == (Preview { images: final(self).images, ..*old(self) }),
            final(self).images.entries == old(self).images.entries,
            final(self).images.width == old(self).images.width,
            requests_of(final(self).images) == asked_for_rows(
                requests_of(old(self).images),
                old(self).images.entries@,
                old(self).image_base_dir@,
                old(self).logical_lines@,
                old(self).rows().subrange(old(self).nearby().0, old(self).nearby().1),
            ),
    {
        let viewport: usize = self.layout_lines.last_height;
        let margin: usize = viewport / OVERDRAW_FRACTION;
        let offset: usize = self.state.offset;
        let start: usize = offset.saturating_sub(margin);
        let end: usize = offset.saturating_add(viewport).saturating_add(margin).min(
            self.layout_lines.len(),
        );
        let ghost window = self.rows().subrange(start as int, end as int);
        let mut i: usize = start;
        assert(window.take(0) =~= Seq::empty());
        while i < end
            invariant
                start <= i <= end <= self.rows().len(),
                *self == (Preview { images: self.images, ..*old(self) }),
                old(self).wf(),
                self.images.entries == old(self).images.entries,
                self.images.width == old(self).images.width,
                window == old(self).rows().subrange(start as int, end as int),
                requests_of(self.images) == asked_for_rows(
                    requests_of(old(self).images),
                    old(self).images.entries@,
                    old(self).image_base_dir@,
                    old(self).logical_lines@,
                    window.take(i - start),
                ),
            decreases end - i,
        {
            let row = self.layout_lines.lines[i];
            proof {
                assert(window.take(i - start + 1).drop_last() =~= window.take(i - start));
                assert(window.take(i - start + 1).last() == row);
            }
            if row.wrap_idx == 0 {
                let line = &self.logical_lines[row.logical_idx];
                if let Some(src) = line.image_src() {
                    self.images.request(src, self.image_base_dir.as_str());
                }
            }
            i += 1;
        }
        assert(window.take(i - start) =~= window);
    }

    /// Takes the images to start decoding.
    pub fn take_image_requests(&mut self) -> (paths: Vec<String>)
        ensures
            paths@ == old(self).images.pending@,
            *final(self) == (Preview { images: final(self).images, ..*old(self) }),
            final(self).images.pending@.len() == 0,
            final(self).images.entries == old(self).images.entries,
            final(self).images.loading == old(self).images.loading,
            final(self).images.width == old(self).images.width,
    {
        self.images.take_requests()
    }
}

} // verus!
