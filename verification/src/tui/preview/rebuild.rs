//! New lines for a document, with what was rendered before.

use std::collections::HashMap;

use vstd::prelude::*;

use crate::code::{Code, CodeId};
use crate::config::PREVIEW_FRAME_OVERHEAD;
use crate::num::{larger, less_by};
use crate::style::Line;
use crate::text::{same_text, strings_view};
use crate::tui::markdown::inline::same_spans;
use crate::tui::markdown::known::{lemma_known_by_blocks, lines_known};
use crate::tui::markdown::line::{
    lines_wf, logical_views, LazyText, LogicalLine, LogicalLineSource, LogicalView, TextView,
};
use crate::tui::markdown::render::MarkdownRenderer;
use crate::tui::preview::layout_lines::is_wrap;
use crate::tui::preview::pane::Preview;
use crate::tui::preview::images::{refitted, DecodedImage, ImageState};
use crate::tui::preview::relayout::{anchor_of, find_anchor};
use crate::tui::preview::search::lower_texts;
use crate::tui::tasks::TaskOutput;

verus! {

/// Two texts that are rendered in the same way.
pub open spec fn same_lazy(a: TextView, b: TextView) -> bool {
    a.text == b.text && a.language == b.language && a.spans == b.spans
}

/// A line as it was rendered from the document, but for what its text was
/// rendered to, which may come from a line before with the same text.
pub open spec fn kept_from(line: LogicalView, fresh: LogicalView, before: Seq<LogicalView>) -> bool {
    &&& line.uncached() == fresh.uncached()
    &&& line.source.lazy() is Some && line.source.lazy()->0.cached is Some ==> exists|j: int|
        0 <= j < before.len() && (#[trigger] before[j]).source.lazy() is Some && same_lazy(
            line.source.lazy()->0,
            before[j].source.lazy()->0,
        ) && line.source.lazy()->0.cached == before[j].source.lazy()->0.cached
}

/// Lines as they were rendered from the document, with what was rendered before.
pub open spec fn all_kept(
    lines: Seq<LogicalView>,
    fresh: Seq<LogicalView>,
    before: Seq<LogicalView>,
) -> bool {
    lines.len() == fresh.len() && forall|i: int|
        0 <= i < lines.len() ==> kept_from(#[trigger] lines[i], fresh[i], before)
}

proof fn lemma_kept_is_known(
    lines: Seq<LogicalView>,
    fresh: Seq<LogicalView>,
    before: Seq<LogicalView>,
    codes: Seq<Code>,
)
    requires
        all_kept(lines, fresh, before),
        lines_known(fresh, codes),
    ensures
        lines_known(lines, codes),
{
    assert forall|i: int| 0 <= i < lines.len() implies (#[trigger] lines[i]).code_id
        == fresh[i].code_id by {
        assert(kept_from(lines[i], fresh[i], before));
        assert(lines[i].uncached().code_id == lines[i].code_id);
        assert(fresh[i].uncached().code_id == fresh[i].code_id);
    }
    lemma_known_by_blocks(lines, fresh, codes);
}

fn take_cache(line: &mut LogicalLine) -> (cache: Option<Vec<Line>>)
    requires
        old(line).source.wf(),
        old(line)@.source.lazy() is Some,
    ensures
        final(line).source.wf(),
        final(line)@ == old(line)@.uncached(),
        match cache {
            Some(lines) => old(line)@.source.lazy()->0.cached == Some(
                crate::style::line_views(lines@),
            ),
            None => old(line)@.source.lazy()->0.cached is None,
        },
{
    match &mut line.source {
        LogicalLineSource::Text(text) => text.cached.take(),
        LogicalLineSource::ListItem(text) => text.cached.take(),
        LogicalLineSource::CodeBody(text) => text.cached.take(),
        LogicalLineSource::Heading { text, .. } => text.cached.take(),
        _ => None,
    }
}

fn put_cache(line: &mut LogicalLine, cache: Option<Vec<Line>>)
    requires
        old(line).source.wf(),
        old(line)@.source.lazy() is Some,
        cache matches Some(lines) ==> old(line)@.source.lazy()->0.renders_to(
            crate::style::line_views(lines@),
        ),
    ensures
        final(line).source.wf(),
        final(line)@ == (LogicalView {
            source: old(line)@.source.with_lazy(
                TextView {
                    cached: match cache {
                        Some(lines) => Some(crate::style::line_views(lines@)),
                        None => None,
                    },
                    ..old(line)@.source.lazy()->0
                },
            ),
            ..old(line)@
        }),
{
    match &mut line.source {
        LogicalLineSource::Text(text) => {
            text.cached = cache;
        },
        LogicalLineSource::ListItem(text) => {
            text.cached = cache;
        },
        LogicalLineSource::CodeBody(text) => {
            text.cached = cache;
        },
        LogicalLineSource::Heading { text, .. } => {
            text.cached = cache;
        },
        _ => {},
    }
}

fn is_same_lazy(a: &LazyText, b: &LazyText) -> (same: bool)
    ensures
        same == same_lazy(a@, b@),
{
    same_text(a.text.as_str(), b.text.as_str()) && same_text(
        a.language.as_str(),
        b.language.as_str(),
    ) && same_spans(&a.spans, &b.spans)
}

/// Takes over what the texts of lines were rendered to, line by line: from the
/// next line before with the same text.
pub fn reuse_rendered(lines: &mut Vec<LogicalLine>, before: &mut Vec<LogicalLine>)
    requires
        lines_wf(old(lines)@),
        lines_wf(old(before)@),
    ensures
        lines_wf(final(lines)@),
        all_kept(
            logical_views(final(lines)@),
            logical_views(old(lines)@),
            logical_views(old(before)@),
        ),
        forall|i: int|
            0 <= i < final(lines)@.len() ==> (#[trigger] final(lines)@[i]).code_id == old(
                lines,
            )@[i].code_id,
{
    let ghost fresh = logical_views(lines@);
    let ghost first = logical_views(before@);
    let mut i: usize = 0;
    let mut j: usize = 0;
    while i < lines.len()
        invariant
            i <= lines@.len(),
            lines@.len() == old(lines)@.len(),
            lines_wf(lines@),
            fresh == logical_views(old(lines)@),
            forall|k: int| 0 <= k < i ==> (#[trigger] lines@[k])@ == fresh[k].uncached(),
            forall|k: int| i <= k < lines@.len() ==> lines@[k] == old(lines)@[k],
            forall|k: int|
                0 <= k < lines@.len() ==> (#[trigger] lines@[k]).code_id == old(lines)@[k].code_id,
        decreases lines@.len() - i,
    {
        let ghost now = lines@;
        assert(fresh[i as int] == lines@[i as int]@);
        let line = &mut lines[i];
        line.clear_cache();
        proof {
            assert forall|k: int| 0 <= k < lines@.len() implies (#[trigger] lines@[k]).source.wf() by {
                if k != i {
                    assert(lines@[k] == now[k]);
                }
            }
            assert forall|k: int| 0 <= k < i + 1 implies (#[trigger] lines@[k])@
                == fresh[k].uncached() by {
                if k != i {
                    assert(lines@[k] == now[k]);
                }
            }
            assert(lines@[i as int]@.code_id == fresh[i as int].code_id);
        }
        i += 1;
    }
    i = 0;
    proof {
        assert forall|k: int| 0 <= k < lines@.len() implies kept_from(
            #[trigger] logical_views(lines@)[k],
            fresh[k],
            first,
        ) by {
            assert(lines@[k]@ == fresh[k].uncached());
        }
    }
    while i < lines.len()
        invariant
            i <= lines@.len(),
            j <= before@.len(),
            lines@.len() == old(lines)@.len(),
            before@.len() == old(before)@.len(),
            lines_wf(lines@),
            lines_wf(before@),
            fresh == logical_views(old(lines)@),
            first == logical_views(old(before)@),
            all_kept(logical_views(lines@), fresh, first),
            forall|k: int| i <= k < lines@.len() ==> (#[trigger] lines@[k])@ == fresh[k].uncached(),
            forall|k: int| j <= k < before@.len() ==> (#[trigger] before@[k])@ == first[k],
            forall|k: int|
                0 <= k < lines@.len() ==> (#[trigger] lines@[k]).code_id == old(lines)@[k].code_id,
        decreases lines@.len() - i,
    {
        if lines[i].source.lazy_text().is_some() {
            let mut found = false;
            while j < before.len() && !found
                invariant
                    i < lines@.len(),
                    j <= before@.len(),
                    lines@.len() == old(lines)@.len(),
                    before@.len() == old(before)@.len(),
                    lines_wf(lines@),
                    lines_wf(before@),
                    fresh == logical_views(old(lines)@),
                    first == logical_views(old(before)@),
                    all_kept(logical_views(lines@), fresh, first),
                    forall|k: int| i < k < lines@.len() ==> (#[trigger] lines@[k])@ == fresh[k].uncached(),
                    !found ==> lines@[i as int]@ == fresh[i as int].uncached(),
                    !found ==> lines@[i as int]@.source.lazy() is Some,
                    forall|k: int| j <= k < before@.len() ==> (#[trigger] before@[k])@ == first[k],
                    forall|k: int|
                        0 <= k < lines@.len() ==> (#[trigger] lines@[k]).code_id == old(
                            lines,
                        )@[k].code_id,
                decreases before@.len() - j,
            {
                let same = match (lines[i].source.lazy_text(), before[j].source.lazy_text()) {
                    (Some(a), Some(b)) => is_same_lazy(a, b),
                    _ => false,
                };
                if same {
                    let ghost old_lines = lines@;
                    let ghost old_before = before@;
                    let ghost text = lines@[i as int]@.source.lazy()->0;
                    let ghost other = before@[j as int]@.source.lazy()->0;
                    let before_line = &mut before[j];
                    let cache = take_cache(before_line);
                    assert(cache matches Some(c) ==> text.renders_to(
                        crate::style::line_views(c@),
                    ));
                    let line = &mut lines[i];
                    put_cache(line, cache);
                    proof {
                        assert forall|k: int| 0 <= k < lines@.len() implies kept_from(
                            #[trigger] logical_views(lines@)[k],
                            fresh[k],
                            first,
                        ) by {
                            if k == i {
                                let now = lines@[k]@;
                                assert(now.source.lazy()->0.text == text.text);
                                assert(now.uncached() == fresh[k].uncached());
                                assert(first[j as int].source.lazy()->0 == other);
                                assert(same_lazy(
                                    now.source.lazy()->0,
                                    first[j as int].source.lazy()->0,
                                ));
                            } else {
                                assert(lines@[k] == old_lines[k]);
                                assert(logical_views(old_lines)[k] == old_lines[k]@);
                            }
                        }
                        assert forall|k: int| 0 <= k < lines@.len() implies (
                        #[trigger] lines@[k]).source.wf() by {
                            if k != i {
                                assert(lines@[k] == old_lines[k]);
                            }
                        }
                        assert forall|k: int| 0 <= k < before@.len() implies (
                        #[trigger] before@[k]).source.wf() by {
                            if k != j {
                                assert(before@[k] == old_before[k]);
                            }
                        }
                    }
                    found = true;
                }
                j += 1;
            }
        }
        i += 1;
    }
}

impl Preview {
    /// How the document is rendered at a width.
    pub open spec fn is_renderer(
        &self,
        renderer: MarkdownRenderer<'_>,
        outputs: HashMap<CodeId, TaskOutput>,
        width: usize,
    ) -> bool {
        &&& *renderer.theme == self.theme
        &&& *renderer.painter == self.painter
        &&& renderer.source@ == self.source@
        &&& *renderer.outputs == outputs
        &&& renderer.codes@ == self.codes@
        &&& renderer.inline_max_lines == self.inline_max_lines
        &&& renderer.viewport_width == width
        &&& renderer.mode == self.mode
    }

    /// The document was rendered and laid out anew at a width: the lines are those
    /// of the document, with what was rendered before, they are the ones that are
    /// searched, and the selected row keeps its place.
    pub open spec fn rebuilt<W: Fn(&str, usize) -> Vec<(usize, usize)>>(
        &self,
        before: &Preview,
        outputs: HashMap<CodeId, TaskOutput>,
        width: usize,
        wrap: W,
    ) -> bool {
        let mid = Preview {
            logical_lines: self.logical_lines,
            code_prefix_overhead: self.code_prefix_overhead,
            search: self.search,
            ..*before
        };
        &&& exists|renderer: MarkdownRenderer<'_>| #[trigger]
            before.is_renderer(renderer, outputs, width) && all_kept(
                logical_views(self.logical_lines@),
                renderer.rendered(before.nodes).lines,
                logical_views(before.logical_lines@),
            ) && self.code_prefix_overhead@ == renderer.rendered(before.nodes).overhead
        &&& strings_view(self.search.logical_texts@) == lower_texts(
            logical_views(self.logical_lines@),
        )
        &&& self.search.term == before.search.term
        &&& self.relaid(
            &mid,
            anchor_of(before.rows(), before.logical_lines@, before.state),
            wrap,
            width,
        )
    }

    /// Renders the document anew at a width.
    fn rebuild_view_at_width<W: Fn(&str, usize) -> Vec<(usize, usize)>>(
        &mut self,
        outputs: &HashMap<CodeId, TaskOutput>,
        width: usize,
        wrap: &W,
    )
        requires
            is_wrap(*wrap),
            old(self).wf(),
            width > 0,
        ensures
            final(self).wf(),
            final(self).rebuilt(old(self), *outputs, width, *wrap),
    {
        let anchor = find_anchor(&self.layout_lines.lines, &self.logical_lines, self.state);
        let rendered = {
            let renderer = MarkdownRenderer::new(
                self.source.as_str(),
                &self.theme,
                &self.painter,
                outputs,
                self.codes.as_slice(),
                self.inline_max_lines,
                width,
            ).mode(self.mode);
            assert(self.is_renderer(renderer, *outputs, width));
            let rendered = renderer.render(&self.nodes);
            proof {
                renderer.law_lines_belong_to_known_blocks(self.nodes);
            }
            rendered
        };
        let ghost fresh = logical_views(rendered.lines@);
        assert(lines_known(fresh, self.codes@));
        let mut lines = rendered.lines;
        let mut before: Vec<LogicalLine> = Vec::new();
        before.append(&mut self.logical_lines);
        assert(before@ =~= old(self).logical_lines@);
        reuse_rendered(&mut lines, &mut before);
        assert(lines_known(logical_views(lines@), self.codes@)) by {
            lemma_kept_is_known(
                logical_views(lines@),
                fresh,
                logical_views(old(self).logical_lines@),
                self.codes@,
            );
        }
        self.logical_lines = lines;
        self.code_prefix_overhead = rendered.code_prefix_overhead;
        self.search.rebuild_texts(&self.logical_lines);
        self.rebuild_layout_lines_from(width, anchor, wrap);
    }

    /// Renders the document anew, as its blocks' output, the theme or the mode
    /// changed.
    pub fn rebuild_view<W: Fn(&str, usize) -> Vec<(usize, usize)>>(
        &mut self,
        outputs: &HashMap<CodeId, TaskOutput>,
        wrap: &W,
    )
        requires
            is_wrap(*wrap),
            old(self).wf(),
        ensures
            final(self).wf(),
            final(self).rebuilt(old(self), *outputs, old(self).layout_lines.last_width, *wrap),
    {
        let width: usize = self.layout_lines.last_width;
        self.rebuild_view_at_width(outputs, width, wrap);
    }

    /// The width of images in a preview.
    pub fn image_width(preview_width: usize) -> (width: usize)
        ensures
            width == larger(less_by(preview_width as int, PREVIEW_FRAME_OVERHEAD as int), 1),
    {
        preview_width.saturating_sub(PREVIEW_FRAME_OVERHEAD).max(1)
    }

    /// The preview after its size changed, before anything is laid out.
    pub open spec fn resized(&self, before: &Preview, width: usize, height: usize, fits: Seq<
        Option<u16>,
    >) -> bool {
        let fitted = larger(less_by(width as int, PREVIEW_FRAME_OVERHEAD as int), 1) as usize;
        &&& self.images.width == fitted
        &&& self.images.loading == before.images.loading
        &&& self.images.pending == before.images.pending
        &&& self.images.entries@.len() == before.images.entries@.len()
        &&& forall|i: int|
            0 <= i < before.images.entries@.len() ==> (#[trigger] self.images.entries@[i]).path
                == before.images.entries@[i].path && self.images.entries@[i].state == (if fitted
                == before.images.width {
                before.images.entries@[i].state
            } else {
                refitted(before.images.entries@[i].state, fits[i], fitted)
            })
        &&& *self == (Preview {
            images: self.images,
            inline_max_lines: before.inline_limit(height as int) as usize,
            ..*before
        })
    }

    /// Takes a new size. The document is rendered anew only where another number
    /// of output lines fits; else it is laid out anew. `fits` tells how many rows
    /// each image takes at the new width.
    pub fn resize<W: Fn(&str, usize) -> Vec<(usize, usize)>>(
        &mut self,
        outputs: &HashMap<CodeId, TaskOutput>,
        width: usize,
        height: usize,
        fits: &Vec<Option<u16>>,
        wrap: &W,
    )
        requires
            is_wrap(*wrap),
            old(self).wf(),
            width > 0,
            fits@.len() == old(self).images.entries@.len(),
        ensures
            final(self).wf(),
            exists|mid: Preview| #[trigger]
                mid.resized(old(self), width, height, fits@) && if old(self).inline_max_lines
                    != mid.inline_max_lines {
                    final(self).rebuilt(&mid, *outputs, width, *wrap)
                } else {
                    final(self).relaid(
                        &mid,
                        anchor_of(mid.rows(), mid.logical_lines@, mid.state),
                        *wrap,
                        width,
                    )
                },
    {
        let changed = self.set_inline_max_lines(height);
        self.images.set_width(Preview::image_width(width), fits);
        let ghost mid = *self;
        assert(mid.resized(old(self), width, height, fits@));
        if changed {
            self.rebuild_view_at_width(outputs, width, wrap);
        } else {
            self.rebuild_layout_lines(width, wrap);
        }
    }

    /// Takes a decoded image, and lays the document out anew where that changes
    /// rows.
    pub fn complete_image<W: Fn(&str, usize) -> Vec<(usize, usize)>>(
        &mut self,
        decoded: &DecodedImage,
        wrap: &W,
    )
        requires
            is_wrap(*wrap),
            old(self).wf(),
        ensures
            final(self).wf(),
            exists|mid: Preview|
                {
                    &&& #[trigger] mid.took_image(old(self), *decoded)
                    &&& if old(self).waits_for(*decoded) && decoded is Loaded && decoded->rows is Some {
                        final(self).relaid(
                            &mid,
                            anchor_of(mid.rows(), mid.logical_lines@, mid.state),
                            *wrap,
                            mid.layout_lines.last_width,
                        )
                    } else {
                        *final(self) == mid
                    }
                },
    {
        let width = Preview::image_width(self.layout_lines.last_width);
        let changed = self.images.complete(decoded, width);
        let ghost mid = *self;
        assert(mid.took_image(old(self), *decoded));
        if changed {
            let width: usize = self.layout_lines.last_width;
            self.rebuild_layout_lines(width, wrap);
        }
    }

    /// The image is being decoded.
    pub open spec fn waits_for(&self, decoded: DecodedImage) -> bool {
        strings_view(self.images.loading@).contains(decoded.path_view())
    }

    /// The preview after an image was decoded, before anything is laid out.
    pub open spec fn took_image(&self, before: &Preview, decoded: DecodedImage) -> bool {
        let width = larger(
            less_by(before.layout_lines.last_width as int, PREVIEW_FRAME_OVERHEAD as int),
            1,
        ) as usize;
        &&& *self == (Preview { images: self.images, ..*before })
        &&& before.waits_for(decoded) ==> {
            &&& self.images.entries@.drop_last() == before.images.entries@
            &&& self.images.entries@.len() == before.images.entries@.len() + 1
            &&& self.images.entries@.last().path@ == decoded.path_view()
            &&& self.images.entries@.last().state == (if decoded is Loaded && decoded->rows is Some {
                ImageState::Ready { rows: decoded->rows->0, width }
            } else {
                ImageState::Failed
            })
        }
        &&& !before.waits_for(decoded) ==> self.images == before.images
    }
}

} // verus!
