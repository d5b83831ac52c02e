//! What happens from time to time.

use std::collections::HashMap;

use vstd::prelude::*;

use super::flow::{App, Next, NextView};
use crate::code::CodeId;
use crate::task::TaskStatus;
use crate::tui::dependencies::Dependencies;
use crate::tui::notification::{FlashMessage, DEFAULT_DURATION};
use crate::tui::overlay::Overlay;
use crate::tui::preview::layout_lines::is_wrap;
use crate::tui::tasks::statuses_of;

verus! {

/// A graph that shows how the blocks stand.
pub open spec fn graph_ticked(
    before: Dependencies,
    after: Dependencies,
    statuses: Map<CodeId, TaskStatus>,
) -> bool {
    after.statuses@ == statuses && after == (Dependencies { statuses: after.statuses, ..before })
}

/// A dialog that shows how the blocks stand.
pub open spec fn overlay_ticked(
    before: Option<Overlay>,
    after: Option<Overlay>,
    statuses: Map<CodeId, TaskStatus>,
) -> bool {
    match before {
        Some(Overlay::Dependencies(deps)) => match after {
            Some(Overlay::Dependencies(shown)) => graph_ticked(deps, shown, statuses),
            _ => false,
        },
        _ => after == before,
    }
}

/// A report that is not over.
pub open spec fn still_shown(flash: Option<FlashMessage>, now: u64) -> Option<FlashMessage> {
    match flash {
        Some(message) => if now >= message.expires_at {
            None
        } else {
            flash
        },
        None => None,
    }
}

fn tick_overlay(overlay: Option<Overlay>, statuses: HashMap<CodeId, TaskStatus>) -> (out: Option<
    Overlay,
>)
    requires
        overlay matches Some(o) ==> o.wf(),
    ensures
        out matches Some(o) ==> o.wf(),
        overlay_ticked(overlay, out, statuses@),
{
    match overlay {
        Some(overlay) => {
            let mut overlay = overlay;
            overlay.tick(statuses);
            Some(overlay)
        },
        None => None,
    }
}

fn tick_graph(graph: Option<Dependencies>, statuses: HashMap<CodeId, TaskStatus>) -> (out: Option<
    Dependencies,
>)
    ensures
        match graph {
            Some(before) => out is Some && graph_ticked(before, out->0, statuses@),
            None => out is None,
        },
{
    match graph {
        Some(graph) => {
            let mut graph = graph;
            graph.tick(statuses);
            Some(graph)
        },
        None => None,
    }
}

impl App {
    /// The dialog and the graph of the plan show how the blocks stand, and a report
    /// that is over is gone.
    #[verifier::opaque]
    pub open spec fn ticked(&self, before: &App, now: u64) -> bool {
        let statuses = statuses_of(before.tasks.outputs@);
        &&& overlay_ticked(before.overlay, self.overlay, statuses)
        &&& match before.graph {
            Some(graph) => self.graph is Some && graph_ticked(graph, self.graph->0, statuses),
            None => self.graph is None,
        }
        &&& self.notification == still_shown(before.notification, now)
        &&& *self == (App {
            overlay: self.overlay,
            graph: self.graph,
            notification: self.notification,
            ..*before
        })
    }

    /// Brings dialogs and reports up to date.
    pub fn tick_parts(&mut self, now: u64)
        requires
            old(self).wf(),
        ensures
            final(self).wf(),
            final(self).ticked(old(self), now),
    {
        proof {
            reveal(App::wf);
        }
        let overlay = self.overlay.take();
        self.overlay = tick_overlay(overlay, self.tasks.task_statuses());
        let graph = self.graph.take();
        self.graph = tick_graph(graph, self.tasks.task_statuses());
        let expired = match &self.notification {
            Some(flash) => flash.is_expired(now),
            None => false,
        };
        if expired {
            self.notification = None;
        }
        assert(self.ticked(old(self), now)) by {
            reveal(App::ticked);
        }
    }
}

/// What follows from the passing of time.
pub struct TickStep {
    pub next: Next,
    /// The images to start decoding.
    pub images: Vec<String>,
}

impl App {
    /// Something is asked to run at first.
    pub open spec fn has_first_step(&self) -> bool {
        !self.started && if self.options.block && self.options.yes {
            self.selected() is Some
        } else {
            self.options.all
        }
    }

    /// What the interface does first: run the block that was asked for, or every
    /// block.
    #[verifier::opaque]
    pub open spec fn first_step(&self, before: &App, next: NextView, now: u64) -> bool {
        let begun = App { started: true, ..*before };
        if before.options.block && before.options.yes {
            self.executed(&begun, before.selected()->0, next, now)
        } else {
            self.all_begun(&begun, next, now)
        }
    }

    /// What time leads to, step by step: new output is shown, the menu shows how
    /// the blocks stand, input lasts while a program runs, dialogs and reports are
    /// brought up to date, and images are asked for.
    #[verifier::opaque]
    pub open spec fn refreshed<W: Fn(&str, usize) -> Vec<(usize, usize)>>(
        &self,
        begun: &App,
        now: u64,
        wrap: W,
        images: Seq<String>,
    ) -> bool {
        exists|shown: App, listed: App, synced: App, timed: App|
            {
                &&& begun.tasks.dirty() ==> shown.rerendered(begun, wrap)
                &&& !begun.tasks.dirty() ==> shown == *begun
                &&& #[trigger] listed.with_statuses(&shown)
                &&& #[trigger] synced.input_kept(&listed)
                &&& #[trigger] timed.ticked(&synced, now)
                &&& images == timed.content.preview.images.pending@
                &&& self.images_taken(&timed)
            }
    }

    /// Input to a program lasts only while the selected block runs.
    #[verifier::opaque]
    pub open spec fn input_kept(&self, before: &App) -> bool {
        *self == (App { screen: before.input_screen(), ..*before })
    }

    fn keep_input(&mut self)
        requires
            old(self).wf(),
        ensures
            final(self).wf(),
            final(self).input_kept(old(self)),
    {
        proof {
            reveal(App::input_kept);
        }
        self.sync_input_mode();
    }

    /// Brings the interface up to date.
    pub fn refresh<W: Fn(&str, usize) -> Vec<(usize, usize)>>(&mut self, now: u64, wrap: &W) -> (images:
        Vec<String>)
        requires
            is_wrap(*wrap),
            old(self).wf(),
        ensures
            final(self).wf(),
            final(self).refreshed(old(self), now, *wrap, images@),
    {
        if self.has_new_output() {
            self.rebuild_outputs(wrap);
        }
        let ghost shown = *self;
        self.sync_task_statuses();
        let ghost listed = *self;
        self.keep_input();
        let ghost synced = *self;
        self.tick_parts(now);
        let ghost timed = *self;
        let images = self.take_images();
        assert(self.refreshed(old(self), now, *wrap, images@)) by {
            reveal(App::refreshed);
            assert(listed.with_statuses(&shown));
            assert(synced.input_kept(&listed));
            assert(timed.ticked(&synced, now));
        }
        images
    }

    /// The interface has begun.
    fn begin(&mut self)
        requires
            old(self).wf(),
        ensures
            final(self).wf(),
            *final(self) == (App { started: true, ..*old(self) }),
    {
        proof {
            reveal(App::wf);
        }
        self.started = true;
    }

    /// At first, runs what was asked to run.
    pub fn run_first(&mut self, now: u64) -> (next: Option<Next>)
        requires
            old(self).wf(),
            now + DEFAULT_DURATION <= u64::MAX,
        ensures
            final(self).wf(),
            match next {
                Some(next) => old(self).has_first_step() && final(self).first_step(
                    old(self),
                    next@,
                    now,
                ),
                None => !old(self).has_first_step() && *final(self) == (App {
                    started: true,
                    ..*old(self)
                }),
            },
    {
        let first = !self.started;
        let chosen = self.options.block && self.options.yes;
        let all = self.options.all;
        self.begin();
        if !first {
            return None;
        }
        if chosen {
            match self.content.selected_code_id() {
                Some(id) => {
                    let next = self.execute(id, now);
                    assert(self.first_step(old(self), next@, now)) by {
                        reveal(App::first_step);
                    }
                    Some(next)
                },
                None => None,
            }
        } else if all {
            let next = self.start_all(now);
            assert(self.first_step(old(self), next@, now)) by {
                reveal(App::first_step);
            }
            Some(next)
        } else {
            None
        }
    }

    /// At first, runs what was asked to run; then brings the interface up to date.
    pub fn handle_tick<W: Fn(&str, usize) -> Vec<(usize, usize)>>(&mut self, now: u64, wrap: &W) -> (step:
        TickStep)
        requires
            is_wrap(*wrap),
            old(self).wf(),
            now + DEFAULT_DURATION <= u64::MAX,
        ensures
            final(self).wf(),
            if old(self).has_first_step() {
                final(self).first_step(old(self), step.next@, now) && step.images@.len() == 0
            } else {
                step.next@ == NextView::Nothing && final(self).refreshed(
                    &(App { started: true, ..*old(self) }),
                    now,
                    *wrap,
                    step.images@,
                )
            },
    {
        match self.run_first(now) {
            Some(next) => TickStep { next, images: Vec::new() },
            None => {
                let images = self.refresh(now, wrap);
                TickStep { next: Next::Nothing, images }
            },
        }
    }
}

} // verus!
