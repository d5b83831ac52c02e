//! Scrollable dependency graph popup.

use std::collections::HashMap;

use vstd::prelude::*;

use crate::code::{valid_codes, Code, CodeId};
use crate::num::{fit_u16, larger, less_by, smaller, to_u16};
use crate::scheduler::{needed_blocks, nested, planned, DependencyGraph};
use crate::style::{
    bold_only, lemma_line_push, line_view, line_width, lines_view, plain, width_of_line, Span, Style,
};
use crate::task::TaskStatus;
use crate::text::{decimal, decimal_text, repeat_char, repeated, str_width, width_of_text};
use crate::theme::{shortcuts_line, Theme};

verus! {

broadcast use vstd::std_specs::hash::group_hash_axioms;

/// Dependency graph of a document or of one block, with the state of each
/// block and the scroll position.
pub struct Dependencies {
    pub title: String,
    pub graph: Option<DependencyGraph>,
    pub message: Option<String>,
    pub names: HashMap<CodeId, String>,
    pub statuses: HashMap<CodeId, TaskStatus>,
    pub scroll_x: u16,
    pub scroll_y: u16,
}

#[derive(Clone, Copy, Debug, PartialEq, Eq, Hash, Structural)]
pub enum Action {
    Up,
    Down,
    Left,
    Right,
    PageUp,
    PageDown,
    Reset,
    Quit,
    Exit,
}

/// What the popup asks of its owner.
#[derive(Clone, Copy, Debug, PartialEq, Eq, Structural)]
pub enum Outcome {
    /// The popup was closed.
    Closed,
    /// The application was quit.
    Quit,
}

/// What a block is called: its name, or its number where it has none.
pub open spec fn shown_name(code: Code) -> Seq<char> {
    if code.name@.len() == 0 {
        decimal_text(code.id as nat)
    } else {
        code.name@
    }
}

/// The widest of some names.
pub open spec fn widest(names: Map<CodeId, String>, ids: Seq<CodeId>) -> usize
    decreases ids.len(),
{
    if ids.len() == 0 {
        0
    } else {
        let rest = widest(names, ids.drop_last());
        let last = width_of_text(name_in(names, ids.last()));
        if rest >= last {
            rest
        } else {
            last
        }
    }
}

/// What a block is called in the graph.
pub open spec fn name_in(names: Map<CodeId, String>, id: CodeId) -> Seq<char> {
    if names.contains_key(id) {
        names[id]@
    } else {
        decimal_text(id as nat)
    }
}

/// The longest layer's length; one where there is no layer.
pub open spec fn tallest(layers: Seq<Seq<CodeId>>) -> nat
    decreases layers.len(),
{
    if layers.len() == 0 {
        1
    } else if layers.len() == 1 {
        layers[0].len()
    } else if tallest(layers.drop_last()) >= layers.last().len() {
        tallest(layers.drop_last())
    } else {
        layers.last().len()
    }
}

/// Rows of the drawing: one for each block of the longest layer and one between
/// two of them.
pub open spec fn canvas_rows(layers: Seq<Seq<CodeId>>) -> int {
    let doubled = if tallest(layers) * 2 > usize::MAX {
        usize::MAX as int
    } else {
        (tallest(layers) * 2) as int
    };
    if doubled == 0 {
        0
    } else {
        doubled - 1
    }
}

/// The mark in front of a block, by its state.
pub open spec fn status_mark(status: Option<TaskStatus>, spinner: char, theme: Theme) -> (
    Seq<char>,
    Style,
) {
    match status {
        Some(TaskStatus::Running) => (
            " "@ + seq![spinner] + " "@,
            plain().fg_spec(theme.warning),
        ),
        Some(TaskStatus::Success) => (" ✔ "@, plain().fg_spec(theme.success)),
        Some(TaskStatus::Error) => (" ✘ "@, plain().fg_spec(theme.error)),
        _ => (" · "@, theme.global().fg_spec(theme.muted)),
    }
}

/// What joins two neighbouring layers in one row of the drawing.
pub open spec fn connector(
    layer_len: nat,
    next_len: nat,
    row: int,
    canvas_rows: int,
) -> Seq<char> {
    let item = row / 2;
    if layer_len <= 1 && next_len <= 1 {
        if row == 0 {
            "────→"@
        } else {
            "     "@
        }
    } else if row % 2 == 0 && item < layer_len {
        if item == 0 {
            "──┬─→"@
        } else if item == layer_len - 1 {
            "──┘  "@
        } else {
            "──┤  "@
        }
    } else if row % 2 == 0 && layer_len == 1 && item < next_len {
        if item == next_len - 1 {
            "  └─→"@
        } else {
            "  ├─→"@
        }
    } else if (row > 0 && (row - 1) / 2 < layer_len) || (row + 1 < canvas_rows && item + 1
        < layer_len) || (row % 2 == 1 && item + 1 < next_len) {
        "  │  "@
    } else {
        "     "@
    }
}

fn connector_text(layer_len: usize, next_len: usize, row: usize, canvas_rows: usize) -> (text:
    &'static str)
    requires
        row < usize::MAX,
    ensures
        text@ == connector(layer_len as nat, next_len as nat, row as int, canvas_rows as int),
{
    let item: usize = row / 2;
    if layer_len <= 1 && next_len <= 1 {
        if row == 0 {
            "────→"
        } else {
            "     "
        }
    } else if row % 2 == 0 && item < layer_len {
        if item == 0 {
            "──┬─→"
        } else if item == layer_len - 1 {
            "──┘  "
        } else {
            "──┤  "
        }
    } else if row % 2 == 0 && layer_len == 1 && item < next_len {
        if item == next_len - 1 {
            "  └─→"
        } else {
            "  ├─→"
        }
    } else if (row > 0 && (row - 1) / 2 < layer_len) || (row + 1 < canvas_rows && item + 1
        < layer_len) || (row % 2 == 1 && item + 1 < next_len) {
        "  │  "
    } else {
        "     "
    }
}

/// The part of a row that one layer takes: the block's mark and name, padded to
/// the width of the layer, or blanks.
pub open spec fn graph_cell(
    deps: Dependencies,
    target: Option<CodeId>,
    layer: Seq<CodeId>,
    row: int,
    spinner: char,
    theme: Theme,
) -> Seq<(Seq<char>, Style)> {
    let width = widest(deps.names@, layer);
    let link = theme.global().fg_spec(theme.muted);
    if row % 2 == 0 && row / 2 < layer.len() {
        let id = layer[row / 2];
        let name = name_in(deps.names@, id);
        let used = width_of_text(name);
        let padding = if width > used {
            (width - used) as nat
        } else {
            0
        };
        let status = if deps.statuses@.contains_key(id) {
            Some(deps.statuses@[id])
        } else {
            None
        };
        seq![
            status_mark(status, spinner, theme),
            (
                name + repeated(' ', padding) + " "@,
                if target == Some(id) {
                    theme.base().add_spec(bold_only())
                } else {
                    theme.base()
                },
            ),
        ]
    } else {
        seq![("   "@, link), (repeated(' ', width as nat) + " "@, link)]
    }
}

/// A row of the drawing up to the first `columns` layers, with what joins each
/// layer to the next one.
pub open spec fn graph_row(
    deps: Dependencies,
    target: Option<CodeId>,
    layers: Seq<Seq<CodeId>>,
    columns: int,
    row: int,
    spinner: char,
    theme: Theme,
) -> Seq<(Seq<char>, Style)>
    decreases columns,
{
    if columns <= 0 {
        Seq::empty()
    } else {
        let c = columns - 1;
        let left = graph_row(deps, target, layers, c, row, spinner, theme) + graph_cell(
            deps,
            target,
            layers[c],
            row,
            spinner,
            theme,
        );
        if columns < layers.len() {
            left.push(
                (
                    connector(layers[c].len(), layers[c + 1].len(), row, canvas_rows(layers)),
                    theme.global().fg_spec(theme.muted),
                ),
            )
        } else {
            left
        }
    }
}

/// Number of rows that are drawn: at least one.
pub open spec fn drawn_rows(layers: Seq<Seq<CodeId>>) -> int {
    if canvas_rows(layers) > 1 {
        canvas_rows(layers)
    } else {
        1
    }
}

/// The length of the longest layer; one where there is no layer.
fn longest_layer(layers: &[Vec<CodeId>]) -> (len: usize)
    ensures
        len == tallest(nested(layers@)),
{
    if layers.len() == 0 {
        return 1;
    }
    let mut longest: usize = layers[0].len();
    let mut i: usize = 1;
    assert(nested(layers@).take(1)[0] == layers@[0]@);
    while i < layers.len()
        invariant
            1 <= i <= layers.len(),
            longest == tallest(nested(layers@).take(i as int)),
        decreases layers.len() - i,
    {
        let len: usize = layers[i].len();
        proof {
            let longer = nested(layers@).take(i + 1);
            assert(longer.drop_last() =~= nested(layers@).take(i as int));
            assert(longer.last() == layers@[i as int]@);
        }
        if len > longest {
            longest = len;
        }
        i += 1;
    }
    assert(nested(layers@).take(i as int) =~= nested(layers@));
    longest
}

/// Rows of the drawing.
fn rows_of(layers: &[Vec<CodeId>]) -> (rows: usize)
    ensures
        rows == canvas_rows(nested(layers@)),
{
    let longest = longest_layer(layers);
    let doubled: usize = if longest > usize::MAX / 2 {
        usize::MAX
    } else {
        longest * 2
    };
    doubled.saturating_sub(1)
}

/// `keys` are the keys of the popup with what they do.
pub open spec fn popup_keys(keys: Seq<(String, String)>) -> bool {
    &&& keys.len() == 4
    &&& keys[0].0@ == "↑↓←→"@ && keys[0].1@ == "scroll"@
    &&& keys[1].0@ == "pgup/pgdn"@ && keys[1].1@ == "page"@
    &&& keys[2].0@ == "home"@ && keys[2].1@ == "reset"@
    &&& keys[3].0@ == "esc/q"@ && keys[3].1@ == "close"@
}

impl Dependencies {
    /// What the popup holds when it opens.
    pub open spec fn opened(
        &self,
        title: Seq<char>,
        codes: Seq<Code>,
        graph: Option<Result<DependencyGraph, String>>,
        empty_message: Seq<char>,
        statuses: Map<CodeId, TaskStatus>,
    ) -> bool {
        &&& self.title@ == title
        &&& self.scroll_x == 0
        &&& self.scroll_y == 0
        &&& self.statuses@ == statuses
        &&& forall|id: CodeId| #[trigger]
            self.names@.contains_key(id) <==> crate::code::has_block(codes, id)
        &&& forall|i: int|
            0 <= i < codes.len() && (forall|j: int|
                i < j < codes.len() ==> (#[trigger] codes[j]).id != codes[i].id)
                ==> name_in(self.names@, (#[trigger] codes[i]).id) == shown_name(codes[i])
        &&& match graph {
            Some(Ok(graph)) => self.graph == Some(graph) && self.message is None,
            Some(Err(error)) => self.graph is None && self.message == Some(error),
            None => self.graph is None && self.message is Some && self.message->0@
                == empty_message,
        }
    }

    /// What one block depends on, or a note where no block is selected.
    pub open spec fn shows_target(
        &self,
        codes: Seq<Code>,
        target: Option<CodeId>,
        statuses: Map<CodeId, TaskStatus>,
    ) -> bool {
        match target {
            None => self.opened(
                "Dependencies"@,
                codes,
                None,
                "No block selected"@,
                statuses,
            ),
            Some(id) => exists|graph: Result<DependencyGraph, String>|
                {
                    &&& #[trigger] self.opened(
                        "Dependencies"@,
                        codes,
                        Some(graph),
                        "No block selected"@,
                        statuses,
                    )
                    &&& match needed_blocks(codes, id) {
                        Ok(selected) => planned(codes, selected, Some(id), graph),
                        Err(message) => graph is Err && graph->Err_0@ == message,
                    }
                },
        }
    }

    /// The graph of one block, or of none where no block is selected.
    pub fn for_target(
        codes: &[Code],
        target: Option<CodeId>,
        statuses: HashMap<CodeId, TaskStatus>,
    ) -> (deps: Self)
        requires
            valid_codes(codes@),
        ensures
            deps.shows_target(codes@, target, statuses@),
    {
        let graph = match target {
            Some(id) => Some(DependencyGraph::for_target(codes, id)),
            None => None,
        };
        Self::new("Dependencies", codes, graph, "No block selected", statuses)
    }

    /// Opens the popup on a graph or on the reason why there is none.
    pub fn new(
        title: &str,
        codes: &[Code],
        graph: Option<Result<DependencyGraph, String>>,
        empty_message: &str,
        statuses: HashMap<CodeId, TaskStatus>,
    ) -> (deps: Self)
        ensures
            deps.opened(title@, codes@, graph, empty_message@, statuses@),
    {
        let (graph, message) = match graph {
            Some(Ok(graph)) => (Some(graph), None),
            Some(Err(error)) => (None, Some(error)),
            None => (None, Some(empty_message.to_owned())),
        };
        let mut names: HashMap<CodeId, String> = HashMap::new();
        let mut i: usize = 0;
        while i < codes.len()
            invariant
                i <= codes.len(),
                forall|id: CodeId| #[trigger]
                    names@.contains_key(id) <==> exists|k: int|
                        0 <= k < i && (#[trigger] codes@[k]).id == id,
                forall|k: int|
                    0 <= k < i && (forall|j: int| k < j < i ==> (#[trigger] codes@[j]).id != codes@[k].id)
                        ==> name_in(names@, (#[trigger] codes@[k]).id) == shown_name(codes@[k]),
            decreases codes.len() - i,
        {
            let code = &codes[i];
            let name = if code.name.as_str().unicode_len() == 0 {
                decimal(code.id as u64)
            } else {
                code.name.clone()
            };
            let ghost before = names@;
            names.insert(code.id, name);
            proof {
                assert forall|id: CodeId| #[trigger]
                    names@.contains_key(id) <==> exists|k: int|
                        0 <= k < i + 1 && (#[trigger] codes@[k]).id == id by {
                    if id == code.id {
                        assert(codes@[i as int].id == id);
                    }
                    if before.contains_key(id) {
                        let k = choose|k: int| 0 <= k < i && (#[trigger] codes@[k]).id == id;
                        assert(codes@[k].id == id);
                    }
                }
                assert forall|k: int|
                    0 <= k < i + 1 && (forall|j: int|
                        k < j < i + 1 ==> (#[trigger] codes@[j]).id != codes@[k].id) implies name_in(
                    names@,
                    (#[trigger] codes@[k]).id,
                ) == shown_name(codes@[k]) by {
                    if k < i {
                        assert(codes@[i as int].id != codes@[k].id);
                        assert(name_in(before, codes@[k].id) == shown_name(codes@[k]));
                    }
                }
            }
            i += 1;
        }
        Dependencies {
            title: title.to_owned(),
            graph,
            message,
            names,
            statuses,
            scroll_x: 0,
            scroll_y: 0,
        }
    }

    /// Takes over the current state of the blocks.
    pub fn tick(&mut self, statuses: HashMap<CodeId, TaskStatus>)
        ensures
            *final(self) == (Dependencies { statuses, ..*old(self) }),
    {
        self.statuses = statuses;
    }

    /// What a block is called.
    pub fn name_of(&self, id: CodeId) -> (name: String)
        ensures
            name@ == name_in(self.names@, id),
    {
        match self.names.get(&id) {
            Some(name) => name.clone(),
            None => decimal(id as u64),
        }
    }

    /// The widest name of a layer.
    fn layer_width(&self, layer: &Vec<CodeId>) -> (width: usize)
        ensures
            width == widest(self.names@, layer@),
    {
        let mut width: usize = 0;
        let mut i: usize = 0;
        while i < layer.len()
            invariant
                i <= layer.len(),
                width == widest(self.names@, layer@.take(i as int)),
            decreases layer.len() - i,
        {
            let name = self.name_of(layer[i]);
            let used = str_width(name.as_str());
            assert(layer@.take(i + 1).drop_last() =~= layer@.take(i as int));
            if used > width {
                width = used;
            }
            i += 1;
        }
        assert(layer@.take(i as int) =~= layer@);
        width
    }

    /// Appends the part of a row that one layer takes.
    fn push_cell(
        &self,
        target: Option<CodeId>,
        layer: &Vec<CodeId>,
        width: usize,
        row: usize,
        spinner: char,
        theme: &Theme,
        spans: &mut Vec<Span>,
    )
        requires
            width == widest(self.names@, layer@),
        ensures
            line_view(final(spans)@) == line_view(old(spans)@) + graph_cell(
                *self,
                target,
                layer@,
                row as int,
                spinner,
                *theme,
            ),
    {
        let link = theme.global_style().fg(theme.muted);
        let item: usize = row / 2;
        let (mark, text) = if row % 2 == 0 && item < layer.len() {
            let id = layer[item];
            let name = self.name_of(id);
            let is_target = match target {
                Some(wanted) => wanted == id,
                None => false,
            };
            let name_style = if is_target {
                theme.style().bold()
            } else {
                theme.style()
            };
            let mark = match self.statuses.get(&id) {
                Some(TaskStatus::Running) => {
                    let mut text = " ".to_owned();
                    text.push(spinner);
                    text.append(" ");
                    assert(text@ =~= " "@ + seq![spinner] + " "@);
                    Span::styled(text, theme.warning_fg_style())
                },
                Some(TaskStatus::Success) => Span::styled(" ✔ ".to_owned(), theme.success_style()),
                Some(TaskStatus::Error) => Span::styled(" ✘ ".to_owned(), theme.error_style()),
                _ => Span::styled(" · ".to_owned(), link),
            };
            let padding: usize = width.saturating_sub(str_width(name.as_str()));
            let mut text = name;
            text.append(repeat_char(' ', padding).as_str());
            text.append(" ");
            (mark, Span::styled(text, name_style))
        } else {
            let mut text = repeat_char(' ', width);
            text.append(" ");
            (Span::styled("   ".to_owned(), link), Span::styled(text, link))
        };
        proof {
            lemma_line_push(spans@, mark);
            lemma_line_push(spans@.push(mark), text);
            assert(line_view(spans@.push(mark).push(text)) =~= line_view(spans@) + seq![
                mark@,
                text@,
            ]);
        }
        spans.push(mark);
        spans.push(text);
    }

    /// One row of the drawing.
    fn draw_row(
        &self,
        graph: &DependencyGraph,
        widths: &Vec<usize>,
        canvas: usize,
        row: usize,
        spinner: char,
        theme: &Theme,
    ) -> (spans: Vec<Span>)
        requires
            row < usize::MAX,
            canvas == canvas_rows(graph.layers_view()),
            widths@.len() == graph.layers_view().len(),
            forall|c: int|
                0 <= c < widths@.len() ==> #[trigger] widths@[c] == widest(
                    self.names@,
                    graph.layers_view()[c],
                ),
        ensures
            line_view(spans@) == graph_row(
                *self,
                graph.target_view(),
                graph.layers_view(),
                graph.layers_view().len() as int,
                row as int,
                spinner,
                *theme,
            ),
    {
        let layers = graph.layers();
        let target = graph.target();
        let mut spans: Vec<Span> = Vec::new();
        let ghost view = graph.layers_view();
        assert(line_view(spans@) =~= Seq::empty());
        let mut c: usize = 0;
        while c < layers.len()
            invariant
                c <= layers.len(),
                row < usize::MAX,
                view == nested(layers@),
                canvas == canvas_rows(view),
                widths@.len() == view.len(),
                forall|k: int|
                    0 <= k < widths@.len() ==> #[trigger] widths@[k] == widest(
                        self.names@,
                        view[k],
                    ),
                line_view(spans@) == graph_row(
                    *self,
                    target,
                    view,
                    c as int,
                    row as int,
                    spinner,
                    *theme,
                ),
            decreases layers.len() - c,
        {
            assert(view[c as int] == layers@[c as int]@);
            self.push_cell(target, &layers[c], widths[c], row, spinner, theme, &mut spans);
            if c + 1 < layers.len() {
                assert(view[c + 1] == layers@[c + 1]@);
                let text = connector_text(layers[c].len(), layers[c + 1].len(), row, canvas);
                let link = Span::styled(text.to_owned(), theme.global_style().fg(theme.muted));
                proof {
                    lemma_line_push(spans@, link);
                }
                spans.push(link);
            }
            c += 1;
        }
        spans
    }

    /// The drawing of a graph, row by row. `spinner` marks running blocks.
    pub fn graph_lines(&self, graph: &DependencyGraph, spinner: char, theme: &Theme) -> (rows: Vec<
        Vec<Span>,
    >)
        ensures
            rows@.len() == drawn_rows(graph.layers_view()),
            forall|r: int|
                0 <= r < rows@.len() ==> line_view((#[trigger] rows@[r])@) == graph_row(
                    *self,
                    graph.target_view(),
                    graph.layers_view(),
                    graph.layers_view().len() as int,
                    r,
                    spinner,
                    *theme,
                ),
    {
        let layers = graph.layers();
        let canvas = rows_of(layers);
        let mut widths: Vec<usize> = Vec::new();
        let mut c: usize = 0;
        let ghost view = graph.layers_view();
        while c < layers.len()
            invariant
                c <= layers.len(),
                view == nested(layers@),
                widths@.len() == c,
                forall|k: int|
                    0 <= k < widths@.len() ==> #[trigger] widths@[k] == widest(
                        self.names@,
                        view[k],
                    ),
            decreases layers.len() - c,
        {
            assert(view[c as int] == layers@[c as int]@);
            widths.push(self.layer_width(&layers[c]));
            c += 1;
        }
        let count: usize = if canvas > 1 {
            canvas
        } else {
            1
        };
        let mut rows: Vec<Vec<Span>> = Vec::new();
        let mut r: usize = 0;
        while r < count
            invariant
                r <= count,
                rows@.len() == r,
                view == graph.layers_view(),
                canvas == canvas_rows(view),
                widths@.len() == view.len(),
                forall|k: int|
                    0 <= k < widths@.len() ==> #[trigger] widths@[k] == widest(
                        self.names@,
                        view[k],
                    ),
                forall|k: int|
                    0 <= k < rows@.len() ==> line_view((#[trigger] rows@[k])@) == graph_row(
                        *self,
                        graph.target_view(),
                        view,
                        view.len() as int,
                        k,
                        spinner,
                        *theme,
                    ),
            decreases count - r,
        {
            let row = self.draw_row(graph, &widths, canvas, r, spinner, theme);
            rows.push(row);
            r += 1;
        }
        rows
    }

    /// What the popup shows in an area of the given size.
    pub fn graph_view(&self, width: u16, height: u16, spinner: char, theme: &Theme) -> (shown:
        GraphView)
        ensures
            match self.graph {
                None => shown matches GraphView::Message(text) && text@ == (match self.message {
                    Some(message) => message@,
                    None => Seq::empty(),
                }),
                Some(graph) => {
                    let layers = graph.layers_view();
                    if graph.target_view() is Some && layers.len() <= 1 {
                        shown matches GraphView::Message(text) && text@ == "No dependencies"@
                    } else {
                        shown matches GraphView::Graph { rows, scroll_y, scroll_x } && {
                            &&& rows@.len() == drawn_rows(layers)
                            &&& forall|r: int|
                                0 <= r < rows@.len() ==> line_view((#[trigger] rows@[r])@)
                                    == graph_row(
                                    *self,
                                    graph.target_view(),
                                    layers,
                                    layers.len() as int,
                                    r,
                                    spinner,
                                    *theme,
                                )
                            &&& scroll_y == smaller(
                                self.scroll_y as int,
                                fit_u16(less_by(rows@.len() as int, height as int)),
                            )
                            &&& scroll_x == smaller(
                                self.scroll_x as int,
                                fit_u16(less_by(widest_row(lines_view(rows@)), width as int)),
                            )
                        }
                    }
                },
            },
    {
        match &self.graph {
            None => match &self.message {
                Some(message) => GraphView::Message(message.clone()),
                None => GraphView::Message(String::new()),
            },
            Some(graph) => {
                if graph.target().is_some() && graph.layers().len() <= 1 {
                    return GraphView::Message("No dependencies".to_owned());
                }
                let rows = self.graph_lines(graph, spinner, theme);
                let content_width = widest_row_of(&rows);
                let max_x: usize = content_width.saturating_sub(width as usize);
                let max_y: usize = rows.len().saturating_sub(height as usize);
                GraphView::Graph {
                    scroll_y: self.scroll_y.min(to_u16(max_y)),
                    scroll_x: self.scroll_x.min(to_u16(max_x)),
                    rows,
                }
            },
        }
    }

    /// Number of text rows the graph renders to; one without a graph.
    pub open spec fn rows_shown(&self) -> u16 {
        match self.graph {
            Some(graph) => drawn_rows(graph.layers_view()) as u16,
            None => 1,
        }
    }

    /// Number of text rows the graph renders to; one without a graph.
    pub fn graph_rows(&self) -> (rows: u16)
        ensures
            rows == self.rows_shown(),
    {
        match &self.graph {
            Some(graph) => rows_of(graph.layers()).max(1) as u16,
            None => 1,
        }
    }

    /// The keys of the popup.
    pub fn footer_shortcuts(&self, theme: &Theme) -> (spans: Vec<Span>)
        ensures
            exists|keys: Seq<(String, String)>| #[trigger]
                popup_keys(keys) && line_view(spans@) == shortcuts_line(*theme, keys),
    {
        let mut keys: Vec<(String, String)> = Vec::new();
        keys.push(("↑↓←→".to_owned(), "scroll".to_owned()));
        keys.push(("pgup/pgdn".to_owned(), "page".to_owned()));
        keys.push(("home".to_owned(), "reset".to_owned()));
        keys.push(("esc/q".to_owned(), "close".to_owned()));
        assert(popup_keys(keys@));
        theme.shortcuts(keys.as_slice())
    }

    /// The popup after an action.
    pub open spec fn applied(&self, before: &Dependencies, action: Action) -> bool {
        *self == (Dependencies {
            scroll_y: (match action {
                Action::Up => less_by(before.scroll_y as int, 1),
                Action::Down => fit_u16(before.scroll_y + 1),
                Action::PageUp => less_by(before.scroll_y as int, 10),
                Action::PageDown => fit_u16(before.scroll_y + 10),
                Action::Reset => 0,
                _ => before.scroll_y as int,
            }) as u16,
            scroll_x: (match action {
                Action::Left => less_by(before.scroll_x as int, 2),
                Action::Right => fit_u16(before.scroll_x + 2),
                Action::Reset => 0,
                _ => before.scroll_x as int,
            }) as u16,
            ..*before
        })
    }

    /// Scrolls the graph, or asks the owner to close the popup or to quit.
    pub fn update(&mut self, action: Action) -> (outcome: Option<Outcome>)
        ensures
            final(self).applied(old(self), action),
            outcome == (match action {
                Action::Quit => Some(Outcome::Closed),
                Action::Exit => Some(Outcome::Quit),
                _ => None,
            }),
    {
        match action {
            Action::Up => {
                self.scroll_y = self.scroll_y.saturating_sub(1);
            },
            Action::Down => {
                self.scroll_y = self.scroll_y.saturating_add(1);
            },
            Action::Left => {
                self.scroll_x = self.scroll_x.saturating_sub(2);
            },
            Action::Right => {
                self.scroll_x = self.scroll_x.saturating_add(2);
            },
            Action::PageUp => {
                self.scroll_y = self.scroll_y.saturating_sub(10);
            },
            Action::PageDown => {
                self.scroll_y = self.scroll_y.saturating_add(10);
            },
            Action::Reset => {
                self.scroll_x = 0;
                self.scroll_y = 0;
            },
            Action::Quit => {
                return Some(Outcome::Closed);
            },
            Action::Exit => {
                return Some(Outcome::Quit);
            },
        }
        None
    }
}

/// What the popup shows.
pub enum GraphView {
    Message(String),
    Graph { rows: Vec<Vec<Span>>, scroll_y: u16, scroll_x: u16 },
}

/// The columns that the widest row takes.
pub open spec fn widest_row(rows: Seq<Seq<(Seq<char>, Style)>>) -> int
    decreases rows.len(),
{
    if rows.len() == 0 {
        0
    } else {
        larger(widest_row(rows.drop_last()), line_width(rows.last()))
    }
}

fn widest_row_of(rows: &Vec<Vec<Span>>) -> (width: usize)
    ensures
        width == widest_row(lines_view(rows@)),
{
    let mut width: usize = 0;
    let mut i: usize = 0;
    while i < rows.len()
        invariant
            i <= rows.len(),
            width == widest_row(lines_view(rows@).take(i as int)),
        decreases rows.len() - i,
    {
        proof {
            let longer = lines_view(rows@).take(i + 1);
            assert(longer.drop_last() =~= lines_view(rows@).take(i as int));
            assert(longer.last() == line_view(rows@[i as int]@));
        }
        width = width.max(width_of_line(rows[i].as_slice()));
        i += 1;
    }
    assert(lines_view(rows@).take(i as int) =~= lines_view(rows@));
    width
}

/// A chain of single blocks is drawn as one row with arrows between them: every
/// layer but the last is followed by an arrow in the first row.
pub proof fn law_chain_is_one_row(layers: Seq<Seq<CodeId>>, c: int)
    requires
        layers.len() > 0,
        forall|i: int| 0 <= i < layers.len() ==> (#[trigger] layers[i]).len() == 1,
        0 <= c < layers.len() - 1,
    ensures
        drawn_rows(layers) == 1,
        connector(layers[c].len(), layers[c + 1].len(), 0, canvas_rows(layers)) == "────→"@,
{
    lemma_tallest_of_singles(layers);
}

proof fn lemma_tallest_of_singles(layers: Seq<Seq<CodeId>>)
    requires
        layers.len() > 0,
        forall|i: int| 0 <= i < layers.len() ==> (#[trigger] layers[i]).len() == 1,
    ensures
        tallest(layers) == 1,
    decreases layers.len(),
{
    if layers.len() > 1 {
        lemma_tallest_of_singles(layers.drop_last());
        assert(layers.last() == layers[layers.len() - 1]);
    } else {
        assert(layers[0].len() == 1);
    }
}

/// A line goes down from here.
pub open spec fn goes_down(c: char) -> bool {
    c == '┬' || c == '│' || c == '├' || c == '┤'
}

/// A line comes from above.
pub open spec fn comes_down(c: char) -> bool {
    c == '│' || c == '├' || c == '┤' || c == '└' || c == '┘'
}

proof fn lemma_connectors()
    ensures
        "────→"@ =~= seq!['─', '─', '─', '─', '→'],
        "──┬─→"@ =~= seq!['─', '─', '┬', '─', '→'],
        "──┘  "@ =~= seq!['─', '─', '┘', ' ', ' '],
        "──┤  "@ =~= seq!['─', '─', '┤', ' ', ' '],
        "  └─→"@ =~= seq![' ', ' ', '└', '─', '→'],
        "  ├─→"@ =~= seq![' ', ' ', '├', '─', '→'],
        "  │  "@ =~= seq![' ', ' ', '│', ' ', ' '],
        "     "@ =~= seq![' ', ' ', ' ', ' ', ' '],
{
    reveal_strlit("────→");
    reveal_strlit("──┬─→");
    reveal_strlit("──┘  ");
    reveal_strlit("──┤  ");
    reveal_strlit("  └─→");
    reveal_strlit("  ├─→");
    reveal_strlit("  │  ");
    reveal_strlit("     ");
}

/// One block that others wait for: from it a line starts, and an arrow leads to each of
/// those, in the row where it stands. The line is unbroken, starts at the first row and
/// ends at the last.
pub proof fn law_one_block_leads_to_all(next: nat, row: int)
    requires
        next > 1,
        0 <= row < 2 * next - 1,
    ensures
        ({
            let rows = 2 * next - 1;
            let here = connector(1, next, row, rows);
            &&& here.len() == 5
            &&& here[0] == '─' <==> row == 0
            &&& here[4] == '→' <==> row % 2 == 0
            &&& row % 2 == 0 ==> here[3] == '─'
            &&& comes_down(here[2]) <==> row > 0
            &&& goes_down(here[2]) <==> row < rows - 1
            &&& row + 1 < rows ==> (goes_down(here[2]) <==> comes_down(
                connector(1, next, row + 1, rows)[2],
            ))
        }),
{
    lemma_connectors();
}

/// Several blocks that one waits for: from each a line starts, in the row where it
/// stands, and one arrow leads on, in the first row. The line is unbroken.
pub proof fn law_all_blocks_lead_to_one(layer: nat, row: int)
    requires
        layer > 1,
        0 <= row < 2 * layer - 1,
    ensures
        ({
            let rows = 2 * layer - 1;
            let here = connector(layer, 1, row, rows);
            &&& here.len() == 5
            &&& here[0] == '─' <==> row % 2 == 0
            &&& here[4] == '→' <==> row == 0
            &&& comes_down(here[2]) <==> row > 0
            &&& goes_down(here[2]) <==> row < rows - 1
            &&& row + 1 < rows ==> (goes_down(here[2]) <==> comes_down(
                connector(layer, 1, row + 1, rows)[2],
            ))
        }),
{
    lemma_connectors();
}

/// One block that one other waits for: an arrow leads from it to the other.
pub proof fn law_one_block_leads_to_one(row: int, rows: int)
    ensures
        connector(1, 1, row, rows).len() == 5,
        row == 0 <==> connector(1, 1, row, rows)[4] == '→',
        row == 0 <==> connector(1, 1, row, rows)[0] == '─',
        row != 0 ==> forall|i: int| 0 <= i < 5 ==> #[trigger] connector(1, 1, row, rows)[i] == ' ',
{
    lemma_connectors();
}

/// Every second row of a column shows a block of the layer, from the first on: how it
/// stands and what it is called. The block that the plan works toward is bold.
pub proof fn law_blocks_stand_in_every_second_row(
    deps: Dependencies,
    target: Option<CodeId>,
    layer: Seq<CodeId>,
    row: int,
    spinner: char,
    theme: Theme,
)
    requires
        row >= 0,
    ensures
        ({
            let cell = graph_cell(deps, target, layer, row, spinner, theme);
            let shown = row % 2 == 0 && row / 2 < layer.len();
            let id = layer[row / 2];
            let name = name_in(deps.names@, id);
            &&& cell.len() == 2
            &&& shown ==> cell[1].0.len() > name.len() && cell[1].0.take(name.len() as int) == name
            &&& shown ==> (cell[1].1.add.bold <==> target == Some(id))
            &&& shown && deps.statuses@.contains_key(id) && deps.statuses@[id]
                == TaskStatus::Success ==> cell[0].0 == " ✔ "@ && cell[0].1.fg == Some(
                theme.success,
            )
            &&& shown && deps.statuses@.contains_key(id) && deps.statuses@[id] == TaskStatus::Error
                ==> cell[0].0 == " ✘ "@ && cell[0].1.fg == Some(theme.error)
            &&& shown && deps.statuses@.contains_key(id) && deps.statuses@[id]
                == TaskStatus::Running ==> cell[0].0[1] == spinner
            &&& shown && !deps.statuses@.contains_key(id) ==> cell[0].0 == " · "@
        }),
{
    reveal_strlit(" ");
    let cell = graph_cell(deps, target, layer, row, spinner, theme);
    if row % 2 == 0 && row / 2 < layer.len() {
        let name = name_in(deps.names@, layer[row / 2]);
        assert(cell[1].0.take(name.len() as int) =~= name);
    }
}

/// A block is called by its name, or by its number where it has none.
pub proof fn law_blocks_without_a_name_show_their_number(code: Code)
    ensures
        code.name@.len() > 0 ==> shown_name(code) == code.name@,
        code.name@.len() == 0 ==> crate::text::decimal_value(shown_name(code)) == code.id,
{
    crate::text::law_digits_stand_for_the_number(code.id as nat);
}

/// The widest row is as wide as some row, and none is wider.
pub proof fn law_no_row_is_wider(rows: Seq<Seq<(Seq<char>, Style)>>, i: int)
    ensures
        0 <= i < rows.len() ==> line_width(rows[i]) <= widest_row(rows),
        rows.len() > 0 ==> widest_row(rows) == 0 || exists|k: int|
            0 <= k < rows.len() && line_width(#[trigger] rows[k]) == widest_row(rows),
        rows.len() == 0 ==> widest_row(rows) == 0,
    decreases rows.len(),
{
    if rows.len() > 0 {
        let less = rows.drop_last();
        law_no_row_is_wider(less, i);
        if 0 <= i < less.len() {
            assert(less[i] == rows[i]);
        }
        if line_width(rows.last()) >= widest_row(less) {
            assert(line_width(rows[rows.len() - 1]) == widest_row(rows));
        } else if less.len() > 0 && widest_row(less) != 0 {
            let k = choose|k: int|
                0 <= k < less.len() && line_width(#[trigger] less[k]) == widest_row(less);
            assert(line_width(rows[k]) == widest_row(rows));
        }
    }
}

} // verus!
