//! Rows of a table: a heading on the left, cells on the right.

use vstd::prelude::*;
use vstd::string::*;
use crate::layout::html::{
    div, lemma_div_view, lemma_views_push, single, text, views, spec_div, Html, HtmlView,
    OnClickAction,
};

verus! {

/// Width of the left column, in percent.
pub const LEFT_COL_WIDTH: usize = 15;

/// Width of the right column, in percent: what the left one and the line
/// between them leave.
pub const RIGHT_COL_WIDTH: usize = 84;

pub const FIRST_ROW_STYLE: &'static str = "width: 100%; height: 10%; display: block;";

pub const NON_FIRST_ROW_STYLE: &'static str =
    "width: 100%; height: 10%; display: block; border-top: 2px solid white;";

pub const LEFT_COL: &'static str =
    "display: block; height: 100%; width: 15%; text-align: center; float: left; padding: 0; margin: 0; border-right: 2px solid white;";

pub const RIGHT_COL: &'static str =
    "display: block; height: 100%; width: 84%; float: left; padding: 0; margin: 0; overflow: auto;";

pub const VALUE_CONTAINER_STYLE: &'static str =
    "height: 100%; display: table; float: left; text-align: center; min-width: 10%;";

pub const TINY_VALUE_CONTAINER_STYLE: &'static str =
    "height: 100%; display: table; float: left; text-align: center; width: 3%;";

pub const SINGLE_VALUE_CONTAINER_STYLE: &'static str =
    "height: 100%; display: table; float: left; text-align: center; width: 100%;";

pub const SEP_CONTAINER_STYLE: &'static str =
    "height: 100%; display: table; float: left; text-align: center; width: 2%;";

pub const SELECTOR_CONTAINER_STYLE: &'static str =
    "height: 100%; display: table; float: left; text-align: center; width: 10%;";

pub const CELL_STYLE: &'static str =
    "display: table-cell; vertical-align: middle; height: 100%; width: auto;";

pub const BUTTON_STYLE: &'static str = "font-family: monospace; cursor: pointer;";

/// A cell around `inner`.
pub open spec fn spec_cell(inner: HtmlView) -> HtmlView {
    spec_div(CELL_STYLE@, seq![inner])
}

/// A container with the style `style` around a cell around `inner`.
pub open spec fn spec_contained(style: Seq<char>, inner: HtmlView) -> HtmlView {
    spec_div(style, seq![spec_cell(inner)])
}

/// A button that shows `txt` and asks for `action` when it is clicked.
pub open spec fn spec_button(txt: Seq<char>, action: OnClickAction) -> HtmlView {
    HtmlView::Div {
        id: None,
        style: BUTTON_STYLE@,
        onclick: Some(action),
        children: seq![HtmlView::Text(txt)],
    }
}

/// What a row holds.
pub struct TableRowView {
    pub style: Seq<char>,
    pub lft_style: Seq<char>,
    pub lft: HtmlView,
    pub rgt_style: Seq<char>,
    pub rgt: Seq<HtmlView>,
}

/// One row of a table.
#[derive(Debug)]
pub struct TableRow {
    style: &'static str,
    lft_style: &'static str,
    lft: Html,
    rgt_style: &'static str,
    rgt: Vec<Html>,
}

impl View for TableRow {
    type V = TableRowView;

    closed spec fn view(&self) -> TableRowView {
        TableRowView {
            style: self.style@,
            lft_style: self.lft_style@,
            lft: self.lft@,
            rgt_style: self.rgt_style@,
            rgt: views(self.rgt@),
        }
    }
}

impl TableRow {
    /// A row with `lft` as its heading and nothing on the right. The first
    /// row of a table has no line above it.
    pub fn new(is_first: bool, lft_style: &'static str, lft: Html, rgt_style: &'static str) -> (res:
        Self)
        ensures
            res@ == (TableRowView {
                style: if is_first {
                    FIRST_ROW_STYLE@
                } else {
                    NON_FIRST_ROW_STYLE@
                },
                lft_style: lft_style@,
                lft: spec_contained(SINGLE_VALUE_CONTAINER_STYLE@, lft@),
                rgt_style: rgt_style@,
                rgt: Seq::empty(),
            }),
    {
        let style = if is_first {
            FIRST_ROW_STYLE
        } else {
            NON_FIRST_ROW_STYLE
        };
        let lft = Self::contained(SINGLE_VALUE_CONTAINER_STYLE, lft);
        let res = TableRow { style, lft_style, lft, rgt_style, rgt: Vec::new() };
        assert(views(res.rgt@) =~= Seq::empty());
        res
    }

    /// A row of a menu: a narrow heading and a wide right side.
    pub fn new_menu(is_first: bool, lft: Html) -> (res: Self)
        ensures
            res@ == (TableRowView {
                style: if is_first {
                    FIRST_ROW_STYLE@
                } else {
                    NON_FIRST_ROW_STYLE@
                },
                lft_style: LEFT_COL@,
                lft: spec_contained(SINGLE_VALUE_CONTAINER_STYLE@, lft@),
                rgt_style: RIGHT_COL@,
                rgt: Seq::empty(),
            }),
    {
        Self::new(is_first, LEFT_COL, lft, RIGHT_COL)
    }

    /// The markup of the row: the heading in the left column, the cells in
    /// the right one, in the order in which they were pushed.
    pub fn render(self) -> (res: Html)
        ensures
            res@ == spec_div(
                self@.style,
                seq![
                    spec_div(self@.lft_style, seq![self@.lft]),
                    spec_div(self@.rgt_style, self@.rgt),
                ],
            ),
    {
        let left = div(self.lft_style, single(self.lft));
        let right = div(self.rgt_style, self.rgt);
        let mut columns: Vec<Html> = Vec::new();
        columns.push(left);
        columns.push(right);
        assert(views(columns@) =~= seq![left@, right@]);
        div(self.style, columns)
    }

    /// A cell around `inner`.
    pub fn new_cell(inner: Html) -> (res: Html)
        ensures
            res@ == spec_cell(inner@),
    {
        div(CELL_STYLE, single(inner))
    }

    /// A container with the style `style` around a cell around `inner`.
    fn contained(style: &'static str, inner: Html) -> (res: Html)
        ensures
            res@ == spec_contained(style@, inner@),
    {
        div(style, single(Self::new_cell(inner)))
    }

    /// Appends a cell to the right side.
    fn push(&mut self, cell: Html)
        ensures
            final(self)@ == (TableRowView { rgt: old(self)@.rgt.push(cell@), ..old(self)@ }),
    {
        proof {
            lemma_views_push(self.rgt@, cell);
        }
        self.rgt.push(cell);
    }

    /// Appends a selector.
    pub fn push_selector(&mut self, selector: Html)
        ensures
            final(self)@ == (TableRowView {
                rgt: old(self)@.rgt.push(spec_contained(SELECTOR_CONTAINER_STYLE@, selector@)),
                ..old(self)@
            }),
    {
        self.push(Self::contained(SELECTOR_CONTAINER_STYLE, selector));
    }

    /// Appends a separator.
    pub fn push_sep(&mut self, sep: Html)
        ensures
            final(self)@ == (TableRowView {
                rgt: old(self)@.rgt.push(spec_contained(SEP_CONTAINER_STYLE@, sep@)),
                ..old(self)@
            }),
    {
        self.push(Self::contained(SEP_CONTAINER_STYLE, sep));
    }

    /// Appends a value.
    pub fn push_value(&mut self, value: Html)
        ensures
            final(self)@ == (TableRowView {
                rgt: old(self)@.rgt.push(spec_contained(VALUE_CONTAINER_STYLE@, value@)),
                ..old(self)@
            }),
    {
        self.push(Self::contained(VALUE_CONTAINER_STYLE, value));
    }

    /// Appends a value that takes little room.
    pub fn push_tiny_value(&mut self, value: Html)
        ensures
            final(self)@ == (TableRowView {
                rgt: old(self)@.rgt.push(spec_contained(TINY_VALUE_CONTAINER_STYLE@, value@)),
                ..old(self)@
            }),
    {
        self.push(Self::contained(TINY_VALUE_CONTAINER_STYLE, value));
    }

    /// Appends a value that takes the whole right side.
    pub fn push_single_value(&mut self, value: Html)
        ensures
            final(self)@ == (TableRowView {
                rgt: old(self)@.rgt.push(spec_contained(SINGLE_VALUE_CONTAINER_STYLE@, value@)),
                ..old(self)@
            }),
    {
        self.push(Self::contained(SINGLE_VALUE_CONTAINER_STYLE, value));
    }

    /// Appends a selector and the value that goes with it.
    pub fn push_single_selector_and_value(&mut self, selector: Html, value: Html)
        ensures
            final(self)@ == (TableRowView {
                rgt: old(self)@.rgt.push(
                    spec_contained(SELECTOR_CONTAINER_STYLE@, selector@),
                ).push(spec_contained(VALUE_CONTAINER_STYLE@, value@)),
                ..old(self)@
            }),
    {
        self.push(Self::contained(SELECTOR_CONTAINER_STYLE, selector));
        self.push(Self::contained(VALUE_CONTAINER_STYLE, value));
    }

    /// Appends a button that shows `txt` and asks for `action` when it is clicked.
    pub fn push_button(&mut self, txt: &str, action: OnClickAction)
        ensures
            final(self)@ == (TableRowView {
                rgt: old(self)@.rgt.push(
                    spec_contained(SEP_CONTAINER_STYLE@, spec_button(txt@, action)),
                ),
                ..old(self)@
            }),
    {
        let label = single(text(txt));
        let style = String::from_str(BUTTON_STYLE);
        proof {
            lemma_div_view(None, style, Some(action), label);
        }
        let button = Html::Div { id: None, style, onclick: Some(action), children: label };
        self.push(Self::contained(SEP_CONTAINER_STYLE, button));
    }
}

} // verus!
