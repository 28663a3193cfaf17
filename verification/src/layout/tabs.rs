//! A row of tabs, one for each filter.

use vstd::prelude::*;
use vstd::string::*;
use crate::layout::html::{
    lemma_div_view, lemma_views_push, list, named_div, pair, single, views, FilterUid,
    Html, HtmlView, OnClickAction,
};

verus! {

/// Height of the row, in percent.
pub const HEIGHT: usize = 100;

/// Width of a separator, in percent.
pub const SEP_WIDTH: usize = 2;

/// Greatest width of a tab, in percent.
pub const MAX_WIDTH: usize = 30;

/// Least width of a tab, in percent.
pub const MIN_WIDTH: usize = 5;

pub const TABS_ROW: &'static str = "height: 100%; display: table; table-layout: fixed;";

pub const TAB_STYLE: &'static str =
    "height: 100%; width: auto; display: table; text-align: center; border-radius: 5px 5px 0px 0px; border-left: 1px solid black; border-right: 1px solid black; border-top: 1px solid black;";

pub const ACTIVE_TAB_STYLE: &'static str =
    "height: 100%; width: auto; display: table; text-align: center; border-radius: 5px 5px 0px 0px; border-left: 1px solid black; border-right: 1px solid black; border-top: 1px solid black; position: relative; z-index: 650;";

pub const EDITED_TAB_STYLE: &'static str = " font-style: italic;";

pub const OUTTER_CELL_STYLE: &'static str =
    "height: 100%; min-width: 5%; display: table-cell; cursor: pointer;";

pub const CONTENT_STYLE: &'static str =
    "font-size: 120%; color: white; text-shadow: -1px 0 black, 0 1px black, 1px 0 black, 0 -1px black; vertical-align: middle; display: table-cell; padding: 0% 10px; text-decoration: underline; z-index: 650; position: relative;";

pub const SEP: &'static str = "width: 10%; height: 100%; display: table-cell;";

pub const END_SEP: &'static str = "width: auto; height: 100%; display: table-cell;";

/// Whether a tab is the active one, and if so, what is known of the filter
/// it stands for.
#[derive(Clone, Copy, Debug, PartialEq, Eq, Structural)]
pub enum IsActive {
    No,
    Yes,
    YesWith { can_move_left: bool, can_move_right: bool, uid: FilterUid },
}

impl IsActive {
    pub open spec fn spec_to_bool(&self) -> bool {
        !(self is No)
    }

    #[verifier::when_used_as_spec(spec_to_bool)]
    pub fn to_bool(&self) -> (res: bool)
        ensures
            res == self.spec_to_bool(),
    {
        match self {
            IsActive::No => false,
            IsActive::Yes | IsActive::YesWith { .. } => true,
        }
    }

    pub fn of_bool(active: bool) -> (res: Self)
        ensures
            res == if active {
                IsActive::Yes
            } else {
                IsActive::No
            },
    {
        if active {
            IsActive::Yes
        } else {
            IsActive::No
        }
    }

    /// For an active tab, asks `get` whether the filter can move to the
    /// left, whether it can move to the right, and which filter it is. An
    /// inactive tab stays as it is, and `get` is not called.
    pub fn with_first_last_uid<F: FnOnce() -> (bool, bool, FilterUid)>(self, get: F) -> (res: Self)
        requires
            get.requires(()),
        ensures
            self is No ==> res is No,
            !(self is No) ==> res is YesWith && get.ensures(
                (),
                (res->can_move_left, res->can_move_right, res->uid),
            ),
    {
        match self {
            IsActive::No => IsActive::No,
            IsActive::YesWith { .. } | IsActive::Yes => {
                let (can_move_left, can_move_right, uid) = get();
                IsActive::YesWith { can_move_left, can_move_right, uid }
            },
        }
    }
}

/// The style of a tab of the colour `color`.
pub open spec fn spec_style(color: Seq<char>, active: bool, edited: bool) -> Seq<char> {
    (if active {
        ACTIVE_TAB_STYLE@
    } else {
        TAB_STYLE@
    }) + (if active {
        " box-shadow: 4px -2px 34px 7px "@
    } else {
        " box-shadow: 4px -2px 20px 1px "@
    }) + color + ";"@ + (if edited {
        EDITED_TAB_STYLE@
    } else {
        Seq::empty()
    }) + " background: linear-gradient("@ + color + ", black);"@
}

/// The style of a tab of the colour `color`: an active tab stands out, an
/// edited one is in italics.
pub fn style(color: &str, active: bool, edited: bool) -> (res: String)
    ensures
        res@ == spec_style(color@, active, edited),
{
    let mut res = if active {
        String::from_str(ACTIVE_TAB_STYLE)
    } else {
        String::from_str(TAB_STYLE)
    };
    if active {
        res.append(" box-shadow: 4px -2px 34px 7px ");
    } else {
        res.append(" box-shadow: 4px -2px 20px 1px ");
    }
    res.append(color);
    res.append(";");
    if edited {
        res.append(EDITED_TAB_STYLE);
    }
    res.append(" background: linear-gradient(");
    res.append(color);
    res.append(", black);");
    assert(res@ =~= spec_style(color@, active, edited));
    res
}

/// One tab: a cell that reacts to clicks, around the tab itself, around its content.
pub open spec fn spec_raw_tab(
    color: Seq<char>,
    active: bool,
    edited: bool,
    onclick: OnClickAction,
    content: HtmlView,
) -> HtmlView {
    HtmlView::Div {
        id: Some("filter_tab_cell"@),
        style: OUTTER_CELL_STYLE@,
        onclick: Some(onclick),
        children: seq![
            HtmlView::Div {
                id: Some("filter_tab"@),
                style: spec_style(color, active, edited),
                onclick: None,
                children: seq![
                    HtmlView::Div {
                        id: Some("filter_content"@),
                        style: CONTENT_STYLE@,
                        onclick: None,
                        children: seq![content],
                    },
                ],
            },
        ],
    }
}

/// The name of a tab as it is shown: between stars if the filter is edited.
pub open spec fn spec_label(text: Seq<char>, edited: bool) -> Seq<char> {
    if edited {
        "*"@ + text + "*"@
    } else {
        text
    }
}

/// The tab of a filter, between the arrows that move it where it is active
/// and can move.
pub open spec fn spec_tab(
    text: Seq<char>,
    color: Seq<char>,
    active: IsActive,
    edited: bool,
    onclick: OnClickAction,
) -> HtmlView {
    let tab = spec_raw_tab(
        color,
        active.spec_to_bool(),
        edited,
        onclick,
        HtmlView::Text(spec_label(text, edited)),
    );
    match active {
        IsActive::YesWith { can_move_left, can_move_right, uid } => {
            let with_left = if can_move_left {
                HtmlView::List(
                    seq![
                        spec_raw_tab(
                            color,
                            false,
                            false,
                            OnClickAction::MoveFilter { uid, left: true },
                            HtmlView::Text("<"@),
                        ),
                        tab,
                    ],
                )
            } else {
                tab
            };
            if can_move_right {
                HtmlView::List(
                    seq![
                        with_left,
                        spec_raw_tab(
                            color,
                            false,
                            false,
                            OnClickAction::MoveFilter { uid, left: false },
                            HtmlView::Text(">"@),
                        ),
                    ],
                )
            } else {
                with_left
            }
        },
        _ => tab,
    }
}

/// A block with a name and nothing in it.
pub open spec fn spec_blank(id: Seq<char>, style: Seq<char>) -> HtmlView {
    HtmlView::Div { id: Some(id), style, onclick: None, children: Seq::empty() }
}

/// What a row of tabs holds.
pub struct TabsView {
    pub style: Seq<char>,
    pub tabs: Seq<HtmlView>,
}

/// A row of tabs.
#[derive(Debug)]
pub struct Tabs {
    style: &'static str,
    tabs: Vec<Html>,
}

impl View for Tabs {
    type V = TabsView;

    closed spec fn view(&self) -> TabsView {
        TabsView { style: self.style@, tabs: views(self.tabs@) }
    }
}

/// A block with a name and nothing in it.
fn blank(id: &'static str, style: &str) -> (res: Html)
    ensures
        res@ == spec_blank(id@, style@),
{
    let children: Vec<Html> = Vec::new();
    assert(views(children@) =~= Seq::empty());
    named_div(id, String::from_str(style), None, children)
}

impl Tabs {
    /// A row without tabs.
    pub fn new() -> (res: Self)
        ensures
            res@ == (TabsView { style: TABS_ROW@, tabs: Seq::empty() }),
    {
        let res = Tabs { style: TABS_ROW, tabs: Vec::new() };
        assert(views(res.tabs@) =~= Seq::empty());
        res
    }

    /// One tab of the colour `color` around `content`.
    pub fn raw_tab(
        color: &str,
        active: bool,
        edited: bool,
        onclick: OnClickAction,
        content: Html,
    ) -> (res: Html)
        ensures
            res@ == spec_raw_tab(color@, active, edited, onclick, content@),
    {
        let inner = named_div(
            "filter_content",
            String::from_str(CONTENT_STYLE),
            None,
            single(content),
        );
        let tab = named_div("filter_tab", style(color, active, edited), None, single(inner));
        named_div("filter_tab_cell", String::from_str(OUTTER_CELL_STYLE), Some(onclick), single(tab))
    }

    /// The name of a tab as it is shown.
    fn label(text: &str, edited: bool) -> (res: Html)
        ensures
            res@ == HtmlView::Text(spec_label(text@, edited)),
    {
        if edited {
            let mut label = String::from_str("*");
            label.append(text);
            label.append("*");
            Html::Text(label)
        } else {
            Html::Text(String::from_str(text))
        }
    }

    /// Appends the tab of a filter. The tab of an active filter that can
    /// move has an arrow on the side to which it can move.
    pub fn push_tab(
        &mut self,
        text: &str,
        color: &str,
        active: IsActive,
        edited: bool,
        onclick: OnClickAction,
    )
        ensures
            final(self)@ == (TabsView {
                tabs: old(self)@.tabs.push(spec_tab(text@, color@, active, edited, onclick)),
                ..old(self)@
            }),
    {
        let mut res = Self::raw_tab(
            color,
            active.to_bool(),
            edited,
            onclick,
            Self::label(text, edited),
        );
        match active {
            IsActive::YesWith { can_move_left, can_move_right, uid } => {
                if can_move_left {
                    let arrow = Self::raw_tab(
                        color,
                        false,
                        false,
                        OnClickAction::MoveFilter { uid, left: true },
                        Html::Text(String::from_str("<")),
                    );
                    res = list(pair(arrow, res));
                }
                if can_move_right {
                    let arrow = Self::raw_tab(
                        color,
                        false,
                        false,
                        OnClickAction::MoveFilter { uid, left: false },
                        Html::Text(String::from_str(">")),
                    );
                    res = list(pair(res, arrow));
                }
            },
            _ => {},
        }
        proof {
            lemma_views_push(self.tabs@, res);
        }
        self.tabs.push(res);
    }

    /// Appends a separator.
    pub fn push_sep(&mut self)
        ensures
            final(self)@ == (TabsView {
                tabs: old(self)@.tabs.push(spec_blank("filter_tab_sep"@, SEP@)),
                ..old(self)@
            }),
    {
        let sep = blank("filter_tab_sep", SEP);
        proof {
            lemma_views_push(self.tabs@, sep);
        }
        self.tabs.push(sep);
    }

    /// The markup of the row: the tabs in the order in which they were
    /// pushed, then a separator that takes what room is left.
    pub fn render(self) -> (res: Html)
        ensures
            res@ == (HtmlView::Div {
                id: None,
                style: self@.style,
                onclick: None,
                children: self@.tabs.push(spec_blank("filter_tab_end_sep"@, END_SEP@)),
            }),
    {
        let mut tabs = self.tabs;
        let end = blank("filter_tab_end_sep", END_SEP);
        proof {
            lemma_views_push(tabs@, end);
        }
        tabs.push(end);
        let style = String::from_str(self.style);
        proof {
            lemma_div_view(None, style, None, tabs);
        }
        Html::Div { id: None, style, onclick: None, children: tabs }
    }
}

} // verus!
