//! A tree of markup.

use vstd::prelude::*;
use vstd::string::*;

verus! {

/// Identifier of one filter of the dashboard.
#[derive(Clone, Copy, Debug, PartialEq, Eq, Structural)]
pub struct FilterUid {
    pub id: u64,
}

/// What a click on an element asks for.
#[derive(Clone, Copy, Debug, PartialEq, Eq, Structural)]
pub enum OnClickAction {
    /// The message with this number is sent to the model.
    Send(u64),
    /// A filter moves one place to the left or to the right.
    MoveFilter { uid: FilterUid, left: bool },
}

/// A piece of markup.
#[derive(Debug, PartialEq, Eq)]
pub enum Html {
    /// Plain text.
    Text(String),
    /// A block with a style, which may have a name and react to clicks.
    Div { id: Option<&'static str>, style: String, onclick: Option<OnClickAction>, children: Vec<Html> },
    /// Pieces that stand side by side.
    List(Vec<Html>),
}

/// A piece of markup, with its text as characters and its parts as a sequence.
pub enum HtmlView {
    Text(Seq<char>),
    Div { id: Option<Seq<char>>, style: Seq<char>, onclick: Option<OnClickAction>, children: Seq<HtmlView> },
    List(Seq<HtmlView>),
}

impl View for Html {
    type V = HtmlView;

    open spec fn view(&self) -> HtmlView {
        self.tree()
    }
}

impl Html {
    /// The piece with its text as characters and its parts as a sequence.
    pub open spec fn tree(&self) -> HtmlView
        decreases self,
    {
        match self {
            Html::Text(text) => HtmlView::Text(text@),
            Html::Div { id, style, onclick, children } => HtmlView::Div {
                id: match id {
                    Some(id) => Some(id@),
                    None => None,
                },
                style: style@,
                onclick: *onclick,
                children: Seq::new(
                    children@.len(),
                    |i: int|
                        if 0 <= i < children@.len() {
                            children@[i].tree()
                        } else {
                            HtmlView::List(Seq::empty())
                        },
                ),
            },
            Html::List(items) => HtmlView::List(
                Seq::new(
                    items@.len(),
                    |i: int|
                        if 0 <= i < items@.len() {
                            items@[i].tree()
                        } else {
                            HtmlView::List(Seq::empty())
                        },
                ),
            ),
        }
    }
}

/// The views of the pieces of `items`, in the same order.
pub open spec fn views(items: Seq<Html>) -> Seq<HtmlView> {
    Seq::new(items.len(), |i: int| items[i].tree())
}

/// A block with no name that does not react to clicks.
pub open spec fn spec_div(style: Seq<char>, children: Seq<HtmlView>) -> HtmlView {
    HtmlView::Div { id: None, style, onclick: None, children }
}

/// The view of a block is made of the views of its parts.
pub proof fn lemma_div_view(
    id: Option<&'static str>,
    style: String,
    onclick: Option<OnClickAction>,
    children: Vec<Html>,
)
    ensures
        (Html::Div { id, style, onclick, children })@ == (HtmlView::Div {
            id: match id {
                Some(id) => Some(id@),
                None => None,
            },
            style: style@,
            onclick,
            children: views(children@),
        }),
{
    let whole = (Html::Div { id, style, onclick, children })@;
    assert(whole->Div_children =~= views(children@));
}

/// The view of pieces side by side is made of their views.
pub proof fn lemma_list_view(items: Vec<Html>)
    ensures
        Html::List(items)@ == HtmlView::List(views(items@)),
{
    let whole = Html::List(items)@;
    assert(whole->List_0 =~= views(items@));
}

/// The views of a sequence with one more piece.
pub proof fn lemma_views_push(items: Seq<Html>, item: Html)
    ensures
        views(items.push(item)) == views(items).push(item@),
{
    assert(views(items.push(item)) =~= views(items).push(item@));
}

/// Plain text.
pub fn text(content: &str) -> (res: Html)
    ensures
        res@ == HtmlView::Text(content@),
{
    Html::Text(String::from_str(content))
}

/// A block with the style `style` around `children`.
pub fn div(style: &str, children: Vec<Html>) -> (res: Html)
    ensures
        res@ == spec_div(style@, views(children@)),
{
    let style = String::from_str(style);
    proof {
        lemma_div_view(None, style, None, children);
    }
    Html::Div { id: None, style, onclick: None, children }
}

/// A block with a name, with the style `style` around `children`, that may
/// react to clicks.
pub fn named_div(
    id: &'static str,
    style: String,
    onclick: Option<OnClickAction>,
    children: Vec<Html>,
) -> (res: Html)
    ensures
        res@ == (HtmlView::Div { id: Some(id@), style: style@, onclick, children: views(children@) }),
{
    proof {
        lemma_div_view(Some(id), style, onclick, children);
    }
    Html::Div { id: Some(id), style, onclick, children }
}

/// Pieces side by side.
pub fn list(items: Vec<Html>) -> (res: Html)
    ensures
        res@ == HtmlView::List(views(items@)),
{
    proof {
        lemma_list_view(items);
    }
    Html::List(items)
}

/// One piece as a sequence.
pub fn single(item: Html) -> (res: Vec<Html>)
    ensures
        res@ == seq![item],
        views(res@) == seq![item@],
{
    let mut res: Vec<Html> = Vec::new();
    res.push(item);
    assert(res@ =~= seq![item]);
    assert(views(res@) =~= seq![item@]);
    res
}

/// Two pieces as a sequence.
pub fn pair(first: Html, second: Html) -> (res: Vec<Html>)
    ensures
        res@ == seq![first, second],
        views(res@) == seq![first@, second@],
{
    let mut res: Vec<Html> = Vec::new();
    res.push(first);
    res.push(second);
    assert(res@ =~= seq![first, second]);
    assert(views(res@) =~= seq![first@, second@]);
    res
}

} // verus!
