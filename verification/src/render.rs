use vstd::prelude::*;
use vstd::string::StringExecFns;
use crate::css::Css;
use crate::game_of_life::{
    State, LifeView, ClickAction, css_button, css_cell, css_row, css_wrapper, button_style, cell_style, row_style,
    wrapper_style,
};
use crate::text::{decimal, push_decimal};
use crate::vdom::{VDom, VDomNode};

verus! {

/// The style of a node, if it has one, as plain values.
pub open spec fn style_of(css: Option<Css>) -> Option<Seq<Seq<char>>> {
    match css {
        Some(c) => Some(c@),
        None => None,
    }
}

/// `n` is an element with the given tag name, no attributes, the given
/// style and click handler, and `n_children` children.
pub open spec fn is_element(
    n: VDomNode,
    name: Seq<char>,
    style: Option<Seq<Seq<char>>>,
    on_click: Option<ClickAction>,
    n_children: nat,
) -> bool {
    &&& n.name@ == name
    &&& n.attr@.len() == 0
    &&& style_of(n.css) == style
    &&& n.on_click == on_click
    &&& n.child@.len() == n_children
}

/// `v` is a text node showing `s`.
pub open spec fn is_text(v: VDom, s: Seq<char>) -> bool {
    v matches VDom::Text { value } && value@ == s
}

/// `v` is a plain `div` holding only the text `s`.
pub open spec fn is_text_div(v: VDom, s: Seq<char>) -> bool {
    v matches VDom::Node { node } && is_element(node, "div"@, None, None, 1) && is_text(node.child@[0], s)
}

/// The header of the game: its title, the year, and a button that stops the
/// timer when it runs, else starts it.
pub open spec fn is_header(n: VDomNode, s: LifeView) -> bool {
    &&& is_element(n, "div"@, None, None, 3)
    &&& is_text_div(n.child@[0], "Game of life"@)
    &&& is_text_div(n.child@[1], "year = "@ + decimal(s.year as nat))
    &&& n.child@[2] matches VDom::Node { node: b } && is_element(
        b,
        "button"@,
        Some(button_style()),
        Some(ClickAction::SetTimer { enable: !s.timer_enable }),
        1,
    ) && is_text(b.child@[0], if s.timer_enable { "Stop"@ } else { "Start"@ })
}

/// The cell in column `x` of row `y`: a childless `div` styled as a live or
/// dead cell, whose click sets the cell to the opposite of what it shows.
pub open spec fn is_cell(v: VDom, s: LifeView, x: int, y: int) -> bool {
    v matches VDom::Node { node } && is_element(
        node,
        "div"@,
        Some(cell_style(s.grid[y][x])),
        Some(ClickAction::SetCell { x: x as u16, y: y as u16, alive: !s.grid[y][x] }),
        0,
    )
}

/// Row `y` of the board: a `div` styled as a row, holding its cells in order.
pub open spec fn is_row(n: VDomNode, s: LifeView, y: int) -> bool {
    &&& is_element(n, "div"@, Some(row_style()), None, s.x_count as nat)
    &&& forall|x: int|
        0 <= x < s.x_count ==> #[trigger] is_cell(n.child@[x], s, x, y)
}

/// The board: a `div` holding its rows in order.
pub open spec fn is_matrix(n: VDomNode, s: LifeView) -> bool {
    &&& is_element(n, "div"@, None, None, s.y_count as nat)
    &&& forall|y: int|
        0 <= y < s.y_count ==> (#[trigger] n.child@[y] matches VDom::Node { node } && is_row(node, s, y))
}

fn text_div(value: String) -> (v: VDom)
    ensures
        is_text_div(v, value@),
{
    let mut node = VDomNode::new("div");
    node.add_child(VDom::Text { value });
    VDom::Node { node }
}

/// The header: title, year, and the start or stop button.
pub fn render_header(state: &State) -> (n: VDomNode)
    ensures
        is_header(n, state@),
{
    let mut year = String::from_str("year = ");
    push_decimal(&mut year, state.year() as u64);
    let running = state.timer_enable();
    let mut button = VDomNode::new("button");
    button.css = Some(css_button());
    if running {
        button.add_child(VDom::text("Stop"));
    } else {
        button.add_child(VDom::text("Start"));
    }
    button.on_click = Some(ClickAction::SetTimer { enable: !running });
    let mut header = VDomNode::new("div");
    header.add_child(text_div(String::from_str("Game of life")));
    header.add_child(text_div(year));
    header.add_child(VDom::Node { node: button });
    header
}

/// The cell in column `x` of row `y`; a click on it sets it to the
/// opposite of what it shows now.
pub fn render_cell(state: &State, x: u16, y: u16) -> (n: VDomNode)
    requires
        x < state@.x_count,
        y < state@.y_count,
    ensures
        is_cell(VDom::Node { node: n }, state@, x as int, y as int),
{
    let is_active = state.cell(x, y);
    let mut node = VDomNode::new("div");
    node.on_click = Some(ClickAction::SetCell { x, y, alive: !is_active });
    node.css = Some(css_cell(is_active));
    node
}

/// Row `y` of the board.
pub fn render_row(state: &State, y: u16) -> (n: VDomNode)
    requires
        y < state@.y_count,
    ensures
        is_row(n, state@, y as int),
{
    let x_count = state.x_count();
    let mut node = VDomNode::new("div");
    node.css = Some(css_row());
    let mut x: u16 = 0;
    while x < x_count
        invariant
            x <= x_count,
            x_count == state@.x_count,
            y < state@.y_count,
            is_element(node, "div"@, Some(row_style()), None, x as nat),
            forall|i: int| 0 <= i < x ==> #[trigger] is_cell(node.child@[i], state@, i, y as int),
        decreases x_count - x,
    {
        let cell = render_cell(state, x, y);
        let ghost before = node.child@;
        node.add_child(VDom::Node { node: cell });
        assert forall|i: int| 0 <= i < x + 1 implies #[trigger] is_cell(node.child@[i], state@, i, y as int) by {
            if i < x {
                assert(node.child@[i] == before[i]);
            }
        }
        x = x + 1;
    }
    node
}

/// The board, row by row.
pub fn render_matrix(state: &State) -> (n: VDomNode)
    ensures
        is_matrix(n, state@),
{
    let y_count = state.y_count();
    let mut node = VDomNode::new("div");
    let mut y: u16 = 0;
    while y < y_count
        invariant
            y <= y_count,
            y_count == state@.y_count,
            is_element(node, "div"@, None, None, y as nat),
            forall|j: int|
                0 <= j < y ==> (#[trigger] node.child@[j] matches VDom::Node { node: r } && is_row(r, state@, j)),
        decreases y_count - y,
    {
        let row = render_row(state, y);
        let ghost before = node.child@;
        node.add_child(VDom::Node { node: row });
        assert forall|j: int| 0 <= j < y + 1 implies (#[trigger] node.child@[j] matches VDom::Node { node: r }
            && is_row(r, state@, j)) by {
            if j < y {
                assert(node.child@[j] == before[j]);
            }
        }
        y = y + 1;
    }
    node
}

/// The whole game: a framed `div` holding the header and the board.
pub fn render(state: &State) -> (n: VDomNode)
    ensures
        is_element(n, "div"@, Some(wrapper_style()), None, 2),
        n.child@[0] matches VDom::Node { node: h } && is_header(h, state@),
        n.child@[1] matches VDom::Node { node: m } && is_matrix(m, state@),
{
    let mut node = VDomNode::new("div");
    node.css = Some(css_wrapper());
    node.add_child(VDom::Node { node: render_header(state) });
    node.add_child(VDom::Node { node: render_matrix(state) });
    node
}

} // verus!
