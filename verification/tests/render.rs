use vertigo::game_of_life::{ClickAction, css_button, css_cell, css_row, css_wrapper, State};
use vertigo::render::{render, render_cell, render_header, render_matrix, render_row};
use vertigo::vdom::{VDom, VDomNode};

fn node(v: &VDom) -> &VDomNode {
    match v {
        VDom::Node { node } => node,
        VDom::Text { .. } => panic!("expected an element"),
    }
}

fn text(v: &VDom) -> &str {
    match v {
        VDom::Text { value } => value.as_str(),
        VDom::Node { .. } => panic!("expected a text node"),
    }
}

fn groups(n: &VDomNode) -> Vec<String> {
    n.css.as_ref().map(|c| c.groups().clone()).unwrap_or_default()
}

#[test]
fn header_shows_year_and_start_button() {
    let s = State::new();
    let h = render_header(&s);
    assert_eq!(h.name, "div");
    assert_eq!(h.child.len(), 3);
    assert_eq!(text(&node(&h.child[0]).child[0]), "Game of life");
    assert_eq!(text(&node(&h.child[1]).child[0]), "year = 0");
    let button = node(&h.child[2]);
    assert_eq!(button.name, "button");
    assert_eq!(text(&button.child[0]), "Start");
    assert_eq!(button.on_click, Some(ClickAction::SetTimer { enable: true }));
    assert_eq!(groups(button), css_button().groups().clone());
}

#[test]
fn header_of_running_game_shows_stop() {
    let mut s = State::new();
    s.apply(ClickAction::SetTimer { enable: true });
    s.tick();
    s.tick();
    let h = render_header(&s);
    assert_eq!(text(&node(&h.child[1]).child[0]), "year = 2");
    let button = node(&h.child[2]);
    assert_eq!(text(&button.child[0]), "Stop");
    assert_eq!(button.on_click, Some(ClickAction::SetTimer { enable: false }));
}

#[test]
fn cells_rows_and_board() {
    let mut s = State::new();
    s.apply(ClickAction::SetCell { x: 3, y: 2, alive: true });
    let c = render_cell(&s, 3, 2);
    assert_eq!(c.name, "div");
    assert_eq!(c.child.len(), 0);
    assert_eq!(c.on_click, Some(ClickAction::SetCell { x: 3, y: 2, alive: false }));
    assert_eq!(groups(&c), css_cell(true).groups().clone());
    assert_eq!(groups(&render_cell(&s, 4, 2)), css_cell(false).groups().clone());

    let r = render_row(&s, 2);
    assert_eq!(r.child.len(), 120);
    assert_eq!(groups(&r), css_row().groups().clone());
    assert_eq!(node(&r.child[3]).on_click, Some(ClickAction::SetCell { x: 3, y: 2, alive: false }));
    assert_eq!(groups(node(&r.child[3])), css_cell(true).groups().clone());

    let m = render_matrix(&s);
    assert_eq!(m.child.len(), 70);
    assert_eq!(
        node(&node(&m.child[69]).child[119]).on_click,
        Some(ClickAction::SetCell { x: 119, y: 69, alive: true })
    );
}

#[test]
fn whole_game() {
    let s = State::new();
    let g = render(&s);
    assert_eq!(g.name, "div");
    assert_eq!(g.child.len(), 2);
    assert_eq!(groups(&g), css_wrapper().groups().clone());
    assert_eq!(node(&g.child[0]).child.len(), 3);
    assert_eq!(node(&g.child[1]).child.len(), 70);
}

#[test]
fn a_cell_click_sets_what_was_drawn() {
    let mut s = State::new();
    let c = render_cell(&s, 5, 5);
    let action = c.on_click.unwrap();
    s.apply(action);
    assert!(s.cell(5, 5));
    // a second click before the cell is drawn again keeps it alive
    s.apply(action);
    assert!(s.cell(5, 5));
    let c = render_cell(&s, 5, 5);
    s.apply(c.on_click.unwrap());
    assert!(!s.cell(5, 5));
}

#[test]
fn the_header_button_starts_and_stops() {
    let mut s = State::new();
    let start = node(&render_header(&s).child[2]).on_click.unwrap();
    s.apply(start);
    assert!(s.timer_enable());
    assert_eq!(s.year(), 0);
    let stop = node(&render_header(&s).child[2]).on_click.unwrap();
    s.apply(stop);
    assert!(!s.timer_enable());
}
