use vertigo::dom_id::DomId;
use vertigo::game_of_life::{ClickAction, create_matrix, css_button, css_cell, css_row, css_wrapper, next_generation, State};
use vertigo::hooks::{HookAction, Hooks};

#[test]
fn hooks_fire_in_registration_order() {
    let mut h = Hooks::new();
    h.on_before_transaction(HookAction::Callback { id: 1 });
    h.on_after_transaction(HookAction::Callback { id: 10 });
    h.on_before_transaction(HookAction::Callback { id: 2 });
    h.on_after_transaction(HookAction::FlushDriver);
    assert_eq!(h.fire_start(), vec![HookAction::Callback { id: 1 }, HookAction::Callback { id: 2 }]);
    assert_eq!(h.fire_end(), vec![HookAction::Callback { id: 10 }, HookAction::FlushDriver]);
    assert_eq!(Hooks::new().fire_start(), Vec::<HookAction>::new());
}

#[test]
fn new_state_is_a_dead_board() {
    let s = State::new();
    assert_eq!(s.x_count(), 120);
    assert_eq!(s.y_count(), 70);
    assert_eq!(s.year(), 0);
    assert!(!s.timer_enable());
    assert!(!s.cell(0, 0));
    assert!(!s.cell(119, 69));
    assert_eq!(s.start_timer(), 100);
}

#[test]
fn matrix_shape() {
    let m = create_matrix(3, 2);
    assert_eq!(m, vec![vec![false; 3], vec![false; 2 + 1]]);
    assert_eq!(create_matrix(0, 0).len(), 0);
}

fn board(rows: &[&str]) -> Vec<Vec<bool>> {
    rows.iter().map(|r| r.chars().map(|c| c == '#').collect()).collect()
}

#[test]
fn blinker_oscillates() {
    let a = board(&[".....", "..#..", "..#..", "..#..", "....."]);
    let b = board(&[".....", ".....", ".###.", ".....", "....."]);
    assert_eq!(next_generation(5, 5, &a), b);
    assert_eq!(next_generation(5, 5, &b), a);
}

#[test]
fn block_is_still() {
    let a = board(&["....", ".##.", ".##.", "...."]);
    assert_eq!(next_generation(4, 4, &a), a);
}

#[test]
fn board_wraps_at_edges() {
    // a vertical blinker across the top and bottom edge
    let a = board(&["..#..", ".....", ".....", "..#..", "..#.."]);
    let b = board(&[".....", ".....", ".....", ".....", ".###."]);
    assert_eq!(next_generation(5, 5, &a), b);
}

#[test]
fn ticks_follow_the_timer() {
    let mut s = State::new();
    s.apply(ClickAction::SetCell { x: 10, y: 10, alive: !s.cell(10, 10) });
    s.apply(ClickAction::SetCell { x: 10, y: 11, alive: !s.cell(10, 11) });
    s.apply(ClickAction::SetCell { x: 10, y: 12, alive: !s.cell(10, 12) });
    s.tick();
    assert_eq!(s.year(), 0);
    assert!(s.cell(10, 11) && !s.cell(9, 11));
    s.apply(ClickAction::SetTimer { enable: true });
    s.tick();
    assert_eq!(s.year(), 1);
    assert!(s.cell(9, 11) && s.cell(10, 11) && s.cell(11, 11));
    assert!(!s.cell(10, 10) && !s.cell(10, 12));
    s.apply(ClickAction::SetCell { x: 9, y: 11, alive: !s.cell(9, 11) });
    assert!(!s.cell(9, 11));
    s.set_timer_enable(false);
    s.tick();
    assert_eq!(s.year(), 1);
}

#[test]
fn cell_styles() {
    let active = css_cell(true);
    assert_eq!(active.groups().len(), 2);
    assert_eq!(active.groups()[1], "background-color: black");
    assert_eq!(css_cell(false).groups()[1], "background-color: white");
    assert!(active.groups()[0].contains("width: 10px;"));
    assert!(css_wrapper().groups()[0].contains("background-color: #e0e0e0;"));
    assert!(css_row().groups()[0].contains("flex-direction: row;"));
    assert!(css_button().groups()[0].contains("cursor: pointer;"));
}

#[test]
fn dead_board_stays_dead() {
    let m = create_matrix(6, 4);
    assert_eq!(next_generation(6, 4, &m), m);
}

#[test]
fn dom_ids() {
    assert_eq!(DomId::root().to_u64(), 1);
    assert_eq!(DomId::from_u64(77).to_u64(), 77);
}

#[test]
fn clicks_outside_the_board_change_nothing() {
    let mut s = State::new();
    s.apply(ClickAction::SetCell { x: 120, y: 0, alive: true });
    s.apply(ClickAction::SetCell { x: 0, y: 70, alive: true });
    assert!(!s.cell(119, 0) && !s.cell(0, 69));
    s.apply(ClickAction::SetCell { x: 119, y: 69, alive: true });
    assert!(s.cell(119, 69));
}
