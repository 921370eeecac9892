use vstd::prelude::*;
use crate::command::{CommandView, bulk_json, command_json};
use crate::driver::{DomState, KeyDownStep};
use crate::driver_data::{DataView, EventCallback, EventKind, ancestors, first_handler, node_handler};
use crate::game_of_life::{dead_grid, grid_shape, next_grid, LifeView, ClickAction, prev, next};
use crate::render::{is_header, is_cell};
use crate::vdom::VDom;
use crate::dom_id::root_id;
use crate::text::{escape, escape_char, hex_char};
use crate::json::{join, lemma_join_push};
use crate::visited::{transition_handlers, hover_handlers};

verus! {

/// A flush leaves nothing queued, so a second flush right after it sends
/// nothing and changes nothing.
pub proof fn lemma_flush_then_flush_sends_nothing(s: DomState)
    ensures
        s.flushed().flush_output() is None,
        s.flushed().flushed() == s.flushed(),
{
    assert(s.flushed().flushed() =~= s.flushed());
}

/// The state after queuing `cmds` one after the other.
pub open spec fn queue_all(s: DomState, cmds: Seq<CommandView>) -> DomState
    decreases cmds.len(),
{
    if cmds.len() == 0 {
        s
    } else {
        queue_all(s, cmds.drop_last()).queue(cmds.last())
    }
}

/// Queuing commands appends them, in order, and changes nothing else.
pub proof fn lemma_queue_all(s: DomState, cmds: Seq<CommandView>)
    ensures
        queue_all(s, cmds) == (DomState { commands: s.commands + cmds, ..s }),
    decreases cmds.len(),
{
    if cmds.len() == 0 {
        assert(s.commands + cmds =~= s.commands);
    } else {
        lemma_queue_all(s, cmds.drop_last());
        assert(s.commands + cmds.drop_last() + seq![cmds.last()] =~= s.commands + cmds);
        assert((s.commands + cmds.drop_last()).push(cmds.last()) =~= s.commands + cmds);
    }
}

/// Every queued command is sent by exactly one flush, in queue order: after
/// a flush, queuing the batch `a` and flushing sends exactly `a`; queuing
/// the batch `b` after that and flushing again sends exactly `b`; a flush
/// of an empty batch sends nothing.
pub proof fn lemma_flush_sends_each_batch_once(s: DomState, a: Seq<CommandView>, b: Seq<CommandView>)
    ensures
        ({
            let s1 = queue_all(s.flushed(), a);
            let s2 = queue_all(s1.flushed(), b);
            &&& s1.flush_output() == (if a.len() == 0 { None } else { Some(bulk_json(a)) })
            &&& s2.flush_output() == (if b.len() == 0 { None } else { Some(bulk_json(b)) })
            &&& s2.flushed().flush_output() is None
        }),
{
    let s1 = queue_all(s.flushed(), a);
    lemma_queue_all(s.flushed(), a);
    assert(Seq::<CommandView>::empty() + a =~= a);
    lemma_queue_all(s1.flushed(), b);
    assert(Seq::<CommandView>::empty() + b =~= b);
}

/// Queuing one more command extends the batch that the next flush sends by
/// exactly that command's JSON object, at its end.
pub proof fn lemma_queue_extends_batch(s: DomState, c: CommandView)
    ensures
        s.queue(c).flush_output() == Some(
            if s.commands.len() == 0 {
                seq!['['] + command_json(c) + seq![']']
            } else {
                bulk_json(s.commands).drop_last() + seq![','] + command_json(c) + seq![']']
            },
        ),
{
    let parts = s.commands.map_values(|x: CommandView| command_json(x));
    let all = s.commands.push(c).map_values(|x: CommandView| command_json(x));
    assert(all =~= parts.push(command_json(c)));
    lemma_join_push(parts, command_json(c));
    if s.commands.len() == 0 {
        assert(seq!['['] + join(all) + seq![']'] =~= seq!['['] + command_json(c) + seq![']']);
    } else {
        let b = bulk_json(s.commands);
        assert(b.drop_last() =~= seq!['['] + join(parts));
        assert(seq!['['] + join(all) + seq![']'] =~= b.drop_last() + seq![','] + command_json(c) + seq![']']);
    }
}

/// The chain of nodes that an event travels starts at the node itself, and
/// each node in it is followed by its parent; it stops at a node without a
/// parent, or after `fuel` steps.
pub proof fn lemma_chain_follows_parents(parents: Map<u64, u64>, id: u64, fuel: nat)
    ensures
        ({
            let a = ancestors(parents, id, fuel);
            &&& a.len() >= 1
            &&& a.len() <= fuel + 1
            &&& a[0] == id
            &&& forall|i: int|
                0 <= i < a.len() - 1 ==> parents.contains_key(#[trigger] a[i]) && parents[a[i]] == a[i + 1]
            &&& a.len() < fuel + 1 ==> !parents.contains_key(a[a.len() - 1])
        }),
    decreases fuel,
{
    let a = ancestors(parents, id, fuel);
    if fuel > 0 && parents.contains_key(id) {
        let p = parents[id];
        lemma_chain_follows_parents(parents, p, (fuel - 1) as nat);
        let rest = ancestors(parents, p, (fuel - 1) as nat);
        assert(a == seq![id] + rest);
        assert forall|i: int| 0 <= i < a.len() - 1 implies parents.contains_key(#[trigger] a[i]) && parents[a[i]] == a[i + 1] by {
            if i > 0 {
                assert(a[i] == rest[i - 1]);
                assert(a[i + 1] == rest[i]);
            }
        }
        if a.len() < fuel + 1 {
            assert(a[a.len() - 1] == rest[rest.len() - 1]);
        }
    }
}

/// An event on a node that has a handler of its kind reaches that handler.
pub proof fn lemma_own_handler_first(d: DataView, id: u64, kind: EventKind)
    requires
        node_handler(d.elements, id, kind) is Some,
    ensures
        d.find_event(id, kind) == node_handler(d.elements, id, kind),
{
    let nodes = d.all_nodes(id);
    assert(nodes[0] == id);
}

/// An event on a node without a handler of its kind goes on to the nodes
/// above it: the result is that of the rest of its chain of ancestors.
pub proof fn lemma_event_bubbles(d: DataView, id: u64, kind: EventKind)
    requires
        node_handler(d.elements, id, kind) is None,
    ensures
        d.find_event(id, kind) == first_handler(d.elements, d.all_nodes(id).drop_first(), kind),
{
    let nodes = d.all_nodes(id);
    assert(nodes[0] == id);
}

/// A handler set on an element is the one that an event of its kind on
/// that element reaches.
pub proof fn lemma_set_event_then_find(d: DataView, id: u64, h: u64)
    requires
        d.elements.contains_key(id),
    ensures
        d.set_event(id, EventCallback::OnClick { callback: Some(h) }).find_event(id, EventKind::Click) == Some(h),
        d.set_event(id, EventCallback::OnInput { callback: Some(h) }).find_event(id, EventKind::Input) == Some(h),
        d.set_event(id, EventCallback::OnKeyDown { callback: Some(h) }).find_event(id, EventKind::KeyDown) == Some(h),
        d.set_event(id, EventCallback::OnDropFile { callback: Some(h) }).find_event(id, EventKind::DropFile) == Some(h),
{
    lemma_own_handler_first(d.set_event(id, EventCallback::OnClick { callback: Some(h) }), id, EventKind::Click);
    lemma_own_handler_first(d.set_event(id, EventCallback::OnInput { callback: Some(h) }), id, EventKind::Input);
    lemma_own_handler_first(d.set_event(id, EventCallback::OnKeyDown { callback: Some(h) }), id, EventKind::KeyDown);
    lemma_own_handler_first(d.set_event(id, EventCallback::OnDropFile { callback: Some(h) }), id, EventKind::DropFile);
}

/// A removed node has no handler left.
pub proof fn lemma_removed_node_has_no_handler(d: DataView, id: u64, kind: EventKind)
    ensures
        node_handler(d.remove_node(id).elements, id, kind) is None,
{
}

proof fn lemma_transition_within(elements: Map<u64, crate::driver_data::NodeEvents>, from: Seq<u64>, exclude: Seq<u64>, kind: EventKind)
    requires
        forall|i: int| 0 <= i < from.len() ==> exclude.contains(#[trigger] from[i]),
    ensures
        transition_handlers(elements, from, exclude, kind) == Seq::<u64>::empty(),
    decreases from.len(),
{
    if from.len() > 0 {
        let rest = from.drop_last();
        assert forall|i: int| 0 <= i < rest.len() implies exclude.contains(#[trigger] rest[i]) by {
            assert(rest[i] == from[i]);
        }
        lemma_transition_within(elements, rest, exclude, kind);
        assert(exclude.contains(from[from.len() - 1]));
    }
}

/// Moving the pointer between the same nodes runs no handler.
pub proof fn lemma_hover_same_nodes_runs_nothing(elements: Map<u64, crate::driver_data::NodeEvents>, nodes: Seq<u64>)
    ensures
        hover_handlers(elements, nodes, nodes) == Seq::<u64>::empty(),
{
    assert forall|i: int| 0 <= i < nodes.len() implies nodes.contains(#[trigger] nodes[i]) by {}
    lemma_transition_within(elements, nodes, nodes, EventKind::MouseLeave);
    lemma_transition_within(elements, nodes, nodes, EventKind::MouseEnter);
    assert(Seq::<u64>::empty() + Seq::<u64>::empty() =~= Seq::<u64>::empty());
}

/// After the pointer moved over a node, moving it over the same node again
/// runs no handler and leaves the hovered nodes as they are.
pub proof fn lemma_hover_twice_runs_nothing(s: DomState, dom_id: Option<u64>)
    ensures
        ({
            let after = DomState { visited: s.hovered(dom_id), ..s };
            &&& hover_handlers(after.data.elements, after.visited, after.hovered(dom_id)) == Seq::<u64>::empty()
            &&& after.hovered(dom_id) == after.visited
        }),
{
    lemma_hover_same_nodes_runs_nothing(s.data.elements, s.hovered(dom_id));
}

/// Once a keyboard hook has stopped a key press, nothing else runs, and the
/// press is reported as stopped.
pub proof fn lemma_stopped_key_press_ends(s: DomState, hooks: Seq<u64>, dom_id: Option<u64>, hooks_run: nat)
    ensures
        s.keydown_step(hooks, dom_id, hooks_run, true) == (KeyDownStep::Finished { stop_propagation: true }),
{
}

/// Keyboard hooks run in the order they were registered, all of them
/// before the target's own key handler: with the hooks taken from a state
/// when a key press arrives, step `i` runs hook `i`, whatever the state is
/// by then.
pub proof fn lemma_hooks_before_handler(arrival: DomState, now: DomState, dom_id: Option<u64>, i: nat)
    requires
        i < arrival.data.hooks.len(),
    ensures
        now.keydown_step(arrival.data.hook_handlers(), dom_id, i, false) == (KeyDownStep::RunHook {
            handler: arrival.data.hooks[i as int].1,
        }),
{
}

/// The next generation has the shape of the board it came from.
pub proof fn lemma_next_grid_keeps_shape(g: Seq<Seq<bool>>, xc: int, yc: int)
    requires
        xc >= 0,
        yc >= 0,
    ensures
        grid_shape(next_grid(g, xc, yc), xc, yc),
{
}

/// A board without a live cell stays without one.
pub proof fn lemma_dead_board_stays_dead(xc: int, yc: int)
    requires
        xc >= 0,
        yc >= 0,
    ensures
        next_grid(dead_grid(xc, yc), xc, yc) == dead_grid(xc, yc),
{
    let g = dead_grid(xc, yc);
    let n = next_grid(g, xc, yc);
    assert forall|y: int| 0 <= y < yc implies #[trigger] n[y] =~= g[y] by {
        assert forall|x: int| 0 <= x < xc implies #[trigger] n[y][x] == g[y][x] by {
            let (xp, xn, yp, yn) = (
                crate::game_of_life::prev(x, xc),
                crate::game_of_life::next(x, xc),
                crate::game_of_life::prev(y, yc),
                crate::game_of_life::next(y, yc),
            );
            assert(!g[yp][xp] && !g[yp][x] && !g[yp][xn] && !g[y][xp] && !g[y][xn]);
            assert(!g[yn][xp] && !g[yn][x] && !g[yn][xn]);
        }
    }
    assert(n =~= g);
}

/// With the timer off, a tick changes nothing.
pub proof fn lemma_tick_without_timer_is_still(s: LifeView)
    requires
        !s.timer_enable,
    ensures
        s.tick() == s,
{
}

/// With the timer on, a tick counts one more year and keeps the board's shape.
pub proof fn lemma_tick_counts_years(s: LifeView)
    requires
        s.wf(),
        s.timer_enable,
        s.year < u32::MAX,
    ensures
        s.tick().year == s.year + 1,
        s.tick().wf(),
        s.tick().x_count == s.x_count,
        s.tick().y_count == s.y_count,
{
    lemma_next_grid_keeps_shape(s.grid, s.x_count as int, s.y_count as int);
}

/// A click on the header's button flips the timer: "Stop" turns it off,
/// "Start" turns it on; the year and the board stay as they are.
pub proof fn lemma_header_button_flips_timer(n: crate::vdom::VDomNode, s: LifeView)
    requires
        is_header(n, s),
    ensures
        n.child@[2] matches VDom::Node { node: b } && b.on_click matches Some(a) && s.apply(a) == (LifeView {
            timer_enable: !s.timer_enable,
            ..s
        }),
{
}

/// A click on a cell sets it to the opposite of what it showed when it was
/// drawn, and touches no other cell; clicking it again before it is drawn
/// anew changes nothing more.
pub proof fn lemma_cell_click_sets_shown_opposite(v: VDom, s: LifeView, x: int, y: int)
    requires
        s.wf(),
        0 <= x < s.x_count,
        0 <= y < s.y_count,
        is_cell(v, s, x, y),
    ensures
        v matches VDom::Node { node } && node.on_click matches Some(a) && {
            &&& s.apply(a) == (LifeView { grid: s.grid.update(y, s.grid[y].update(x, !s.grid[y][x])), ..s })
            &&& s.apply(a).apply(a) == s.apply(a)
        },
{
    let a = ClickAction::SetCell { x: x as u16, y: y as u16, alive: !s.grid[y][x] };
    let once = s.apply(a);
    assert(once.grid[y].update(x, !s.grid[y][x]) =~= once.grid[y]);
    assert(once.grid.update(y, once.grid[y]) =~= once.grid);
}

/// A click asking to set the timer leaves it on exactly when the click asks
/// for it, whatever it was before; the board and the year stay as they are,
/// so a second such click changes nothing more.
pub proof fn lemma_set_timer_sets_not_toggles(s: LifeView, enable: bool)
    ensures
        s.apply(ClickAction::SetTimer { enable }).timer_enable == enable,
        s.apply(ClickAction::SetTimer { enable }).year == s.year,
        s.apply(ClickAction::SetTimer { enable }).grid == s.grid,
        s.apply(ClickAction::SetTimer { enable }).x_count == s.x_count,
        s.apply(ClickAction::SetTimer { enable }).y_count == s.y_count,
        s.apply(ClickAction::SetTimer { enable }).apply(ClickAction::SetTimer { enable })
            == s.apply(ClickAction::SetTimer { enable }),
{
}

/// A key press without a target is delivered as one on the root node, at
/// every step; once the hooks are done and none stopped it, the root's own
/// key handler runs.
pub proof fn lemma_untargeted_key_press_goes_to_root(s: DomState, hooks: Seq<u64>, hooks_run: nat, stopped: bool)
    ensures
        s.keydown_step(hooks, None, hooks_run, stopped) == s.keydown_step(hooks, Some(root_id()), hooks_run, stopped),
        !stopped && hooks_run >= hooks.len() && node_handler(s.data.elements, root_id(), EventKind::KeyDown) is Some
            ==> s.keydown_step(hooks, None, hooks_run, stopped) == (KeyDownStep::RunHandler {
                handler: node_handler(s.data.elements, root_id(), EventKind::KeyDown)->0,
            }),
{
    if !stopped && hooks_run >= hooks.len() && node_handler(s.data.elements, root_id(), EventKind::KeyDown) is Some {
        lemma_own_handler_first(s.data, root_id(), EventKind::KeyDown);
    }
}

/// The value of a hexadecimal digit character.
pub open spec fn hex_value(c: char) -> int {
    if '0' <= c && c <= '9' {
        c as int - '0' as int
    } else if 'a' <= c && c <= 'f' {
        c as int - 'a' as int + 10
    } else {
        -1
    }
}

/// Inside a JSON string literal every character from U+0020 on is written as
/// itself, except the quote and the backslash, which are written as `\"`
/// and `\\`; control characters are written as `\n`, `\r`, `\t`, or as
/// `\u00` and two hexadecimal digits of their code.
pub proof fn lemma_escape_is_json(c: char)
    ensures
        c as u32 >= 0x20 && c != '"' && c != '\\' ==> escape_char(c) == seq![c],
        c == '"' ==> escape_char(c) == seq!['\\', '"'],
        c == '\\' ==> escape_char(c) == seq!['\\', '\\'],
        c == '\n' ==> escape_char(c) == seq!['\\', 'n'],
        c == '\r' ==> escape_char(c) == seq!['\\', 'r'],
        c == '\t' ==> escape_char(c) == seq!['\\', 't'],
        (c as u32) < 0x20 && c != '\n' && c != '\r' && c != '\t' ==> {
            let e = escape_char(c);
            &&& e.len() == 6
            &&& e[0] == '\\' && e[1] == 'u' && e[2] == '0' && e[3] == '0'
            &&& 16 * hex_value(e[4]) + hex_value(e[5]) == c as u32
        },
{
    if (c as u32) < 0x20 && c != '\n' && c != '\r' && c != '\t' {
        let code = c as u32;
        let hi = (code / 16) as nat;
        let lo = (code % 16) as nat;
        assert(hi < 2);
        assert(hex_value(hex_char(hi)) == hi);
        assert(hex_value(hex_char(lo)) == lo) by {
            assert(lo < 16);
        }
    }
}

/// Text without quotes, backslashes and control characters is written as is.
pub proof fn lemma_plain_text_unescaped(s: Seq<char>)
    requires
        forall|i: int| 0 <= i < s.len() ==> (#[trigger] s[i]) as u32 >= 0x20 && s[i] != '"' && s[i] != '\\',
    ensures
        escape(s) == s,
    decreases s.len(),
{
    if s.len() > 0 {
        let r = s.drop_last();
        assert forall|i: int| 0 <= i < r.len() implies (#[trigger] r[i]) as u32 >= 0x20 && r[i] != '"' && r[i] != '\\' by {
            assert(r[i] == s[i]);
        }
        lemma_plain_text_unescaped(r);
        lemma_escape_is_json(s.last());
        assert(escape(s) =~= s);
    }
}

/// The cell at column `x`, row `y` of a board that repeats itself in both
/// directions (`x` and `y` taken modulo the board's size).
pub open spec fn torus_cell(g: Seq<Seq<bool>>, xc: int, yc: int, x: int, y: int) -> bool {
    g[y % yc][x % xc]
}

pub open spec fn as_count(b: bool) -> int {
    if b { 1 } else { 0 }
}

/// How many of the eight cells around (`x`, `y`) are alive, on a board that
/// wraps at its edges.
pub open spec fn live_around(g: Seq<Seq<bool>>, xc: int, yc: int, x: int, y: int) -> int {
    as_count(torus_cell(g, xc, yc, x - 1, y - 1)) + as_count(torus_cell(g, xc, yc, x, y - 1))
        + as_count(torus_cell(g, xc, yc, x + 1, y - 1)) + as_count(torus_cell(g, xc, yc, x - 1, y))
        + as_count(torus_cell(g, xc, yc, x + 1, y)) + as_count(torus_cell(g, xc, yc, x - 1, y + 1))
        + as_count(torus_cell(g, xc, yc, x, y + 1)) + as_count(torus_cell(g, xc, yc, x + 1, y + 1))
}

proof fn lemma_ring_steps(i: int, n: int)
    requires
        0 <= i < n,
    ensures
        prev(i, n) == (i - 1) % n,
        next(i, n) == (i + 1) % n,
        i % n == i,
{
    assert(i % n == i) by (nonlinear_arith)
        requires
            0 <= i < n,
    ;
    if i == 0 {
        assert((i - 1) % n == n - 1) by (nonlinear_arith)
            requires
                i == 0,
                n > 0,
        ;
    } else {
        assert((i - 1) % n == i - 1) by (nonlinear_arith)
            requires
                0 < i < n,
        ;
    }
    if i + 1 == n {
        assert((i + 1) % n == 0) by (nonlinear_arith)
            requires
                i + 1 == n,
                n > 0,
        ;
    } else {
        assert((i + 1) % n == i + 1) by (nonlinear_arith)
            requires
                0 <= i,
                i + 1 < n,
        ;
    }
}

/// Conway's rule on a board that wraps at its edges: in the next generation
/// a cell is alive exactly when it is alive with two or three live cells
/// among its eight neighbours, or dead with exactly three; so a live cell
/// with four or more live neighbours, or fewer than two, dies.
pub proof fn lemma_next_generation_is_conway(g: Seq<Seq<bool>>, xc: int, yc: int, x: int, y: int)
    requires
        grid_shape(g, xc, yc),
        0 <= x < xc,
        0 <= y < yc,
    ensures
        next_grid(g, xc, yc)[y][x] == ((g[y][x] && (live_around(g, xc, yc, x, y) == 2 || live_around(g, xc, yc, x, y) == 3))
            || (!g[y][x] && live_around(g, xc, yc, x, y) == 3)),
        g[y][x] && live_around(g, xc, yc, x, y) >= 4 ==> !next_grid(g, xc, yc)[y][x],
        g[y][x] && live_around(g, xc, yc, x, y) < 2 ==> !next_grid(g, xc, yc)[y][x],
{
    lemma_ring_steps(x, xc);
    lemma_ring_steps(y, yc);
    assert(live_around(g, xc, yc, x, y) == crate::game_of_life::neighbours(g, xc, yc, x, y));
}

/// `path` follows parent links: each of its nodes but the last has the next
/// one as parent.
pub open spec fn parent_path(parents: Map<u64, u64>, path: Seq<u64>) -> bool {
    forall|i: int|
        0 <= i < path.len() - 1 ==> parents.contains_key(#[trigger] path[i]) && parents[path[i]] == path[i + 1]
}

proof fn lemma_ancestors_follow_path(parents: Map<u64, u64>, path: Seq<u64>, j: int, f: nat)
    requires
        parent_path(parents, path),
        0 <= j < path.len(),
        f >= path.len() - 1 - j,
    ensures
        ancestors(parents, path[j], f).len() >= path.len() - j,
        forall|i: int| 0 <= i < path.len() - j ==> ancestors(parents, path[j], f)[i] == #[trigger] path[j + i],
    decreases path.len() - j,
{
    if j < path.len() - 1 {
        assert(parents.contains_key(path[j]) && parents[path[j]] == path[j + 1]);
        lemma_ancestors_follow_path(parents, path, j + 1, (f - 1) as nat);
        let a = ancestors(parents, path[j], f);
        let rest = ancestors(parents, path[j + 1], (f - 1) as nat);
        assert(a == seq![path[j]] + rest);
        assert forall|i: int| 0 <= i < path.len() - j implies a[i] == #[trigger] path[j + i] by {
            if i > 0 {
                assert(a[i] == rest[i - 1]);
                assert(rest[i - 1] == path[(j + 1) + (i - 1)]);
            }
        }
    }
}

proof fn lemma_path_within_parents(parents: Map<u64, u64>, path: Seq<u64>)
    requires
        parents.dom().finite(),
        path.len() >= 1,
        path.no_duplicates(),
        parent_path(parents, path),
    ensures
        path.len() - 1 <= parents.dom().len(),
{
    let inner = path.drop_last();
    assert(inner.no_duplicates());
    inner.unique_seq_to_set();
    assert forall|n: u64| inner.to_set().contains(n) implies parents.dom().contains(n) by {
        let i = choose|i: int| 0 <= i < inner.len() && inner[i] == n;
        assert(path[i] == n);
    }
    vstd::set_lib::lemma_len_subset(inner.to_set(), parents.dom());
}

/// The nodes an event travels through start with every chain of parent
/// links from its target that does not come back on itself, however long.
pub proof fn lemma_all_nodes_cover_chain(d: DataView, path: Seq<u64>)
    requires
        d.parents.dom().finite(),
        path.len() >= 1,
        path.no_duplicates(),
        parent_path(d.parents, path),
    ensures
        d.all_nodes(path[0]).len() >= path.len(),
        forall|i: int| 0 <= i < path.len() ==> d.all_nodes(path[0])[i] == #[trigger] path[i],
{
    lemma_path_within_parents(d.parents, path);
    lemma_ancestors_follow_path(d.parents, path, 0, d.parents.dom().len());
    assert forall|i: int| 0 <= i < path.len() implies d.all_nodes(path[0])[i] == #[trigger] path[i] by {
        assert(path[0 + i] == path[i]);
    }
}

proof fn lemma_first_handler_at(elements: Map<u64, crate::driver_data::NodeEvents>, nodes: Seq<u64>, k: int, kind: EventKind)
    requires
        0 <= k < nodes.len(),
        forall|i: int| 0 <= i < k ==> node_handler(elements, #[trigger] nodes[i], kind) is None,
        node_handler(elements, nodes[k], kind) is Some,
    ensures
        first_handler(elements, nodes, kind) == node_handler(elements, nodes[k], kind),
    decreases k,
{
    if k > 0 {
        let rest = nodes.drop_first();
        assert(node_handler(elements, nodes[0], kind) is None);
        assert forall|i: int| 0 <= i < k - 1 implies node_handler(elements, #[trigger] rest[i], kind) is None by {
            assert(rest[i] == nodes[i + 1]);
        }
        assert(rest[k - 1] == nodes[k]);
        lemma_first_handler_at(elements, rest, k - 1, kind);
    }
}

/// An event reaches the handler of the nearest node that has one, going up
/// from its target through its parents, at any depth: along a chain of
/// parent links that does not come back on itself, where no node before the
/// last has a handler of the kind and the last has one, the event reaches
/// the last one's handler.
pub proof fn lemma_event_reaches_nearest_handler(d: DataView, path: Seq<u64>, kind: EventKind)
    requires
        d.parents.dom().finite(),
        path.len() >= 1,
        path.no_duplicates(),
        parent_path(d.parents, path),
        forall|i: int| 0 <= i < path.len() - 1 ==> node_handler(d.elements, #[trigger] path[i], kind) is None,
        node_handler(d.elements, path.last(), kind) is Some,
    ensures
        d.find_event(path[0], kind) == node_handler(d.elements, path.last(), kind),
{
    lemma_all_nodes_cover_chain(d, path);
    let nodes = d.all_nodes(path[0]);
    let k = path.len() - 1;
    assert forall|i: int| 0 <= i < k implies node_handler(d.elements, #[trigger] nodes[i], kind) is None by {
        assert(nodes[i] == path[i]);
    }
    assert(nodes[k] == path[k]);
    lemma_first_handler_at(d.elements, nodes, k, kind);
}

} // verus!
