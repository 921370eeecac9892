use vertigo::dom_id::DomId;
use vertigo::driver::{DriverBrowserDom, KeyDownStep};
use vertigo::driver_data::EventCallback;
use vertigo::hooks::{HookAction, Hooks};

fn id(n: u64) -> DomId {
    DomId::from_u64(n)
}

/// A root with a child 2, whose child is 3.
fn tree() -> DriverBrowserDom {
    let mut hooks = Hooks::new();
    let mut d = DriverBrowserDom::new(&mut hooks);
    d.create_node(id(2), "div");
    d.create_node(id(3), "span");
    d.insert_before(DomId::root(), id(2), None);
    d.insert_before(id(2), id(3), None);
    d.flush_dom_changes();
    d
}

#[test]
fn new_document_creates_and_mounts_root() {
    let mut hooks = Hooks::new();
    hooks.on_after_transaction(HookAction::Callback { id: 4 });
    let mut d = DriverBrowserDom::new(&mut hooks);
    assert_eq!(hooks.fire_start(), Vec::<HookAction>::new());
    assert_eq!(hooks.fire_end(), vec![HookAction::Callback { id: 4 }, HookAction::FlushDriver]);
    assert_eq!(
        d.flush_dom_changes(),
        Some("[{\"type\":\"create_node\",\"id\":1,\"name\":\"div\"},{\"type\":\"mount_node\",\"id\":1}]".to_string())
    );
    assert_eq!(d.flush_dom_changes(), None);
}

#[test]
fn commands_are_sent_in_order() {
    let mut d = tree();
    d.set_attr(id(2), "class", "x");
    d.create_text(id(4), "hi");
    d.update_text(id(4), "ho");
    d.remove_attr(id(2), "class");
    d.rename_node(id(3), "b");
    d.create_comment(id(5), "c".to_string());
    d.update_comment(id(5), "d".to_string());
    d.insert_css(".a", "x: y");
    d.remove_comment(id(5));
    d.remove_text(id(4));
    d.remove_node(id(3));
    assert_eq!(
        d.flush_dom_changes(),
        Some(
            [
                "[{\"type\":\"set_attr\",\"id\":2,\"name\":\"class\",\"value\":\"x\"},",
                "{\"type\":\"create_text\",\"id\":4,\"value\":\"hi\"},",
                "{\"type\":\"update_text\",\"id\":4,\"value\":\"ho\"},",
                "{\"type\":\"remove_attr\",\"id\":2,\"name\":\"class\"},",
                "{\"type\":\"rename_node\",\"id\":3,\"new_name\":\"b\"},",
                "{\"type\":\"create_comment\",\"id\":5,\"value\":\"c\"},",
                "{\"type\":\"update_comment\",\"id\":5,\"value\":\"d\"},",
                "{\"type\":\"insert_css\",\"selector\":\".a\",\"value\":\"x: y\"},",
                "{\"type\":\"remove_comment\",\"id\":5},",
                "{\"type\":\"remove_text\",\"id\":4},",
                "{\"type\":\"remove_node\",\"id\":3}]",
            ]
            .concat()
        )
    );
    assert_eq!(d.flush_dom_changes(), None);
}

#[test]
fn click_bubbles_to_nearest_handler() {
    let mut d = tree();
    assert_eq!(d.export_dom_mousedown(3), None);
    d.set_event(DomId::root(), EventCallback::OnClick { callback: Some(10) });
    assert_eq!(d.export_dom_mousedown(3), Some(10));
    d.set_event(id(2), EventCallback::OnClick { callback: Some(20) });
    assert_eq!(d.export_dom_mousedown(3), Some(20));
    assert_eq!(d.export_dom_mousedown(1), Some(10));
    d.set_event(id(3), EventCallback::OnClick { callback: Some(30) });
    assert_eq!(d.export_dom_mousedown(3), Some(30));
    d.set_event(id(3), EventCallback::OnClick { callback: None });
    assert_eq!(d.export_dom_mousedown(3), Some(20));
    // an unknown node only sees its own (missing) handler
    assert_eq!(d.export_dom_mousedown(99), None);
    // setting a handler on an unknown node changes nothing
    d.set_event(id(99), EventCallback::OnClick { callback: Some(5) });
    assert_eq!(d.export_dom_mousedown(99), None);
}

#[test]
fn input_and_drop_handlers() {
    let mut d = tree();
    d.set_event(id(2), EventCallback::OnInput { callback: Some(7) });
    d.set_event(id(3), EventCallback::OnDropFile { callback: Some(8) });
    assert_eq!(d.export_dom_oninput(3), Some(7));
    assert_eq!(d.export_dom_ondropfile(3), Some(8));
    assert_eq!(d.export_dom_ondropfile(2), None);
}

#[test]
fn removed_node_loses_handlers() {
    let mut d = tree();
    d.set_event(id(3), EventCallback::OnClick { callback: Some(30) });
    d.remove_node(id(3));
    assert_eq!(d.export_dom_mousedown(3), None);
}

#[test]
fn mouse_enter_and_leave() {
    let mut d = tree();
    d.set_event(id(2), EventCallback::OnMouseEnter { callback: Some(21) });
    d.set_event(id(2), EventCallback::OnMouseLeave { callback: Some(22) });
    d.set_event(id(3), EventCallback::OnMouseEnter { callback: Some(31) });
    d.set_event(id(3), EventCallback::OnMouseLeave { callback: Some(32) });
    assert_eq!(d.export_dom_mouseover(Some(3)), vec![31, 21]);
    assert_eq!(d.export_dom_mouseover(Some(3)), Vec::<u64>::new());
    assert_eq!(d.export_dom_mouseover(Some(2)), vec![32]);
    assert_eq!(d.export_dom_mouseover(Some(3)), vec![31]);
    assert_eq!(d.export_dom_mouseover(None), vec![32, 22]);
    assert_eq!(d.export_dom_mouseover(None), Vec::<u64>::new());
}

/// Runs a key press to the end with the given answers of the hooks and of
/// the handler; returns the handlers run and the answer.
fn press(d: &DriverBrowserDom, dom_id: Option<u64>, answer: impl Fn(u64) -> bool) -> (Vec<u64>, bool) {
    let mut ran = Vec::new();
    let hooks = d.keydown_hooks();
    let mut hooks_run = 0;
    let mut stopped = false;
    loop {
        match d.export_dom_keydown(&hooks, dom_id, hooks_run, stopped) {
            KeyDownStep::RunHook { handler } => {
                ran.push(handler);
                stopped = answer(handler);
                hooks_run += 1;
            }
            KeyDownStep::RunHandler { handler } => {
                ran.push(handler);
                return (ran, answer(handler));
            }
            KeyDownStep::Finished { stop_propagation } => return (ran, stop_propagation),
        }
    }
}

#[test]
fn key_press_runs_hooks_then_handler() {
    let mut d = tree();
    d.set_event(id(2), EventCallback::OnKeyDown { callback: Some(50) });
    d.set_event(id(3), EventCallback::HookKeyDown { callback: Some(60) });
    d.set_event(DomId::root(), EventCallback::HookKeyDown { callback: Some(61) });
    assert_eq!(press(&d, Some(3), |_| false), (vec![60, 61, 50], false));
    assert_eq!(press(&d, Some(3), |h| h == 50), (vec![60, 61, 50], true));
    assert_eq!(press(&d, Some(3), |h| h == 60), (vec![60], true));
    // no target: the root, which has no key handler
    assert_eq!(press(&d, None, |_| false), (vec![60, 61], false));
    // replacing a hook moves it to the end
    d.set_event(id(3), EventCallback::HookKeyDown { callback: Some(62) });
    assert_eq!(press(&d, Some(2), |_| false), (vec![61, 62, 50], false));
    d.remove_node(id(3));
    assert_eq!(press(&d, Some(2), |_| false), (vec![61, 50], false));
}

#[test]
fn transaction_end_flushes_the_driver() {
    let mut hooks = Hooks::new();
    let mut d = DriverBrowserDom::new(&mut hooks);
    let mut sent = Vec::new();
    for hook in hooks.fire_end() {
        if let Some(batch) = d.fire_hook(hook) {
            sent.push(batch);
        }
    }
    assert_eq!(
        sent,
        vec!["[{\"type\":\"create_node\",\"id\":1,\"name\":\"div\"},{\"type\":\"mount_node\",\"id\":1}]".to_string()]
    );
    d.create_text(id(2), "a");
    assert_eq!(d.fire_hook(HookAction::Callback { id: 9 }), None);
    d.create_text(id(3), "b");
    assert_eq!(
        d.fire_hook(HookAction::FlushDriver),
        Some(
            "[{\"type\":\"create_text\",\"id\":2,\"value\":\"a\"},{\"type\":\"create_text\",\"id\":3,\"value\":\"b\"}]"
                .to_string()
        )
    );
    assert_eq!(d.fire_hook(HookAction::FlushDriver), None);
}

#[test]
fn key_press_keeps_the_hooks_it_started_with() {
    let mut d = tree();
    d.set_event(id(3), EventCallback::HookKeyDown { callback: Some(60) });
    let hooks = d.keydown_hooks();
    // a hook that arrives during the press is not run by it
    d.set_event(id(2), EventCallback::HookKeyDown { callback: Some(70) });
    assert_eq!(d.export_dom_keydown(&hooks, None, 0, false), KeyDownStep::RunHook { handler: 60 });
    assert_eq!(d.export_dom_keydown(&hooks, None, 1, false), KeyDownStep::Finished { stop_propagation: false });
}
