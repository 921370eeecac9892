use vertigo::command::{commands_to_json, DriverDomCommand};
use vertigo::dom_id::DomId;
use vertigo::json::JsonMapBuilder;
use vertigo::text::{push_json_string, u64_to_string};

#[test]
fn decimal_numbers() {
    assert_eq!(u64_to_string(0), "0");
    assert_eq!(u64_to_string(7), "7");
    assert_eq!(u64_to_string(10), "10");
    assert_eq!(u64_to_string(1234567890), "1234567890");
    assert_eq!(u64_to_string(u64::MAX), "18446744073709551615");
}

#[test]
fn json_strings_are_escaped() {
    let mut out = String::new();
    push_json_string(&mut out, "a\"b\\c\nd\re\tf\u{1}g\u{1f}h é");
    assert_eq!(out, "\"a\\\"b\\\\c\\nd\\re\\tf\\u0001g\\u001fh é\"");
}

#[test]
fn json_object_members_in_order() {
    let b = JsonMapBuilder::new().set_string("type", "x").set_u64("id", 42).set_null("ref_id");
    assert_eq!(b.build(), "{\"type\":\"x\",\"id\":42,\"ref_id\":null}");
    assert_eq!(JsonMapBuilder::new().build(), "{}");
}

#[test]
fn commands_as_json() {
    let id = DomId::from_u64(5);
    assert_eq!(DriverDomCommand::MountNode { id }.into_string(), "{\"type\":\"mount_node\",\"id\":5}");
    assert_eq!(
        DriverDomCommand::SetAttr { id, name: "class".to_string(), value: "a\"b".to_string() }.into_string(),
        "{\"type\":\"set_attr\",\"id\":5,\"name\":\"class\",\"value\":\"a\\\"b\"}"
    );
    assert_eq!(
        DriverDomCommand::InsertBefore { parent: DomId::root(), child: id, ref_id: None }.into_string(),
        "{\"type\":\"insert_before\",\"parent\":1,\"child\":5,\"ref_id\":null}"
    );
    assert_eq!(
        DriverDomCommand::InsertBefore { parent: DomId::root(), child: id, ref_id: Some(DomId::from_u64(9)) }
            .into_string(),
        "{\"type\":\"insert_before\",\"parent\":1,\"child\":5,\"ref_id\":9}"
    );
    assert_eq!(
        DriverDomCommand::InsertCss { selector: ".a".to_string(), value: "color: red".to_string() }.into_string(),
        "{\"type\":\"insert_css\",\"selector\":\".a\",\"value\":\"color: red\"}"
    );
    assert_eq!(
        DriverDomCommand::RenameNode { id, new_name: "span".to_string() }.into_string(),
        "{\"type\":\"rename_node\",\"id\":5,\"new_name\":\"span\"}"
    );
}

#[test]
fn batch_of_commands() {
    let cmds = vec![
        DriverDomCommand::RemoveText { id: DomId::from_u64(3) },
        DriverDomCommand::RemoveComment { id: DomId::from_u64(4) },
    ];
    assert_eq!(
        commands_to_json(&cmds),
        "[{\"type\":\"remove_text\",\"id\":3},{\"type\":\"remove_comment\",\"id\":4}]"
    );
    assert_eq!(commands_to_json(&Vec::new()), "[]");
}
