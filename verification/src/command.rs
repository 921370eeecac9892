use vstd::prelude::*;
use crate::dom_id::DomId;
use crate::json::{JsonMapBuilder, object, array, join, lemma_join_push, str_field, num_field, null_field};
use crate::text::push_char;
use vstd::string::StringExecFns;

verus! {

/// One change to the document, queued until the next flush.
pub enum DriverDomCommand {
    MountNode { id: DomId },
    CreateNode { id: DomId, name: String },
    RenameNode { id: DomId, new_name: String },
    CreateText { id: DomId, value: String },
    UpdateText { id: DomId, value: String },
    SetAttr { id: DomId, name: String, value: String },
    RemoveAttr { id: DomId, name: String },
    RemoveNode { id: DomId },
    RemoveText { id: DomId },
    InsertBefore { parent: DomId, child: DomId, ref_id: Option<DomId> },
    InsertCss { selector: String, value: String },
    CreateComment { id: DomId, value: String },
    UpdateComment { id: DomId, value: String },
    RemoveComment { id: DomId },
}

/// A command as plain values: identifiers as integers, text as characters.
pub enum CommandView {
    MountNode { id: u64 },
    CreateNode { id: u64, name: Seq<char> },
    RenameNode { id: u64, new_name: Seq<char> },
    CreateText { id: u64, value: Seq<char> },
    UpdateText { id: u64, value: Seq<char> },
    SetAttr { id: u64, name: Seq<char>, value: Seq<char> },
    RemoveAttr { id: u64, name: Seq<char> },
    RemoveNode { id: u64 },
    RemoveText { id: u64 },
    InsertBefore { parent: u64, child: u64, ref_id: Option<u64> },
    InsertCss { selector: Seq<char>, value: Seq<char> },
    CreateComment { id: u64, value: Seq<char> },
    UpdateComment { id: u64, value: Seq<char> },
    RemoveComment { id: u64 },
}

impl View for DriverDomCommand {
    type V = CommandView;

    open spec fn view(&self) -> CommandView {
        match self {
            DriverDomCommand::MountNode { id } => CommandView::MountNode { id: id.id },
            DriverDomCommand::CreateNode { id, name } => CommandView::CreateNode { id: id.id, name: name@ },
            DriverDomCommand::RenameNode { id, new_name } => CommandView::RenameNode {
                id: id.id,
                new_name: new_name@,
            },
            DriverDomCommand::CreateText { id, value } => CommandView::CreateText { id: id.id, value: value@ },
            DriverDomCommand::UpdateText { id, value } => CommandView::UpdateText { id: id.id, value: value@ },
            DriverDomCommand::SetAttr { id, name, value } => CommandView::SetAttr {
                id: id.id,
                name: name@,
                value: value@,
            },
            DriverDomCommand::RemoveAttr { id, name } => CommandView::RemoveAttr { id: id.id, name: name@ },
            DriverDomCommand::RemoveNode { id } => CommandView::RemoveNode { id: id.id },
            DriverDomCommand::RemoveText { id } => CommandView::RemoveText { id: id.id },
            DriverDomCommand::InsertBefore { parent, child, ref_id } => CommandView::InsertBefore {
                parent: parent.id,
                child: child.id,
                ref_id: match ref_id {
                    Some(r) => Some(r.id),
                    None => None,
                },
            },
            DriverDomCommand::InsertCss { selector, value } => CommandView::InsertCss {
                selector: selector@,
                value: value@,
            },
            DriverDomCommand::CreateComment { id, value } => CommandView::CreateComment {
                id: id.id,
                value: value@,
            },
            DriverDomCommand::UpdateComment { id, value } => CommandView::UpdateComment {
                id: id.id,
                value: value@,
            },
            DriverDomCommand::RemoveComment { id } => CommandView::RemoveComment { id: id.id },
        }
    }
}

/// The views of a sequence of commands.
pub open spec fn commands_view(cmds: Seq<DriverDomCommand>) -> Seq<CommandView> {
    cmds.map_values(|c: DriverDomCommand| c@)
}

/// The member that names the node before which a child is inserted.
pub open spec fn ref_id_field(ref_id: Option<u64>) -> Seq<char> {
    match ref_id {
        Some(r) => num_field("ref_id"@, r as nat),
        None => null_field("ref_id"@),
    }
}

/// The JSON object that tells the browser side to carry out `c`.
pub open spec fn command_json(c: CommandView) -> Seq<char> {
    match c {
        CommandView::MountNode { id } => object(
            seq![str_field("type"@, "mount_node"@), num_field("id"@, id as nat)],
        ),
        CommandView::CreateNode { id, name } => object(
            seq![
                str_field("type"@, "create_node"@),
                num_field("id"@, id as nat),
                str_field("name"@, name),
            ],
        ),
        CommandView::RenameNode { id, new_name } => object(
            seq![
                str_field("type"@, "rename_node"@),
                num_field("id"@, id as nat),
                str_field("new_name"@, new_name),
            ],
        ),
        CommandView::CreateText { id, value } => object(
            seq![
                str_field("type"@, "create_text"@),
                num_field("id"@, id as nat),
                str_field("value"@, value),
            ],
        ),
        CommandView::UpdateText { id, value } => object(
            seq![
                str_field("type"@, "update_text"@),
                num_field("id"@, id as nat),
                str_field("value"@, value),
            ],
        ),
        CommandView::SetAttr { id, name, value } => object(
            seq![
                str_field("type"@, "set_attr"@),
                num_field("id"@, id as nat),
                str_field("name"@, name),
                str_field("value"@, value),
            ],
        ),
        CommandView::RemoveAttr { id, name } => object(
            seq![
                str_field("type"@, "remove_attr"@),
                num_field("id"@, id as nat),
                str_field("name"@, name),
            ],
        ),
        CommandView::RemoveNode { id } => object(
            seq![str_field("type"@, "remove_node"@), num_field("id"@, id as nat)],
        ),
        CommandView::RemoveText { id } => object(
            seq![str_field("type"@, "remove_text"@), num_field("id"@, id as nat)],
        ),
        CommandView::InsertBefore { parent, child, ref_id } => object(
            seq![
                str_field("type"@, "insert_before"@),
                num_field("parent"@, parent as nat),
                num_field("child"@, child as nat),
                ref_id_field(ref_id),
            ],
        ),
        CommandView::InsertCss { selector, value } => object(
            seq![
                str_field("type"@, "insert_css"@),
                str_field("selector"@, selector),
                str_field("value"@, value),
            ],
        ),
        CommandView::CreateComment { id, value } => object(
            seq![
                str_field("type"@, "create_comment"@),
                num_field("id"@, id as nat),
                str_field("value"@, value),
            ],
        ),
        CommandView::UpdateComment { id, value } => object(
            seq![
                str_field("type"@, "update_comment"@),
                num_field("id"@, id as nat),
                str_field("value"@, value),
            ],
        ),
        CommandView::RemoveComment { id } => object(
            seq![str_field("type"@, "remove_comment"@), num_field("id"@, id as nat)],
        ),
    }
}

/// The JSON array of the commands, in order, that one flush sends.
pub open spec fn bulk_json(cmds: Seq<CommandView>) -> Seq<char> {
    array(cmds.map_values(|c: CommandView| command_json(c)))
}

/// Writes the commands, in order, as one JSON array.
pub fn commands_to_json(cmds: &Vec<DriverDomCommand>) -> (s: String)
    ensures
        s@ == bulk_json(commands_view(cmds@)),
{
    let ghost parts = commands_view(cmds@).map_values(|c: CommandView| command_json(c));
    let mut out = String::new();
    push_char(&mut out, '[');
    let mut i: usize = 0;
    while i < cmds.len()
        invariant
            i <= cmds.len(),
            parts == commands_view(cmds@).map_values(|c: CommandView| command_json(c)),
            parts.len() == cmds.len(),
            out@ == seq!['['] + join(parts.take(i as int)),
        decreases cmds.len() - i,
    {
        let ghost before = out@;
        if i > 0 {
            push_char(&mut out, ',');
        }
        let item = cmds[i].into_string();
        out.append(item.as_str());
        proof {
            assert(parts[i as int] == command_json(cmds@[i as int]@));
            assert(parts.take(i as int + 1) =~= parts.take(i as int).push(parts[i as int]));
            lemma_join_push(parts.take(i as int), parts[i as int]);
            assert(out@ =~= seq!['['] + join(parts.take(i as int + 1)));
        }
        i = i + 1;
    }
    push_char(&mut out, ']');
    assert(parts.take(cmds.len() as int) =~= parts);
    assert(out@ =~= bulk_json(commands_view(cmds@)));
    out
}

impl DriverDomCommand {
    /// The command written as a JSON object.
    pub fn into_string(&self) -> (s: String)
        ensures
            s@ == command_json(self@),
    {
        let out = JsonMapBuilder::new();
        let out = match self {
            DriverDomCommand::MountNode { id } => {
                let out = out.set_string("type", "mount_node");
                let out = out.set_u64("id", id.id);
                assert(out.fields() =~= seq![str_field("type"@, "mount_node"@), num_field("id"@, id.id as nat)]);
                assert(object(out.fields()) == command_json(self@));
                out
            },
            DriverDomCommand::CreateNode { id, name } => {
                let out = out.set_string("type", "create_node");
                let out = out.set_u64("id", id.id);
                let out = out.set_string("name", name.as_str());
                assert(out.fields() =~= seq![str_field("type"@, "create_node"@), num_field("id"@, id.id as nat), str_field("name"@, name@)]);
                assert(object(out.fields()) == command_json(self@));
                out
            },
            DriverDomCommand::RenameNode { id, new_name } => {
                let out = out.set_string("type", "rename_node");
                let out = out.set_u64("id", id.id);
                let out = out.set_string("new_name", new_name.as_str());
                assert(out.fields() =~= seq![str_field("type"@, "rename_node"@), num_field("id"@, id.id as nat), str_field("new_name"@, new_name@)]);
                assert(object(out.fields()) == command_json(self@));
                out
            },
            DriverDomCommand::CreateText { id, value } => {
                let out = out.set_string("type", "create_text");
                let out = out.set_u64("id", id.id);
                let out = out.set_string("value", value.as_str());
                assert(out.fields() =~= seq![str_field("type"@, "create_text"@), num_field("id"@, id.id as nat), str_field("value"@, value@)]);
                assert(object(out.fields()) == command_json(self@));
                out
            },
            DriverDomCommand::UpdateText { id, value } => {
                let out = out.set_string("type", "update_text");
                let out = out.set_u64("id", id.id);
                let out = out.set_string("value", value.as_str());
                assert(out.fields() =~= seq![str_field("type"@, "update_text"@), num_field("id"@, id.id as nat), str_field("value"@, value@)]);
                assert(object(out.fields()) == command_json(self@));
                out
            },
            DriverDomCommand::SetAttr { id, name, value } => {
                let out = out.set_string("type", "set_attr");
                let out = out.set_u64("id", id.id);
                let out = out.set_string("name", name.as_str());
                let out = out.set_string("value", value.as_str());
                assert(out.fields() =~= seq![str_field("type"@, "set_attr"@), num_field("id"@, id.id as nat), str_field("name"@, name@), str_field("value"@, value@)]);
                assert(object(out.fields()) == command_json(self@));
                out
            },
            DriverDomCommand::RemoveAttr { id, name } => {
                let out = out.set_string("type", "remove_attr");
                let out = out.set_u64("id", id.id);
                let out = out.set_string("name", name.as_str());
                assert(out.fields() =~= seq![str_field("type"@, "remove_attr"@), num_field("id"@, id.id as nat), str_field("name"@, name@)]);
                assert(object(out.fields()) == command_json(self@));
                out
            },
            DriverDomCommand::RemoveNode { id } => {
                let out = out.set_string("type", "remove_node");
                let out = out.set_u64("id", id.id);
                assert(out.fields() =~= seq![str_field("type"@, "remove_node"@), num_field("id"@, id.id as nat)]);
                assert(object(out.fields()) == command_json(self@));
                out
            },
            DriverDomCommand::RemoveText { id } => {
                let out = out.set_string("type", "remove_text");
                let out = out.set_u64("id", id.id);
                assert(out.fields() =~= seq![str_field("type"@, "remove_text"@), num_field("id"@, id.id as nat)]);
                assert(object(out.fields()) == command_json(self@));
                out
            },
            DriverDomCommand::InsertBefore { parent, child, ref_id } => {
                let out = out.set_string("type", "insert_before");
                let out = out.set_u64("parent", parent.id);
                let out = out.set_u64("child", child.id);
                match ref_id {
                    Some(r) => {
                        let out = out.set_u64("ref_id", r.id);
                        assert(self@ == CommandView::InsertBefore { parent: parent.id, child: child.id, ref_id: Some(r.id) });
                        assert(out.fields() =~= seq![str_field("type"@, "insert_before"@), num_field("parent"@, parent.id as nat), num_field("child"@, child.id as nat), ref_id_field(Some(r.id))]);
                        assert(object(out.fields()) == command_json(self@));
                        out
                    },
                    None => {
                        let out = out.set_null("ref_id");
                        assert(self@ == CommandView::InsertBefore { parent: parent.id, child: child.id, ref_id: None });
                        assert(out.fields() =~= seq![str_field("type"@, "insert_before"@), num_field("parent"@, parent.id as nat), num_field("child"@, child.id as nat), ref_id_field(None)]);
                        assert(object(out.fields()) == command_json(self@));
                        out
                    },
                }
            },
            DriverDomCommand::InsertCss { selector, value } => {
                let out = out.set_string("type", "insert_css");
                let out = out.set_string("selector", selector.as_str());
                let out = out.set_string("value", value.as_str());
                assert(out.fields() =~= seq![str_field("type"@, "insert_css"@), str_field("selector"@, selector@), str_field("value"@, value@)]);
                assert(object(out.fields()) == command_json(self@));
                out
            },
            DriverDomCommand::CreateComment { id, value } => {
                let out = out.set_string("type", "create_comment");
                let out = out.set_u64("id", id.id);
                let out = out.set_string("value", value.as_str());
                assert(out.fields() =~= seq![str_field("type"@, "create_comment"@), num_field("id"@, id.id as nat), str_field("value"@, value@)]);
                assert(object(out.fields()) == command_json(self@));
                out
            },
            DriverDomCommand::UpdateComment { id, value } => {
                let out = out.set_string("type", "update_comment");
                let out = out.set_u64("id", id.id);
                let out = out.set_string("value", value.as_str());
                assert(out.fields() =~= seq![str_field("type"@, "update_comment"@), num_field("id"@, id.id as nat), str_field("value"@, value@)]);
                assert(object(out.fields()) == command_json(self@));
                out
            },
            DriverDomCommand::RemoveComment { id } => {
                let out = out.set_string("type", "remove_comment");
                let out = out.set_u64("id", id.id);
                assert(out.fields() =~= seq![str_field("type"@, "remove_comment"@), num_field("id"@, id.id as nat)]);
                assert(object(out.fields()) == command_json(self@));
                out
            },
        };
        out.build()
    }
}

} // verus!
