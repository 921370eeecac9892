use vstd::prelude::*;
use vstd::string::StringExecFns;
use crate::text::{decimal, u64_to_string};
use crate::css::Css;
use crate::game_of_life::ClickAction;

verus! {

/// An element of a virtual document: its tag name, its attributes (each
/// name at most once), its children in order, its style, and what a click
/// on it asks for.
pub struct VDomNode {
    pub name: String,
    pub attr: Vec<(String, String)>,
    pub child: Vec<VDom>,
    pub css: Option<Css>,
    pub on_click: Option<ClickAction>,
}

/// A node of a virtual document: an element or a piece of text.
pub enum VDom {
    Node { node: VDomNode },
    Text { value: String },
}

/// The attribute names, in order.
pub open spec fn attr_names(attr: Seq<(String, String)>) -> Seq<Seq<char>> {
    attr.map_values(|a: (String, String)| a.0@)
}

/// No attribute name occurs twice.
pub open spec fn attrs_unique(attr: Seq<(String, String)>) -> bool {
    forall|i: int, j: int| 0 <= i < j < attr.len() ==> attr[i].0@ != attr[j].0@
}

/// The value of attribute `name`, if it is set.
pub open spec fn attr_value(attr: Seq<(String, String)>, name: Seq<char>) -> Option<Seq<char>> {
    if exists|i: int| 0 <= i < attr.len() && attr[i].0@ == name {
        let i = choose|i: int| 0 <= i < attr.len() && attr[i].0@ == name;
        Some(attr[i].1@)
    } else {
        None
    }
}

impl VDomNode {
    /// An element with the given tag name, no attributes and no children.
    pub fn new(name: &str) -> (n: VDomNode)
        ensures
            n.name@ == name@,
            n.attr@.len() == 0,
            n.child@.len() == 0,
            n.css is None,
            n.on_click is None,
    {
        VDomNode { name: String::from_str(name), attr: Vec::new(), child: Vec::new(), css: None, on_click: None }
    }

    /// Sets attribute `name` to `value`, replacing an earlier value.
    pub fn add_attr(&mut self, name: &str, value: &str)
        requires
            attrs_unique(old(self).attr@),
        ensures
            attrs_unique(final(self).attr@),
            attr_value(final(self).attr@, name@) == Some(value@),
            forall|k: Seq<char>|
                k != name@ ==> attr_value(final(self).attr@, k) == attr_value(old(self).attr@, k),
            final(self).name == old(self).name,
            final(self).child == old(self).child,
            final(self).css == old(self).css,
            final(self).on_click == old(self).on_click,
    {
        let key = String::from_str(name);
        let mut i: usize = 0;
        while i < self.attr.len()
            invariant_except_break
                forall|j: int| 0 <= j < i ==> self.attr@[j].0@ != name@,
            invariant
                i <= self.attr@.len(),
                self.attr == old(self).attr,
                self.name == old(self).name,
                self.child == old(self).child,
                self.css == old(self).css,
                self.on_click == old(self).on_click,
                key@ == name@,
            ensures
                i < self.attr@.len() ==> self.attr@[i as int].0@ == name@,
                i == self.attr@.len() ==> forall|j: int| 0 <= j < self.attr@.len() ==> self.attr@[j].0@ != name@,
            decreases self.attr@.len() - i,
        {
            if self.attr[i].0 == key {
                break;
            }
            i = i + 1;
        }
        let ghost old_attr = self.attr@;
        let entry = (key, String::from_str(value));
        if i < self.attr.len() {
            self.attr.set(i, entry);
        } else {
            self.attr.push(entry);
        }
        proof {
            let a = self.attr@;
            assert forall|p: int, q: int| 0 <= p < q < a.len() implies a[p].0@ != a[q].0@ by {}
            assert(a[i as int].0@ == name@);
            assert forall|j: int| 0 <= j < a.len() && a[j].0@ == name@ implies j == i as int by {}
            assert(attr_value(a, name@) == Some(value@));
            assert forall|k: Seq<char>| k != name@ implies attr_value(a, k) == attr_value(old_attr, k) by {
                assert forall|j: int| 0 <= j < a.len() && a[j].0@ == k implies j < old_attr.len() && old_attr[j] == a[j] by {}
                assert forall|j: int| 0 <= j < old_attr.len() && old_attr[j].0@ == k implies a[j] == old_attr[j] by {}
                if exists|j: int| 0 <= j < old_attr.len() && old_attr[j].0@ == k {
                    let j = choose|j: int| 0 <= j < old_attr.len() && old_attr[j].0@ == k;
                    assert(a[j].0@ == k);
                }
            }
        }
    }

    /// Appends a child.
    pub fn add_child(&mut self, child: VDom)
        ensures
            final(self).child@ == old(self).child@.push(child),
            final(self).name == old(self).name,
            final(self).attr == old(self).attr,
            final(self).css == old(self).css,
            final(self).on_click == old(self).on_click,
    {
        self.child.push(child);
    }
}

impl VDom {
    /// An element node.
    pub fn node(node: VDomNode) -> (v: VDom)
        ensures
            v == (VDom::Node { node }),
    {
        VDom::Node { node }
    }

    /// A text node.
    pub fn text(value: &str) -> (v: VDom)
        ensures
            v matches VDom::Text { value: t } && t@ == value@,
    {
        VDom::Text { value: String::from_str(value) }
    }

    /// A text node that shows the number `n` in decimal.
    pub fn text_u64(n: u64) -> (v: VDom)
        ensures
            v matches VDom::Text { value: t } && t@ == decimal(n as nat),
    {
        VDom::Text { value: u64_to_string(n) }
    }
}

} // verus!
