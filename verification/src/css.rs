use vstd::prelude::*;
use vstd::string::StringExecFns;

verus! {

/// A list of CSS declaration groups.
pub struct Css {
    groups: Vec<String>,
}

impl View for Css {
    type V = Seq<Seq<char>>;

    closed spec fn view(&self) -> Seq<Seq<char>> {
        self.groups@.map_values(|s: String| s@)
    }
}

impl Css {
    /// A list of one group.
    pub fn one(value: &str) -> (c: Css)
        ensures
            c@ == seq![value@],
    {
        let mut groups: Vec<String> = Vec::new();
        groups.push(String::from_str(value));
        let c = Css { groups };
        assert(c@ =~= seq![value@]);
        c
    }

    /// Appends a group.
    pub fn str(&mut self, value: &str)
        ensures
            final(self)@ == old(self)@.push(value@),
    {
        self.groups.push(String::from_str(value));
        assert(self@ =~= old(self)@.push(value@));
    }

    /// The groups, in order.
    pub fn groups(&self) -> (g: &Vec<String>)
        ensures
            g@.map_values(|s: String| s@) == self@,
    {
        &self.groups
    }
}

} // verus!
