use vstd::prelude::*;
use crate::text::{json_string, decimal, push_char, push_decimal, push_json_string};

verus! {

/// `parts` separated by commas.
pub open spec fn join(parts: Seq<Seq<char>>) -> Seq<char>
    decreases parts.len(),
{
    if parts.len() == 0 {
        Seq::empty()
    } else if parts.len() == 1 {
        parts[0]
    } else {
        join(parts.drop_last()) + seq![','] + parts.last()
    }
}

/// The JSON object whose members, already written as `"key":value`, are `fields`.
pub open spec fn object(fields: Seq<Seq<char>>) -> Seq<char> {
    seq!['{'] + join(fields) + seq!['}']
}

/// The JSON array whose elements, already written out, are `items`.
pub open spec fn array(items: Seq<Seq<char>>) -> Seq<char> {
    seq!['['] + join(items) + seq![']']
}

/// A member whose value is a string.
pub open spec fn str_field(key: Seq<char>, value: Seq<char>) -> Seq<char> {
    json_string(key) + seq![':'] + json_string(value)
}

/// A member whose value is a non-negative integer.
pub open spec fn num_field(key: Seq<char>, value: nat) -> Seq<char> {
    json_string(key) + seq![':'] + decimal(value)
}

/// A member whose value is `null`.
pub open spec fn null_field(key: Seq<char>) -> Seq<char> {
    json_string(key) + seq![':', 'n', 'u', 'l', 'l']
}

pub proof fn lemma_join_push(parts: Seq<Seq<char>>, p: Seq<char>)
    ensures
        join(parts.push(p)) == if parts.len() == 0 {
            p
        } else {
            join(parts) + seq![','] + p
        },
{
    assert(parts.push(p).drop_last() =~= parts);
    if parts.len() == 0 {
        assert(parts.push(p)[0] == p);
    }
}

/// Writes a JSON object member by member.
pub struct JsonMapBuilder {
    out: String,
    has_fields: bool,
    fields: Ghost<Seq<Seq<char>>>,
}

/// Writes the separator before a member, where one is due, and the member's key.
fn start_field(out: &mut String, has_fields: bool, key: &str)
    ensures
        final(out)@ == old(out)@ + (if has_fields {
            seq![',']
        } else {
            Seq::<char>::empty()
        }) + json_string(key@) + seq![':'],
{
    let ghost start = out@;
    if has_fields {
        push_char(out, ',');
    }
    let ghost mid = out@;
    push_json_string(out, key);
    push_char(out, ':');
    assert(out@ =~= mid + json_string(key@) + seq![':']);
    assert(!has_fields ==> mid =~= start + Seq::<char>::empty());
}

/// The text written before the member that follows `fields`.
pub open spec fn member_prefix(fields: Seq<Seq<char>>) -> Seq<char> {
    seq!['{'] + join(fields) + (if fields.len() == 0 {
        Seq::<char>::empty()
    } else {
        seq![',']
    })
}

impl JsonMapBuilder {
    /// What has been written is the opening brace and the members so far.
    #[verifier::type_invariant]
    spec fn written(&self) -> bool {
        &&& self.out@ == seq!['{'] + join(self.fields@)
        &&& self.has_fields == (self.fields@.len() > 0)
    }

    /// The members written so far.
    pub closed spec fn fields(&self) -> Seq<Seq<char>> {
        self.fields@
    }

    pub fn new() -> (b: JsonMapBuilder)
        ensures
            b.fields() == Seq::<Seq<char>>::empty(),
    {
        let mut out = String::new();
        push_char(&mut out, '{');
        assert(out@ =~= seq!['{'] + join(Seq::<Seq<char>>::empty()));
        JsonMapBuilder { out, has_fields: false, fields: Ghost(Seq::empty()) }
    }

    fn finish_field(out: String, fields: Ghost<Seq<Seq<char>>>, field: Ghost<Seq<char>>) -> (b: JsonMapBuilder)
        requires
            out@ == member_prefix(fields@) + field@,
        ensures
            b.fields() == fields@.push(field@),
    {
        proof {
            lemma_join_push(fields@, field@);
        }
        assert(out@ =~= seq!['{'] + join(fields@.push(field@)));
        JsonMapBuilder { out, has_fields: true, fields: Ghost(fields@.push(field@)) }
    }

    /// Adds a member whose value is the string `value`.
    pub fn set_string(self, key: &str, value: &str) -> (b: JsonMapBuilder)
        ensures
            b.fields() == self.fields().push(str_field(key@, value@)),
    {
        proof {
            use_type_invariant(&self);
        }
        let JsonMapBuilder { mut out, has_fields, fields } = self;
        start_field(&mut out, has_fields, key);
        push_json_string(&mut out, value);
        assert(out@ =~= member_prefix(fields@) + str_field(key@, value@));
        JsonMapBuilder::finish_field(out, fields, Ghost(str_field(key@, value@)))
    }

    /// Adds a member whose value is the number `value`.
    pub fn set_u64(self, key: &str, value: u64) -> (b: JsonMapBuilder)
        ensures
            b.fields() == self.fields().push(num_field(key@, value as nat)),
    {
        proof {
            use_type_invariant(&self);
        }
        let JsonMapBuilder { mut out, has_fields, fields } = self;
        start_field(&mut out, has_fields, key);
        push_decimal(&mut out, value);
        assert(out@ =~= member_prefix(fields@) + num_field(key@, value as nat));
        JsonMapBuilder::finish_field(out, fields, Ghost(num_field(key@, value as nat)))
    }

    /// Adds a member whose value is `null`.
    pub fn set_null(self, key: &str) -> (b: JsonMapBuilder)
        ensures
            b.fields() == self.fields().push(null_field(key@)),
    {
        proof {
            use_type_invariant(&self);
        }
        let JsonMapBuilder { mut out, has_fields, fields } = self;
        start_field(&mut out, has_fields, key);
        push_char(&mut out, 'n');
        push_char(&mut out, 'u');
        push_char(&mut out, 'l');
        push_char(&mut out, 'l');
        assert(out@ =~= member_prefix(fields@) + null_field(key@));
        JsonMapBuilder::finish_field(out, fields, Ghost(null_field(key@)))
    }

    /// The finished object.
    pub fn build(self) -> (s: String)
        ensures
            s@ == object(self.fields()),
    {
        proof {
            use_type_invariant(&self);
        }
        let JsonMapBuilder { mut out, .. } = self;
        push_char(&mut out, '}');
        out
    }
}

} // verus!
