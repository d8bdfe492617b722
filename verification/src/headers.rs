//! Header fields in the order in which they were added.

use crate::text::{colon_space, crlf};
use vstd::prelude::*;

verus! {

/// One header field on the wire: `<name>: <value>` and a line end.
pub open spec fn header_line(field: (Seq<char>, Seq<char>)) -> Seq<char> {
    field.0 + colon_space() + field.1 + crlf()
}

/// The header fields on the wire, one line each, in order.
pub open spec fn header_block(fields: Seq<(Seq<char>, Seq<char>)>) -> Seq<char>
    decreases fields.len(),
{
    if fields.len() == 0 {
        Seq::empty()
    } else {
        header_line(fields[0]) + header_block(fields.drop_first())
    }
}

/// The value of the first field called `name`, if there is one. Names are
/// compared as written.
pub open spec fn first_value(fields: Seq<(Seq<char>, Seq<char>)>, name: Seq<char>) -> Option<
    Seq<char>,
>
    decreases fields.len(),
{
    if fields.len() == 0 {
        None
    } else if fields[0].0 == name {
        Some(fields[0].1)
    } else {
        first_value(fields.drop_first(), name)
    }
}

/// No two fields bear the same name.
pub open spec fn names_differ(fields: Seq<(Seq<char>, Seq<char>)>) -> bool {
    forall|i: int, j: int|
        0 <= i < j < fields.len() ==> (#[trigger] fields[i]).0 != (#[trigger] fields[j]).0
}

/// The header block is written field by field: a field added last is written
/// last, as `<name>: <value>` and a line end.
pub proof fn lemma_header_block_push(
    fields: Seq<(Seq<char>, Seq<char>)>,
    field: (Seq<char>, Seq<char>),
)
    ensures
        header_block(fields.push(field)) == header_block(fields) + header_line(field),
    decreases fields.len(),
{
    if fields.len() == 0 {
        assert(fields.push(field).drop_first() =~= Seq::empty());
        assert(header_block(fields.push(field)) =~= header_line(field) + header_block(
            Seq::empty(),
        ));
    } else {
        lemma_header_block_push(fields.drop_first(), field);
        assert(fields.push(field).drop_first() =~= fields.drop_first().push(field));
    }
}

/// An ordered collection of header fields. A name may occur more than once;
/// the order of insertion is the order on the wire.
#[derive(Debug, PartialEq, Eq)]
pub struct Headers {
    pub entries: Vec<(String, String)>,
}

impl View for Headers {
    type V = Seq<(Seq<char>, Seq<char>)>;

    open spec fn view(&self) -> Seq<(Seq<char>, Seq<char>)> {
        Seq::new(self.entries@.len(), |i: int| (self.entries@[i].0@, self.entries@[i].1@))
    }
}

impl Headers {
    pub fn new() -> (headers: Headers)
        ensures
            headers@ == Seq::<(Seq<char>, Seq<char>)>::empty(),
    {
        Headers { entries: Vec::new() }
    }

    /// Adds a field behind those already present.
    pub fn insert(&mut self, name: &String, value: String)
        ensures
            final(self)@ == old(self)@.push((name@, value@)),
    {
        self.entries.push((name.clone(), value));
    }

    /// The number of fields.
    pub fn len(&self) -> (count: usize)
        ensures
            count == self@.len(),
    {
        self.entries.len()
    }

    /// The value of the first field called `name`.
    pub fn get(&self, name: &String) -> (value: Option<&String>)
        ensures
            match value {
                Some(text) => first_value(self@, name@) == Some(text@),
                None => first_value(self@, name@) is None,
            },
    {
        let mut i: usize = 0;
        assert(self@.skip(0) =~= self@);
        while i < self.entries.len()
            invariant
                i <= self.entries.len(),
                first_value(self@, name@) == first_value(self@.skip(i as int), name@),
            decreases self.entries.len() - i,
        {
            assert(self@.skip(i as int).drop_first() =~= self@.skip(i + 1));
            if self.entries[i].0 == *name {
                return Some(&self.entries[i].1);
            }
            i += 1;
        }
        None
    }

    /// The fields in their wire form, one line each.
    pub fn to_string(&self) -> (text: String)
        ensures
            text@ == header_block(self@),
    {
        let mut text = String::new();
        let mut i: usize = 0;
        assert(self@.skip(0) =~= self@);
        while i < self.entries.len()
            invariant
                i <= self.entries.len(),
                text@ + header_block(self@.skip(i as int)) == header_block(self@),
            decreases self.entries.len() - i,
        {
            proof {
                reveal_strlit(": ");
                reveal_strlit("\r\n");
                assert(self@.skip(i as int).drop_first() =~= self@.skip(i + 1));
            }
            text.append(self.entries[i].0.as_str());
            text.append(": ");
            text.append(self.entries[i].1.as_str());
            text.append("\r\n");
            i += 1;
        }
        text
    }
}

} // verus!
