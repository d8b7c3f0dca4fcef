//! One HTTP header field: a name and a value, read from and written as a
//! single `name: value` line.
use vstd::prelude::*;

use crate::text::{
    contains_whitespace, decimal, decimal_string, find_char, has_ws, is_ws, lemma_decimal_digits,
    lemma_trimmed_ends, trim_whitespace, trimmed,
};

verus! {

/// A header field. A field read by `Field::from` always has a valid name
/// and value (see `Field::wf`); one built by `Field::new` holds whatever
/// its caller gave.
#[derive(Debug, PartialEq)]
pub struct Field {
    pub name: String,
    pub value: String,
}

/// Why a line could not be read as a header field.
#[derive(Debug, Clone, Copy, PartialEq, Eq, Structural)]
pub enum ParseError {
    /// No `:` separator, whitespace in the name, or a line feed in the value.
    InvalidField,
}

impl ParseError {
    /// The error's fixed message.
    pub fn to_string(&self) -> (r: String)
        ensures
            r@ == "HTTP parsing error: Invalid field"@,
    {
        String::from_str("HTTP parsing error: Invalid field")
    }
}

/// A field name has no whitespace.
pub open spec fn valid_name(name: Seq<char>) -> bool {
    !has_ws(name)
}

/// A field value holds no line feed and has no whitespace at either end.
pub open spec fn valid_value(value: Seq<char>) -> bool {
    &&& !value.contains('\n')
    &&& value.len() > 0 ==> !is_ws(value[0]) && !is_ws(value.last())
}

/// The name and value read from `line`, or `None` where the line is not a
/// header field: the name is the text before the first `:`, the value the
/// text after it with surrounding whitespace removed.
pub open spec fn parse_spec(line: Seq<char>) -> Option<(Seq<char>, Seq<char>)> {
    match line.index_of_first(':') {
        None => None,
        Some(k) => {
            let name = line.subrange(0, k);
            let value = trimmed(line.subrange(k + 1, line.len() as int));
            if has_ws(name) || value.contains('\n') {
                None
            } else {
                Some((name, value))
            }
        },
    }
}

/// The wire form of a field: name, a colon, one space, value.
pub open spec fn render_spec(name: Seq<char>, value: Seq<char>) -> Seq<char> {
    name + seq![':', ' '] + value
}

impl Field {
    /// The field's name and value are both valid.
    pub open spec fn wf(&self) -> bool {
        valid_name(self.name@) && valid_value(self.value@)
    }

    /// A field from a name and value that the caller vouches for; nothing
    /// is checked.
    pub fn new(name: String, value: String) -> (r: Field)
        ensures
            r.name@ == name@,
            r.value@ == value@,
    {
        Field { name, value }
    }

    /// The `Content-Length` field for a body of `length` bytes.
    pub fn new_contentlength(length: usize) -> (r: Field)
        ensures
            r.name@ == "Content-Length"@,
            r.value@ == decimal(length as nat),
            r.wf(),
    {
        let name = String::from_str("Content-Length");
        let value = decimal_string(length);
        proof {
            reveal_strlit("Content-Length");
            lemma_decimal_digits(length as nat);
        }
        Field { name, value }
    }

    /// Reads a header line `name ":" OWS value OWS`. The name is the text
    /// before the first `:` and must hold no whitespace; the value is the
    /// rest with whitespace trimmed at both ends and must hold no line feed.
    pub fn from(line: String) -> (r: Result<Field, ParseError>)
        ensures
            match r {
                Ok(f) => parse_spec(line@) == Some((f.name@, f.value@)),
                Err(e) => parse_spec(line@) is None && e == ParseError::InvalidField,
            },
            !line@.contains(':') ==> r is Err,
            r matches Ok(f) ==> f.wf(),
    {
        let s = line.as_str();
        proof {
            line@.index_of_first_ensures(':');
        }
        let sep = find_char(s, ':');
        match sep {
            None => Err(ParseError::InvalidField),
            Some(k) => {
                let name = s.substring_char(0, k);
                if contains_whitespace(name) {
                    return Err(ParseError::InvalidField);
                }
                let n = s.unicode_len();
                let value = trim_whitespace(s.substring_char(k + 1, n));
                if find_char(value, '\n').is_some() {
                    return Err(ParseError::InvalidField);
                }
                proof {
                    lemma_trimmed_ends(line@.subrange(k + 1, n as int));
                }
                Ok(Field { name: String::from_str(name), value: String::from_str(value) })
            },
        }
    }

    /// The text of the whole field, `name: value`, with no line terminator.
    pub fn to_string(&self) -> (r: String)
        ensures
            r@ == render_spec(self.name@, self.value@),
    {
        let mut r = self.name.clone();
        proof {
            reveal_strlit(": ");
        }
        r.append(": ");
        r.append(self.value.as_str());
        assert(r@ =~= render_spec(self.name@, self.value@));
        r
    }
}

/// A field built from a name without whitespace and a value without a line
/// feed renders as exactly `name: value`, and that text is a single line.
pub proof fn law_render_new(name: Seq<char>, value: Seq<char>)
    requires
        !has_ws(name),
        !value.contains('\n'),
    ensures
        render_spec(name, value) == name + seq![':', ' '] + value,
        !render_spec(name, value).contains('\n'),
{
    let r = render_spec(name, value);
    assert forall|i: int| 0 <= i < r.len() implies r[i] != '\n' by {
        if i < name.len() {
            assert(r[i] == name[i]);
            assert(is_ws('\n'));
        } else if i >= name.len() + 2 {
            assert(r[i] == value[i - name.len() - 2]);
        }
    }
}

/// The line `name:value` reads back as `name` and `value` trimmed, where the
/// name holds neither whitespace nor a colon and the trimmed value holds no
/// line feed.
pub proof fn law_parse_round_trip(name: Seq<char>, value: Seq<char>)
    requires
        !name.contains(':'),
        !has_ws(name),
        !trimmed(value).contains('\n'),
    ensures
        parse_spec(name + seq![':'] + value) == Some((name, trimmed(value))),
{
    let line = name + seq![':'] + value;
    let k = name.len() as int;
    assert(line[k] == ':');
    line.index_of_first_ensures(':');
    let first = line.index_of_first(':')->Some_0;
    if first < k {
        assert(line[first] == name[first]);
    }
    assert(first == k);
    assert(line.subrange(0, k) =~= name);
    assert(line.subrange(k + 1, line.len() as int) =~= value);
}

} // verus!
