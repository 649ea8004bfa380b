//! Escaping of the fields of a comma-separated record.

use vstd::prelude::*;
use vstd::std_specs::iter::IteratorSpec;
use vstd::string::StringExecFns;
use crate::csv_reader::{lemma_read_record, read_record};
use crate::text::{join, join_with, push_char, texts};

verus! {

/// Whether a character makes it necessary to enclose a field in quotes.
pub open spec fn is_special(c: char) -> bool {
    c == ',' || c == '"' || c == '\n'
}

/// Whether a field holds a comma, a double quote or a newline.
pub open spec fn needs_quoting(field: Seq<char>) -> bool {
    exists|i: int| 0 <= i < field.len() && is_special(#[trigger] field[i])
}

/// The field with every double quote written twice.
pub open spec fn double_quotes(field: Seq<char>) -> Seq<char>
    decreases field.len(),
{
    if field.len() == 0 {
        Seq::empty()
    } else if field.last() == '"' {
        double_quotes(field.drop_last()).push('"').push('"')
    } else {
        double_quotes(field.drop_last()).push(field.last())
    }
}

/// The field as it stands in a record.
pub open spec fn escaped_field(field: Seq<char>) -> Seq<char> {
    if needs_quoting(field) {
        seq!['"'] + double_quotes(field) + seq!['"']
    } else {
        field
    }
}

/// The fields in their escaped form.
pub open spec fn escaped_fields(fields: Seq<Seq<char>>) -> Seq<Seq<char>> {
    Seq::new(fields.len(), |i: int| escaped_field(fields[i]))
}

/// One record: the escaped fields with commas between them, and a newline.
pub open spec fn record_text(fields: Seq<Seq<char>>) -> Seq<char> {
    join(escaped_fields(fields), seq![',']) + seq!['\n']
}

/// A field as it stands in a record: unchanged, unless it holds a comma, a
/// double quote or a newline; such a field is enclosed in double quotes,
/// with each double quote inside it written twice.
pub fn escape_csv_field(field: &str) -> (out: String)
    ensures
        out@ == escaped_field(field@),
{
    let mut special = false;
    let mut doubled = String::new();
    let ghost mut seen: Seq<char> = Seq::empty();
    for c in it: field.chars()
        invariant
            it.seq() == field@,
            seen == field@.take(it.index() as int),
            special == needs_quoting(seen),
            doubled@ == double_quotes(seen),
    {
        if c == ',' || c == '"' || c == '\n' {
            special = true;
        }
        if c == '"' {
            push_char(&mut doubled, '"');
        }
        push_char(&mut doubled, c);
        proof {
            let before = seen;
            seen = seen.push(c);
            assert(seen.drop_last() == before);
            assert(seen == field@.take(it.index() + 1));
            if needs_quoting(before) {
                let i = choose|i: int| 0 <= i < before.len() && is_special(#[trigger] before[i]);
                assert(is_special(seen[i]));
            }
            if is_special(c) {
                assert(is_special(seen[seen.len() - 1]));
            }
        }
    }
    proof {
        assert(seen == field@);
        reveal_strlit("\"");
    }
    if special {
        let mut out = String::from_str("\"");
        out.append(doubled.as_str());
        out.append("\"");
        out
    } else {
        String::from_str(field)
    }
}

/// One record of the fields, in their order, ended by a newline. A record
/// of one field or more is read back as the fields that went into it.
pub fn encode_record(fields: &Vec<String>) -> (out: String)
    ensures
        out@ == record_text(texts(fields@)),
        fields.len() >= 1 ==> read_record(out@) == Some(texts(fields@)),
{
    let mut parts: Vec<String> = Vec::new();
    let mut i: usize = 0;
    while i < fields.len()
        invariant
            i <= fields.len(),
            parts.len() == i,
            forall|j: int| 0 <= j < i ==> (#[trigger] parts[j])@ == escaped_field(fields[j]@),
        decreases fields.len() - i,
    {
        parts.push(escape_csv_field(fields[i].as_str()));
        i += 1;
    }
    proof {
        reveal_strlit(",");
        reveal_strlit("\n");
        assert(","@ =~= seq![',']);
        assert(texts(parts@) =~= escaped_fields(texts(fields@)));
    }
    let mut out = join_with(&parts, ",");
    out.append("\n");
    assert(out@ =~= record_text(texts(fields@)));
    proof {
        if fields.len() >= 1 {
            lemma_read_record(texts(fields@));
        }
    }
    out
}

} // verus!
