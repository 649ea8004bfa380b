//! A reader of comma-separated records, as the reference that the writer is
//! held to: what was written as a record is read back as the same fields.

use vstd::prelude::*;
use crate::csv::{
    double_quotes, escaped_field, escaped_fields, is_special, needs_quoting, record_text,
};
use crate::text::lemma_join_first;

verus! {

/// Reads the inside of a quoted field, from behind the opening quote: two
/// quotes stand for one, a single quote ends the field. Gives the field and
/// what follows the closing quote.
pub open spec fn read_quoted(s: Seq<char>) -> Option<(Seq<char>, Seq<char>)>
    decreases s.len(),
{
    if s.len() == 0 {
        None
    } else if s[0] == '"' {
        if s.len() >= 2 && s[1] == '"' {
            match read_quoted(s.skip(2)) {
                Some((field, rest)) => Some((seq!['"'] + field, rest)),
                None => None,
            }
        } else {
            Some((Seq::empty(), s.skip(1)))
        }
    } else {
        match read_quoted(s.skip(1)) {
            Some((field, rest)) => Some((seq![s[0]] + field, rest)),
            None => None,
        }
    }
}

/// Reads a field without quotes: up to a comma, a newline or the end.
pub open spec fn read_plain(s: Seq<char>) -> (Seq<char>, Seq<char>)
    decreases s.len(),
{
    if s.len() == 0 || s[0] == ',' || s[0] == '\n' {
        (Seq::empty(), s)
    } else {
        let (field, rest) = read_plain(s.skip(1));
        (seq![s[0]] + field, rest)
    }
}

/// Reads one field, quoted or not, and gives what follows it.
pub open spec fn read_field(s: Seq<char>) -> Option<(Seq<char>, Seq<char>)> {
    if s.len() > 0 && s[0] == '"' {
        read_quoted(s.skip(1))
    } else {
        Some(read_plain(s))
    }
}

/// Reads one record: fields with commas between them, ended by a newline
/// with nothing after it.
pub open spec fn read_record(s: Seq<char>) -> Option<Seq<Seq<char>>>
    decreases s.len(),
{
    match read_field(s) {
        None => None,
        Some((field, rest)) => {
            if rest.len() == 1 && rest[0] == '\n' {
                Some(seq![field])
            } else if rest.len() > 0 && rest[0] == ',' && rest.len() <= s.len() {
                match read_record(rest.skip(1)) {
                    Some(fields) => Some(seq![field] + fields),
                    None => None,
                }
            } else {
                None
            }
        },
    }
}

/// What may follow a field: nothing, a comma or a newline.
pub open spec fn ends_field(tail: Seq<char>) -> bool {
    tail.len() == 0 || tail[0] == ',' || tail[0] == '\n'
}

proof fn lemma_double_quotes_append(a: Seq<char>, b: Seq<char>)
    ensures
        double_quotes(a + b) == double_quotes(a) + double_quotes(b),
    decreases b.len(),
{
    if b.len() == 0 {
        assert(a + b =~= a);
        assert(double_quotes(a) + double_quotes(b) =~= double_quotes(a));
    } else {
        lemma_double_quotes_append(a, b.drop_last());
        assert((a + b).drop_last() =~= a + b.drop_last());
        assert((a + b).last() == b.last());
        assert(double_quotes(a + b) =~= double_quotes(a) + double_quotes(b));
    }
}

proof fn lemma_double_quotes_first(field: Seq<char>)
    requires
        field.len() > 0,
    ensures
        double_quotes(field) == (if field[0] == '"' {
            seq!['"', '"']
        } else {
            seq![field[0]]
        }) + double_quotes(field.drop_first()),
{
    let head = seq![field[0]];
    assert(field =~= head + field.drop_first());
    lemma_double_quotes_append(head, field.drop_first());
    assert(head.drop_last() =~= Seq::<char>::empty());
    assert(double_quotes(head.drop_last()) =~= Seq::<char>::empty());
    if field[0] == '"' {
        assert(double_quotes(head) =~= seq!['"', '"']);
    } else {
        assert(double_quotes(head) =~= seq![field[0]]);
    }
}

proof fn lemma_read_quoted(field: Seq<char>, tail: Seq<char>)
    requires
        tail.len() == 0 || tail[0] != '"',
    ensures
        read_quoted(double_quotes(field) + seq!['"'] + tail) == Some((field, tail)),
    decreases field.len(),
{
    let s = double_quotes(field) + seq!['"'] + tail;
    if field.len() == 0 {
        assert(s =~= seq!['"'] + tail);
        assert(s.skip(1) =~= tail);
    } else {
        lemma_double_quotes_first(field);
        let others = field.drop_first();
        let inner = double_quotes(others) + seq!['"'] + tail;
        lemma_read_quoted(others, tail);
        if field[0] == '"' {
            assert(s =~= seq!['"', '"'] + inner);
            assert(s.skip(2) =~= inner);
            assert(seq!['"'] + others =~= field);
        } else {
            assert(s =~= seq![field[0]] + inner);
            assert(s.skip(1) =~= inner);
            assert(seq![field[0]] + others =~= field);
        }
    }
}

proof fn lemma_read_plain(field: Seq<char>, tail: Seq<char>)
    requires
        !needs_quoting(field),
        ends_field(tail),
    ensures
        read_plain(field + tail) == (field, tail),
    decreases field.len(),
{
    let s = field + tail;
    if field.len() == 0 {
        assert(s =~= tail);
    } else {
        let others = field.drop_first();
        assert(!is_special(field[0]));
        assert(!needs_quoting(others)) by {
            if needs_quoting(others) {
                let i = choose|i: int| 0 <= i < others.len() && is_special(#[trigger] others[i]);
                assert(is_special(field[i + 1]));
            }
        }
        lemma_read_plain(others, tail);
        assert(s.skip(1) =~= others + tail);
        assert(seq![s[0]] + others =~= field);
    }
}

/// A field that was written is read back as it was, and the reader stops
/// where the field ends.
pub proof fn lemma_read_field(field: Seq<char>, tail: Seq<char>)
    requires
        ends_field(tail),
    ensures
        read_field(escaped_field(field) + tail) == Some((field, tail)),
{
    let s = escaped_field(field) + tail;
    if needs_quoting(field) {
        lemma_read_quoted(field, tail);
        assert(s =~= seq!['"'] + (double_quotes(field) + seq!['"'] + tail));
        assert(s.skip(1) =~= double_quotes(field) + seq!['"'] + tail);
    } else {
        lemma_read_plain(field, tail);
        if s.len() > 0 && s[0] == '"' {
            if field.len() > 0 {
                assert(is_special(field[0]));
            }
        }
    }
}

/// A record that was written is read back as the fields that went into
/// it: whatever the fields hold, commas, quotes and newlines included.
pub proof fn lemma_read_record(fields: Seq<Seq<char>>)
    requires
        fields.len() >= 1,
    ensures
        read_record(record_text(fields)) == Some(fields),
    decreases fields.len(),
{
    let parts = escaped_fields(fields);
    let s = record_text(fields);
    if fields.len() == 1 {
        let tail = seq!['\n'];
        assert(s =~= escaped_field(fields[0]) + tail);
        lemma_read_field(fields[0], tail);
        assert(seq![fields[0]] =~= fields);
    } else {
        let others = fields.drop_first();
        lemma_join_first(parts, seq![',']);
        assert(parts.drop_first() =~= escaped_fields(others));
        let tail = seq![','] + record_text(others);
        assert(s =~= escaped_field(fields[0]) + tail);
        lemma_read_field(fields[0], tail);
        assert(tail.skip(1) =~= record_text(others));
        lemma_read_record(others);
        assert(seq![fields[0]] + others =~= fields);
    }
}

} // verus!
