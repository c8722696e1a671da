//! The form in which a message quotes a node: JSON text on one line, without
//! blanks, its strings escaped.

use crate::layout::{join, lemma_join_step};
use crate::value::{Json, Value};
use vstd::prelude::*;
use vstd::string::StringExecFns;

verus! {

/// The character of a hexadecimal digit, in lower case.
pub open spec fn hex_digit(d: nat) -> char
    recommends
        d < 16,
{
    if d == 0 {
        '0'
    } else if d == 1 {
        '1'
    } else if d == 2 {
        '2'
    } else if d == 3 {
        '3'
    } else if d == 4 {
        '4'
    } else if d == 5 {
        '5'
    } else if d == 6 {
        '6'
    } else if d == 7 {
        '7'
    } else if d == 8 {
        '8'
    } else if d == 9 {
        '9'
    } else if d == 10 {
        'a'
    } else if d == 11 {
        'b'
    } else if d == 12 {
        'c'
    } else if d == 13 {
        'd'
    } else if d == 14 {
        'e'
    } else {
        'f'
    }
}

/// How one character stands inside a JSON string: the quote, the backslash
/// and the control characters are escaped, every other character stands for
/// itself.
pub open spec fn escaped(c: char) -> Seq<char> {
    if c == '"' {
        seq!['\\', '"']
    } else if c == '\\' {
        seq!['\\', '\\']
    } else if c == '\u{8}' {
        seq!['\\', 'b']
    } else if c == '\t' {
        seq!['\\', 't']
    } else if c == '\n' {
        seq!['\\', 'n']
    } else if c == '\u{c}' {
        seq!['\\', 'f']
    } else if c == '\r' {
        seq!['\\', 'r']
    } else if (c as u32) < 0x20 {
        seq!['\\', 'u', '0', '0', hex_digit((c as u32 / 16) as nat), hex_digit((c as u32 % 16) as nat)]
    } else {
        seq![c]
    }
}

/// The characters of `s`, each as it stands inside a JSON string.
pub open spec fn escaped_text(s: Seq<char>) -> Seq<char>
    decreases s.len(),
{
    if s.len() == 0 {
        Seq::empty()
    } else {
        escaped_text(s.drop_last()) + escaped(s.last())
    }
}

/// `s` as a JSON string: escaped, between double quotes.
pub open spec fn json_quoted(s: Seq<char>) -> Seq<char> {
    seq!['"'] + escaped_text(s) + seq!['"']
}

/// `s` as `serde_json` displays the string value made from it: between double
/// quotes, with `\"`, `\\`, `\b`, `\t`, `\n`, `\f`, `\r` for those characters,
/// `\u00` and two lower-case hexadecimal digits for any other character below
/// U+0020, and every other character unchanged.
#[verifier::external_body]
fn quote_json(s: &str) -> (text: String)
    ensures
        text@ == json_quoted(s@),
{
    serde_json::Value::from(s).to_string()
}

/// What stands for child `i` in the compact form of a composite node: the
/// child, after its quoted key and a colon in an object.
pub open spec fn compact_part(doc: Json, i: int) -> Seq<char>
    decreases doc, 0nat,
{
    if 0 <= i < doc.child_count() {
        match doc {
            Json::Object(entries) => json_quoted(entries[i].key) + ":"@ + compact(doc.child(i)),
            _ => compact(doc.child(i)),
        }
    } else {
        Seq::empty()
    }
}

/// What stands for each child of a composite node, in order.
pub open spec fn compact_parts(doc: Json) -> Seq<Seq<char>>
    decreases doc, 1nat,
{
    Seq::new(doc.child_count(), |i: int| compact_part(doc, i))
}

/// `doc` as JSON text on one line.
pub open spec fn compact(doc: Json) -> Seq<char>
    decreases doc, 2nat,
{
    match doc {
        Json::Null => "null"@,
        Json::Bool(b) => if b {
            "true"@
        } else {
            "false"@
        },
        Json::Number(n) => n.literal(),
        Json::Text(s) => json_quoted(s),
        Json::Array(_) => "["@ + join(compact_parts(doc), ","@) + "]"@,
        Json::Object(_) => "{"@ + join(compact_parts(doc), ","@) + "}"@,
    }
}

/// Appends the compact form of `node` to `text`.
fn write_compact(text: &mut String, node: &Value)
    ensures
        final(text)@ == old(text)@ + compact(node@),
    decreases node,
{
    let ghost before = text@;
    let ghost doc = node@;
    match node {
        Value::Null => {
            text.append("null");
        },
        Value::Bool(b) => {
            if *b {
                text.append("true");
            } else {
                text.append("false");
            }
        },
        Value::Number(n) => {
            let literal = n.literal();
            text.append(literal.as_str());
        },
        Value::String(s) => {
            let quoted = quote_json(s.as_str());
            text.append(quoted.as_str());
        },
        Value::Array(items) => {
            text.append("[");
            let mut k: usize = 0;
            assert(compact_parts(doc).take(0) =~= Seq::empty());
            assert(text@ =~= before + "["@ + join(compact_parts(doc).take(0), ","@));
            while k < items.len()
                invariant
                    0 <= k <= items.len(),
                    doc == node@,
                    node == Value::Array(*items),
                    doc.child_count() == items@.len(),
                    text@ == before + "["@ + join(compact_parts(doc).take(k as int), ","@),
                decreases items.len() - k,
            {
                let ghost head = text@;
                if k != 0 {
                    text.append(",");
                }
                write_compact(text, &items[k]);
                proof {
                    lemma_join_step(compact_parts(doc), ","@, k as int);
                    let glue = if k > 0 {
                        ","@
                    } else {
                        Seq::empty()
                    };
                    assert(text@ == head + glue + compact(doc.child(k as int)));
                    assert(text@ =~= before + "["@ + join(
                        compact_parts(doc).take(k as int + 1),
                        ","@,
                    ));
                }
                k += 1;
            }
            text.append("]");
            proof {
                assert(compact_parts(doc).take(k as int) =~= compact_parts(doc));
            }
        },
        Value::Object(entries) => {
            text.append("{");
            let mut k: usize = 0;
            assert(compact_parts(doc).take(0) =~= Seq::empty());
            assert(text@ =~= before + "{"@ + join(compact_parts(doc).take(0), ","@));
            while k < entries.len()
                invariant
                    0 <= k <= entries.len(),
                    doc == node@,
                    node == Value::Object(*entries),
                    doc.child_count() == entries@.len(),
                    text@ == before + "{"@ + join(compact_parts(doc).take(k as int), ","@),
                decreases entries.len() - k,
            {
                let ghost head = text@;
                if k != 0 {
                    text.append(",");
                }
                let key = quote_json(entries[k].0.as_str());
                text.append(key.as_str());
                text.append(":");
                write_compact(text, &entries[k].1);
                proof {
                    lemma_join_step(compact_parts(doc), ","@, k as int);
                    let glue = if k > 0 {
                        ","@
                    } else {
                        Seq::empty()
                    };
                    assert(text@ == head + glue + json_quoted(entries@[k as int].0@) + ":"@
                        + compact(doc.child(k as int)));
                    assert(compact_parts(doc)[k as int] == json_quoted(entries@[k as int].0@)
                        + ":"@ + compact(doc.child(k as int)));
                    assert(text@ =~= before + "{"@ + join(
                        compact_parts(doc).take(k as int + 1),
                        ","@,
                    ));
                }
                k += 1;
            }
            text.append("}");
            proof {
                assert(compact_parts(doc).take(k as int) =~= compact_parts(doc));
            }
        },
    }
}

impl Value {
    /// The node as JSON text on one line.
    pub fn compact_text(&self) -> (text: String)
        ensures
            text@ == compact(self@),
    {
        let mut text = String::new();
        write_compact(&mut text, self);
        assert(Seq::<char>::empty() + compact(self@) =~= compact(self@));
        text
    }
}

} // verus!
