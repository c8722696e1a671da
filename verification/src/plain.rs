//! Texts without an escape character. A colour sequence begins with that
//! character, so in a text that came without one every escape character is
//! the start of a colour sequence.

use crate::compact::{compact, compact_part, compact_parts, escaped, escaped_text, json_quoted};
use crate::error::Failure;
use crate::layout::{
    closer, indentation, join, line, line_prefix, lines, opener, render, separator,
};
use crate::text::{decimal, signed_decimal};
use crate::value::{Json, Kind, Num};
use vstd::prelude::*;

verus! {

/// The character with which every colour sequence begins.
pub open spec fn escape() -> char {
    '\u{1b}'
}

/// Whether `text` holds the escape character.
pub open spec fn has_escape(text: Seq<char>) -> bool {
    text.contains(escape())
}

impl Json {
    /// Whether no string, no key and no literal of the document holds the
    /// escape character.
    pub open spec fn plain(self) -> bool
        decreases self,
    {
        match self {
            Json::Number(Num::Float(literal)) => !has_escape(literal),
            Json::Text(s) => !has_escape(s),
            Json::Array(items) => forall|i: int|
                0 <= i < items.len() ==> (#[trigger] items[i]).plain(),
            Json::Object(entries) => forall|i: int|
                0 <= i < entries.len() ==> !has_escape((#[trigger] entries[i]).key)
                    && entries[i].value.plain(),
            _ => true,
        }
    }
}

impl Failure {
    /// Whether the payload holds no escape character.
    pub open spec fn plain(self) -> bool {
        match self {
            Failure::InvalidType(_, expected) => !has_escape(expected),
            Failure::InvalidValue(_, expected) => !has_escape(expected),
            Failure::MissingObjectKey(_, key) => !has_escape(key),
            Failure::UnexpectedObjectKey(_, key) => !has_escape(key),
            Failure::UnmatchedValidator(_, _) => true,
        }
    }
}

/// Two texts in a row hold an escape character where one of them does.
pub proof fn lemma_concat_plain(a: Seq<char>, b: Seq<char>)
    ensures
        has_escape(a + b) <==> has_escape(a) || has_escape(b),
{
    if has_escape(a + b) {
        let i = choose|i: int| 0 <= i < (a + b).len() && (a + b)[i] == escape();
        if i < a.len() {
            assert(a[i] == escape());
        } else {
            assert(b[i - a.len()] == escape());
        }
    }
    if has_escape(a) {
        let i = choose|i: int| 0 <= i < a.len() && a[i] == escape();
        assert((a + b)[i] == escape());
    }
    if has_escape(b) {
        let i = choose|i: int| 0 <= i < b.len() && b[i] == escape();
        assert((a + b)[i + a.len()] == escape());
    }
}

/// Plain parts joined by a plain separator are plain.
pub proof fn lemma_join_plain(parts: Seq<Seq<char>>, sep: Seq<char>)
    requires
        !has_escape(sep),
        forall|i: int| 0 <= i < parts.len() ==> !has_escape(#[trigger] parts[i]),
    ensures
        !has_escape(join(parts, sep)),
    decreases parts.len(),
{
    if parts.len() > 1 {
        lemma_join_plain(parts.drop_last(), sep);
        lemma_concat_plain(join(parts.drop_last(), sep), sep);
        lemma_concat_plain(join(parts.drop_last(), sep) + sep, parts.last());
    }
}

/// An indentation is plain.
pub proof fn lemma_indentation_plain(depth: nat)
    ensures
        !has_escape(indentation(depth)),
    decreases depth,
{
    reveal_strlit("    ");
    if depth > 0 {
        lemma_indentation_plain((depth - 1) as nat);
        lemma_concat_plain(indentation((depth - 1) as nat), "    "@);
    }
}

/// A decimal literal is plain.
pub proof fn lemma_decimal_plain(n: nat)
    ensures
        !has_escape(decimal(n)),
        !has_escape(signed_decimal(n as int)),
        !has_escape(signed_decimal(-(n as int))),
    decreases n,
{
    if n >= 10 {
        lemma_decimal_plain(n / 10);
        assert(decimal(n) =~= decimal(n / 10) + seq![crate::text::digit(n % 10)]);
        lemma_concat_plain(decimal(n / 10), seq![crate::text::digit(n % 10)]);
    }
    lemma_concat_plain(seq!['-'], decimal(n));
}

/// The brackets, the separator and the prefix of a line are plain where the
/// keys are.
proof fn lemma_frame_plain(doc: Json, depth: nat)
    requires
        doc.plain(),
    ensures
        !has_escape(opener(doc)),
        !has_escape(closer(doc)),
        !has_escape(separator()),
        !has_escape("\n"@),
        forall|i: int| 0 <= i < doc.child_count() ==> !has_escape(line_prefix(doc, depth, i)),
{
    reveal_strlit("[\n");
    reveal_strlit("{\n");
    reveal_strlit("]");
    reveal_strlit("}");
    reveal_strlit(",\n");
    reveal_strlit("\n");
    reveal_strlit("\"");
    reveal_strlit("\": ");
    lemma_indentation_plain(depth + 1);
    assert forall|i: int| 0 <= i < doc.child_count() implies !has_escape(
        line_prefix(doc, depth, i),
    ) by {
        if let Json::Object(entries) = doc {
            let key = entries[i].key;
            lemma_concat_plain(indentation(depth + 1), "\""@);
            lemma_concat_plain(indentation(depth + 1) + "\""@, key);
            lemma_concat_plain(indentation(depth + 1) + "\""@ + key, "\": "@);
        }
    }
}

/// The printed form of a plain document is plain.
pub proof fn lemma_render_plain(doc: Json, depth: nat)
    requires
        doc.plain(),
    ensures
        !has_escape(render(doc, depth)),
    decreases doc,
{
    reveal_strlit("null");
    reveal_strlit("true");
    reveal_strlit("false");
    reveal_strlit("\"");
    match doc {
        Json::Number(Num::Int(i)) => {
            if i >= 0 {
                lemma_decimal_plain(i as nat);
            } else {
                lemma_decimal_plain((-i) as nat);
            }
        },
        Json::Text(s) => {
            lemma_concat_plain("\""@, s);
            lemma_concat_plain("\""@ + s, "\""@);
        },
        Json::Array(_) | Json::Object(_) => {
            lemma_frame_plain(doc, depth);
            lemma_indentation_plain(depth);
            let all = lines(doc, depth);
            assert forall|i: int| 0 <= i < all.len() implies !has_escape(#[trigger] all[i]) by {
                lemma_render_plain(doc.child(i), depth + 1);
                lemma_concat_plain(line_prefix(doc, depth, i), render(doc.child(i), depth + 1));
            }
            lemma_join_plain(all, separator());
            let body = opener(doc) + join(all, separator());
            lemma_concat_plain(opener(doc), join(all, separator()));
            lemma_concat_plain(body, "\n"@);
            lemma_concat_plain(body + "\n"@, indentation(depth));
            lemma_concat_plain(body + "\n"@ + indentation(depth), closer(doc));
        },
        _ => {},
    }
}

/// A string as it stands in JSON text is plain, whatever it holds: the escape
/// character is written with a backslash.
pub proof fn lemma_quoted_plain(s: Seq<char>)
    ensures
        !has_escape(escaped_text(s)),
        !has_escape(json_quoted(s)),
    decreases s.len(),
{
    if s.len() > 0 {
        lemma_quoted_plain(s.drop_last());
        assert(!has_escape(escaped(s.last())));
        lemma_concat_plain(escaped_text(s.drop_last()), escaped(s.last()));
    }
    lemma_concat_plain(seq!['"'], escaped_text(s));
    lemma_concat_plain(seq!['"'] + escaped_text(s), seq!['"']);
}

/// The one-line form of a plain document is plain.
pub proof fn lemma_compact_plain(doc: Json)
    requires
        doc.plain(),
    ensures
        !has_escape(compact(doc)),
    decreases doc,
{
    reveal_strlit("null");
    reveal_strlit("true");
    reveal_strlit("false");
    reveal_strlit("[");
    reveal_strlit("]");
    reveal_strlit("{");
    reveal_strlit("}");
    reveal_strlit(",");
    reveal_strlit(":");
    match doc {
        Json::Number(Num::Int(i)) => {
            if i >= 0 {
                lemma_decimal_plain(i as nat);
            } else {
                lemma_decimal_plain((-i) as nat);
            }
        },
        Json::Text(s) => {
            lemma_quoted_plain(s);
        },
        Json::Array(_) | Json::Object(_) => {
            let all = compact_parts(doc);
            assert forall|i: int| 0 <= i < all.len() implies !has_escape(#[trigger] all[i]) by {
                lemma_compact_plain(doc.child(i));
                if let Json::Object(entries) = doc {
                    lemma_quoted_plain(entries[i].key);
                    lemma_concat_plain(json_quoted(entries[i].key), ":"@);
                    lemma_concat_plain(json_quoted(entries[i].key) + ":"@, compact(doc.child(i)));
                }
            }
            lemma_join_plain(all, ","@);
            if doc is Array {
                lemma_concat_plain("["@, join(all, ","@));
                lemma_concat_plain("["@ + join(all, ","@), "]"@);
            } else {
                lemma_concat_plain("{"@, join(all, ","@));
                lemma_concat_plain("{"@ + join(all, ","@), "}"@);
            }
        },
        _ => {},
    }
}

/// A plain document leads only to plain nodes.
pub proof fn lemma_plain_at(doc: Json, path: Seq<usize>)
    requires
        doc.plain(),
        doc.has(path),
    ensures
        doc.at(path)->Some_0.plain(),
    decreases path.len(),
{
    if path.len() > 0 {
        lemma_plain_at(doc.child(path[0] as int), path.drop_first());
    }
}

/// The name of a kind is plain.
pub proof fn lemma_kind_plain(kind: Kind)
    ensures
        !has_escape(kind.name()),
{
    reveal_strlit("null");
    reveal_strlit("bool");
    reveal_strlit("number");
    reveal_strlit("string");
    reveal_strlit("array");
    reveal_strlit("object");
}

/// The sentence for a failure with a plain payload in a plain document is
/// plain.
pub proof fn lemma_message_plain(failure: Failure, root: Json)
    requires
        failure.plain(),
        root.plain(),
        failure.reads_node() ==> root.has(failure.location()),
    ensures
        !has_escape(failure.message(root)),
{
    reveal_strlit("Invalid type. Expected ");
    reveal_strlit("Invalid value. Expected ");
    reveal_strlit(" but got ");
    reveal_strlit(".");
    reveal_strlit("Missing key '");
    reveal_strlit("' in object");
    reveal_strlit("Key '");
    reveal_strlit("' is not expected in object");
    reveal_strlit("No match for expected array element ");
    match failure {
        Failure::InvalidType(path, expected) => {
            let node = root.at(path)->Some_0;
            lemma_kind_plain(node.kind());
            let a = "Invalid type. Expected "@ + expected;
            lemma_concat_plain("Invalid type. Expected "@, expected);
            lemma_concat_plain(a, " but got "@);
            lemma_concat_plain(a + " but got "@, node.kind_name());
            lemma_concat_plain(a + " but got "@ + node.kind_name(), "."@);
        },
        Failure::InvalidValue(path, expected) => {
            let node = root.at(path)->Some_0;
            lemma_plain_at(root, path);
            lemma_compact_plain(node);
            let a = "Invalid value. Expected "@ + expected;
            lemma_concat_plain("Invalid value. Expected "@, expected);
            lemma_concat_plain(a, " but got "@);
            lemma_concat_plain(a + " but got "@, compact(node));
            lemma_concat_plain(a + " but got "@ + compact(node), "."@);
        },
        Failure::MissingObjectKey(_, key) => {
            lemma_concat_plain("Missing key '"@, key);
            lemma_concat_plain("Missing key '"@ + key, "' in object"@);
        },
        Failure::UnexpectedObjectKey(_, key) => {
            lemma_concat_plain("Key '"@, key);
            lemma_concat_plain("Key '"@ + key, "' is not expected in object"@);
        },
        Failure::UnmatchedValidator(_, index) => {
            lemma_decimal_plain(index as nat);
            lemma_concat_plain("No match for expected array element "@, decimal(index as nat));
        },
    }
}

} // verus!
