//! The message for a failed validation: the document as text, the offending
//! node underlined, and the sentence that says what is wrong with it.

use crate::error::Error;
use crate::layout::{lemma_span_within, render, span_of};
use crate::plain::{escape, has_escape, lemma_message_plain, lemma_render_plain};
use crate::serializer::SpanSerializer;
use crate::text::byte_len;
use crate::value::Value;
use codespan_reporting::diagnostic::{Diagnostic, Label};
use codespan_reporting::files::SimpleFiles;
use codespan_reporting::term;
use codespan_reporting::term::termcolor::{Ansi, NoColor};
use std::ops::Range;
use vstd::prelude::*;

verus! {

/// The plain text that `codespan_reporting` writes for an error diagnostic
/// with the message `title` and one primary label: the label marks the bytes
/// from `start` up to `end` of the unnamed source `source` and carries the
/// message `label`.
pub uninterp spec fn diagnostic_text(
    title: Seq<char>,
    source: Seq<char>,
    start: nat,
    end: nat,
    label: Seq<char>,
) -> Seq<char>;

/// What is left of `text`, which begins within a colour sequence, once the
/// rest of that sequence, up to and with its closing `m`, and all later
/// sequences are taken out.
pub open spec fn after_sequence(text: Seq<char>) -> Seq<char>
    decreases text.len(), 0nat,
{
    if text.len() == 0 {
        Seq::empty()
    } else if text[0] == 'm' {
        without_colour(text.drop_first())
    } else {
        after_sequence(text.drop_first())
    }
}

/// `text` without its colour sequences: each run from an escape character to
/// the next `m` is taken out.
pub open spec fn without_colour(text: Seq<char>) -> Seq<char>
    decreases text.len(), 1nat,
{
    if text.len() == 0 {
        Seq::empty()
    } else if text[0] == escape() {
        after_sequence(text.drop_first())
    } else {
        seq![text[0]] + without_colour(text.drop_first())
    }
}

/// Renders one error diagnostic with `codespan_reporting::term::emit`, under
/// its default configuration, into a `termcolor::NoColor` writer in memory.
/// Nothing but the arguments goes into the text. `emit` fails only on a file
/// that is missing or on a writer that fails; here the file has just been
/// added and the writer is a vector.
#[verifier::external_body]
fn emit_plain(title: &str, source: &str, range: Range<usize>, label: &str) -> (text: String)
    requires
        range.start <= range.end <= byte_len(source@),
    ensures
        text@ == diagnostic_text(
            title@,
            source@,
            range.start as nat,
            range.end as nat,
            label@,
        ),
{
    let mut files = SimpleFiles::new();
    let file = files.add("", source);
    let labels = vec![Label::primary(file, range).with_message(label)];
    let diagnostic = Diagnostic::error().with_message(title).with_labels(labels);
    let mut writer = NoColor::new(Vec::<u8>::new());
    term::emit(&mut writer, &term::Config::default(), &files, &diagnostic).unwrap();
    String::from_utf8(writer.into_inner()).unwrap()
}

/// Renders one error diagnostic with `codespan_reporting::term::emit`, under
/// its default configuration, into a `termcolor::Ansi` writer in memory. The
/// renderer writes to this writer what it writes to a plain one and, in
/// between, sets and resets colours; the writer turns each such call into
/// sequences that run from an escape character to an `m`. Which colours they
/// name is not the same on every platform, so the contract speaks of the text
/// without them, and only where the arguments hold no escape character of
/// their own.
#[verifier::external_body]
fn emit_coloured(title: &str, source: &str, range: Range<usize>, label: &str) -> (text: String)
    requires
        range.start <= range.end <= byte_len(source@),
    ensures
        !has_escape(title@) && !has_escape(source@) && !has_escape(label@) ==> without_colour(
            text@,
        ) == diagnostic_text(title@, source@, range.start as nat, range.end as nat, label@),
{
    let mut files = SimpleFiles::new();
    let file = files.add("", source);
    let labels = vec![Label::primary(file, range).with_message(label)];
    let diagnostic = Diagnostic::error().with_message(title).with_labels(labels);
    let mut writer = Ansi::new(Vec::<u8>::new());
    term::emit(&mut writer, &term::Config::default(), &files, &diagnostic).unwrap();
    String::from_utf8(writer.into_inner()).unwrap()
}

/// The heading of every message.
pub open spec fn title() -> Seq<char> {
    "Invalid JSON"@
}

/// The heading holds no escape character.
proof fn lemma_title_is_plain()
    ensures
        !has_escape(title()),
{
    reveal_strlit("Invalid JSON");
}

/// The message for `error`, which a validation of `json` returned: `json` in
/// printed form with the span of the offending node marked and the sentence of
/// the error beside the mark. Without `color` the message is plain text. With
/// `color` it carries ANSI colour sequences, for a terminal, and is the plain
/// message once they are taken out; this is stated for a printed document and
/// a sentence that hold no escape character themselves, as they do where
/// neither the document nor the payload of the error holds one.
pub fn format_error(json: &Value, error: &Error, color: bool) -> (text: String)
    requires
        json@.has(error@.location()),
    ensures
        !color ==> text@ == diagnostic_text(
            title(),
            render(json@, 0),
            span_of(json@, error@.location()).start,
            span_of(json@, error@.location()).end,
            error@.message(json@),
        ),
        color && !has_escape(render(json@, 0)) && !has_escape(error@.message(json@))
            ==> without_colour(text@) == diagnostic_text(
            title(),
            render(json@, 0),
            span_of(json@, error@.location()).start,
            span_of(json@, error@.location()).end,
            error@.message(json@),
        ),        color && json@.plain() && error@.plain() ==> without_colour(text@) == diagnostic_text(
            title(),
            render(json@, 0),
            span_of(json@, error@.location()).start,
            span_of(json@, error@.location()).end,
            error@.message(json@),
        ),
{
    let serializer = SpanSerializer::serialize(json);
    let range = serializer.span(error.location());
    let sentence = error.message(json);
    proof {
        lemma_span_within(json@, 0, 0, error@.location());
        lemma_title_is_plain();
        if json@.plain() && error@.plain() {
            lemma_render_plain(json@, 0);
            lemma_message_plain(error@, json@);
        }
    }
    if color {
        emit_coloured("Invalid JSON", serializer.serialized_json(), range, sentence.as_str())
    } else {
        emit_plain("Invalid JSON", serializer.serialized_json(), range, sentence.as_str())
    }
}

} // verus!
