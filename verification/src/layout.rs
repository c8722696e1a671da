//! The printed form of a document, and the place that each node takes in it.
//!
//! A scalar is printed as its literal. An array or an object is printed over
//! several lines: the opening bracket, one line for each child, indented by
//! four spaces more than the node itself and parted by commas, and the closing
//! bracket on a line of its own.

use crate::text::{
    byte_len, lemma_byte_len_concat, lemma_byte_len_positive, lemma_decimal_not_empty,
    lemma_encode_concat,
};
use crate::validity::digits_end;
use crate::value::{Json, Num};
use vstd::prelude::*;
use vstd::utf8::encode_utf8;

verus! {

/// A half-open range of bytes in the printed document.
pub struct Span {
    pub start: nat,
    pub end: nat,
}

/// The blanks before a line at nesting depth `depth`: four for each level.
pub open spec fn indentation(depth: nat) -> Seq<char>
    decreases depth,
{
    if depth == 0 {
        Seq::empty()
    } else {
        indentation((depth - 1) as nat) + "    "@
    }
}

/// What parts two lines of children.
pub open spec fn separator() -> Seq<char> {
    ",\n"@
}

/// `parts` written one after the other with `sep` between neighbours.
pub open spec fn join(parts: Seq<Seq<char>>, sep: Seq<char>) -> Seq<char>
    decreases parts.len(),
{
    if parts.len() == 0 {
        Seq::empty()
    } else if parts.len() == 1 {
        parts[0]
    } else {
        join(parts.drop_last(), sep) + sep + parts.last()
    }
}

/// The bracket and line break that open a composite node.
pub open spec fn opener(doc: Json) -> Seq<char> {
    match doc {
        Json::Array(_) => "[\n"@,
        Json::Object(_) => "{\n"@,
        _ => Seq::empty(),
    }
}

/// The bracket that closes a composite node.
pub open spec fn closer(doc: Json) -> Seq<char> {
    match doc {
        Json::Array(_) => "]"@,
        Json::Object(_) => "}"@,
        _ => Seq::empty(),
    }
}

/// What stands on the line of child `i` before the child itself: the
/// indentation and, in an object, the quoted key and a colon.
pub open spec fn line_prefix(doc: Json, depth: nat, i: int) -> Seq<char> {
    match doc {
        Json::Object(entries) => indentation(depth + 1) + "\""@ + entries[i].key + "\": "@,
        _ => indentation(depth + 1),
    }
}

/// The line of child `i` of a composite node printed at depth `depth`.
pub open spec fn line(doc: Json, depth: nat, i: int) -> Seq<char>
    decreases doc, 0nat,
{
    if 0 <= i < doc.child_count() {
        line_prefix(doc, depth, i) + render(doc.child(i), depth + 1)
    } else {
        Seq::empty()
    }
}

/// The lines of all children of a composite node, in order.
pub open spec fn lines(doc: Json, depth: nat) -> Seq<Seq<char>>
    decreases doc, 1nat,
{
    Seq::new(doc.child_count(), |i: int| line(doc, depth, i))
}

/// The printed form of `doc` where it stands at nesting depth `depth`.
pub open spec fn render(doc: Json, depth: nat) -> Seq<char>
    decreases doc, 2nat,
{
    match doc {
        Json::Null => "null"@,
        Json::Bool(b) => if b {
            "true"@
        } else {
            "false"@
        },
        Json::Number(n) => n.literal(),
        Json::Text(s) => "\""@ + s + "\""@,
        _ => opener(doc) + join(lines(doc, depth), separator()) + "\n"@ + indentation(depth)
            + closer(doc),
    }
}

/// The text of a composite node that precedes its child `i`.
pub open spec fn child_start(doc: Json, depth: nat, i: int) -> Seq<char> {
    opener(doc) + join(lines(doc, depth).take(i), separator()) + (if i > 0 {
        separator()
    } else {
        Seq::empty()
    }) + line_prefix(doc, depth, i)
}

/// The span of the node that `path` leads to from `doc`, where `doc` is
/// printed at depth `depth` and begins at byte `base`.
pub open spec fn span_from(doc: Json, depth: nat, base: nat, path: Seq<usize>) -> Span
    recommends
        doc.has(path),
    decreases path.len(),
{
    if path.len() == 0 {
        Span { start: base, end: base + byte_len(render(doc, depth)) }
    } else {
        span_from(
            doc.child(path[0] as int),
            depth + 1,
            base + byte_len(child_start(doc, depth, path[0] as int)),
            path.drop_first(),
        )
    }
}

/// The span that the node at `path` takes in the printed form of the whole
/// document `doc`.
pub open spec fn span_of(doc: Json, path: Seq<usize>) -> Span
    recommends
        doc.has(path),
{
    span_from(doc, 0, 0, path)
}

/// Joining one part more appends the separator, unless the part is the first,
/// and the part.
pub proof fn lemma_join_step(parts: Seq<Seq<char>>, sep: Seq<char>, k: int)
    requires
        0 <= k < parts.len(),
    ensures
        join(parts.take(k + 1), sep) == join(parts.take(k), sep) + (if k > 0 {
            sep
        } else {
            Seq::empty()
        }) + parts[k],
{
    let upto = parts.take(k + 1);
    assert(upto.drop_last() =~= parts.take(k));
    assert(upto.last() == parts[k]);
    if k == 0 {
        assert(join(parts.take(0), sep) + Seq::<char>::empty() + parts[0] =~= parts[0]);
    }
}

/// The text of a composite node up to and with its child `i` is the text that
/// precedes the child, then the child.
pub proof fn lemma_child_placed(doc: Json, depth: nat, i: int)
    requires
        0 <= i < doc.child_count(),
    ensures
        opener(doc) + join(lines(doc, depth).take(i + 1), separator()) == child_start(doc, depth, i)
            + render(doc.child(i), depth + 1),
{
    lemma_join_step(lines(doc, depth), separator(), i);
    assert(lines(doc, depth)[i] == line_prefix(doc, depth, i) + render(doc.child(i), depth + 1));
    let sep = if i > 0 {
        separator()
    } else {
        Seq::empty()
    };
    assert(opener(doc) + (join(lines(doc, depth).take(i), separator()) + sep + (line_prefix(
        doc,
        depth,
        i,
    ) + render(doc.child(i), depth + 1))) =~= opener(doc) + join(
        lines(doc, depth).take(i),
        separator(),
    ) + sep + line_prefix(doc, depth, i) + render(doc.child(i), depth + 1));
}

/// The parts from index `from` on, each after a separator.
pub open spec fn join_rest(parts: Seq<Seq<char>>, sep: Seq<char>, from: int) -> Seq<char>
    decreases parts.len() - from,
{
    if from < 0 || from >= parts.len() {
        Seq::empty()
    } else {
        sep + parts[from] + join_rest(parts, sep, from + 1)
    }
}

/// All parts joined are the first `k` joined, then the others, each after a
/// separator.
pub proof fn lemma_join_split(parts: Seq<Seq<char>>, sep: Seq<char>, k: int)
    requires
        1 <= k <= parts.len(),
    ensures
        join(parts, sep) == join(parts.take(k), sep) + join_rest(parts, sep, k),
    decreases parts.len() - k,
{
    if k == parts.len() {
        assert(parts.take(k) =~= parts);
        assert(join(parts, sep) + Seq::<char>::empty() =~= join(parts, sep));
    } else {
        lemma_join_split(parts, sep, k + 1);
        lemma_join_step(parts, sep, k);
        assert(join(parts.take(k), sep) + sep + parts[k] + join_rest(parts, sep, k + 1) =~= join(
            parts.take(k),
            sep,
        ) + (sep + parts[k] + join_rest(parts, sep, k + 1)));
    }
}

/// The text of a composite node that follows its child `i`.
pub open spec fn child_end(doc: Json, depth: nat, i: int) -> Seq<char> {
    join_rest(lines(doc, depth), separator(), i + 1) + "\n"@ + indentation(depth) + closer(doc)
}

/// Six texts in a row, grouped in two ways.
proof fn lemma_regroup(
    a: Seq<char>,
    b: Seq<char>,
    c: Seq<char>,
    d: Seq<char>,
    e: Seq<char>,
    f: Seq<char>,
)
    ensures
        a + (b + c) + d + e + f == (a + b) + (c + d + e + f),
{
    assert(a + (b + c) + d + e + f =~= (a + b) + (c + d + e + f));
}

/// The text of a composite node is the text before a child, the child, and
/// the text after it.
pub proof fn lemma_child_surrounded(doc: Json, depth: nat, i: int)
    requires
        0 <= i < doc.child_count(),
    ensures
        render(doc, depth) == child_start(doc, depth, i) + render(doc.child(i), depth + 1)
            + child_end(doc, depth, i),
{
    let all = lines(doc, depth);
    let upto = join(all.take(i + 1), separator());
    let rest = join_rest(all, separator(), i + 1);
    lemma_child_placed(doc, depth, i);
    lemma_join_split(all, separator(), i + 1);
    lemma_regroup(opener(doc), upto, rest, "\n"@, indentation(depth), closer(doc));
}

/// The node that `path` leads to stands in the printed document at its span:
/// where `doc`, printed at depth `depth`, stands in a text after `head`, the
/// bytes of the text from the start of the span to its end are the bytes of
/// the node, printed at its own depth.
pub proof fn lemma_span_holds_node(
    doc: Json,
    depth: nat,
    head: Seq<char>,
    tail: Seq<char>,
    path: Seq<usize>,
)
    requires
        doc.has(path),
    ensures
        encode_utf8(head + render(doc, depth) + tail).subrange(
            span_from(doc, depth, byte_len(head), path).start as int,
            span_from(doc, depth, byte_len(head), path).end as int,
        ) == encode_utf8(render(doc.at(path)->Some_0, depth + path.len())),
    decreases path.len(),
{
    if path.len() == 0 {
        lemma_encode_concat(head, render(doc, depth));
        lemma_encode_concat(head + render(doc, depth), tail);
        assert((encode_utf8(head) + encode_utf8(render(doc, depth)) + encode_utf8(tail)).subrange(
            byte_len(head) as int,
            (byte_len(head) + byte_len(render(doc, depth))) as int,
        ) =~= encode_utf8(render(doc, depth)));
    } else {
        let i = path[0] as int;
        let before = child_start(doc, depth, i);
        let after = child_end(doc, depth, i);
        lemma_child_surrounded(doc, depth, i);
        lemma_byte_len_concat(head, before);
        assert(head + render(doc, depth) + tail =~= (head + before) + render(
            doc.child(i),
            depth + 1,
        ) + (after + tail));
        lemma_span_holds_node(doc.child(i), depth + 1, head + before, after + tail, path.drop_first());
    }
}

/// A child's text, where it stands, ends within the text of its parent.
pub proof fn lemma_child_within(doc: Json, depth: nat, i: int)
    requires
        0 <= i < doc.child_count(),
    ensures
        byte_len(child_start(doc, depth, i)) + byte_len(render(doc.child(i), depth + 1))
            <= byte_len(render(doc, depth)),
{
    lemma_child_surrounded(doc, depth, i);
    let placed = child_start(doc, depth, i) + render(doc.child(i), depth + 1);
    lemma_byte_len_concat(child_start(doc, depth, i), render(doc.child(i), depth + 1));
    lemma_byte_len_concat(placed, child_end(doc, depth, i));
}

/// The span of a node lies within `base .. base + len`, the range of the
/// document it belongs to, and is well formed.
pub proof fn lemma_span_within(doc: Json, depth: nat, base: nat, path: Seq<usize>)
    requires
        doc.has(path),
    ensures
        base <= span_from(doc, depth, base, path).start,
        span_from(doc, depth, base, path).start <= span_from(doc, depth, base, path).end,
        span_from(doc, depth, base, path).end <= base + byte_len(render(doc, depth)),
    decreases path.len(),
{
    if path.len() > 0 {
        let i = path[0] as int;
        lemma_child_within(doc, depth, i);
        lemma_span_within(
            doc.child(i),
            depth + 1,
            base + byte_len(child_start(doc, depth, i)),
            path.drop_first(),
        );
    }
}

/// A path leads on from the node that a prefix of it leads to.
pub proof fn lemma_at_concat(doc: Json, upper: Seq<usize>, lower: Seq<usize>)
    ensures
        doc.at(upper + lower) == match doc.at(upper) {
            Some(node) => node.at(lower),
            None => None,
        },
    decreases upper.len(),
{
    if upper.len() == 0 {
        assert(upper + lower =~= lower);
    } else {
        assert((upper + lower)[0] == upper[0]);
        assert((upper + lower).drop_first() =~= upper.drop_first() + lower);
        if upper[0] < doc.child_count() {
            lemma_at_concat(doc.child(upper[0] as int), upper.drop_first(), lower);
        }
    }
}

/// The span of a descendant lies within the span of each of its ancestors:
/// where `upper` leads to a node and `upper + lower` to a node below it, the
/// second span starts no earlier and ends no later than the first.
pub proof fn lemma_ancestor_contains(doc: Json, upper: Seq<usize>, lower: Seq<usize>)
    requires
        doc.has(upper + lower),
    ensures
        doc.has(upper),
        span_of(doc, upper).start <= span_of(doc, upper + lower).start,
        span_of(doc, upper + lower).start <= span_of(doc, upper + lower).end,
        span_of(doc, upper + lower).end <= span_of(doc, upper).end,
{
    lemma_at_concat(doc, upper, lower);
    lemma_nested_contains(doc, 0, 0, upper, lower);
}

/// The containment of spans, for a document printed at any depth and place.
pub proof fn lemma_nested_contains(
    doc: Json,
    depth: nat,
    base: nat,
    upper: Seq<usize>,
    lower: Seq<usize>,
)
    requires
        doc.has(upper + lower),
    ensures
        span_from(doc, depth, base, upper).start <= span_from(doc, depth, base, upper + lower).start,
        span_from(doc, depth, base, upper + lower).start <= span_from(
            doc,
            depth,
            base,
            upper + lower,
        ).end,
        span_from(doc, depth, base, upper + lower).end <= span_from(doc, depth, base, upper).end,
    decreases upper.len(),
{
    if upper.len() == 0 {
        assert(upper + lower =~= lower);
        lemma_span_within(doc, depth, base, lower);
    } else {
        let i = upper[0] as int;
        assert((upper + lower)[0] == upper[0]);
        assert((upper + lower).drop_first() =~= upper.drop_first() + lower);
        lemma_nested_contains(
            doc.child(i),
            depth + 1,
            base + byte_len(child_start(doc, depth, i)),
            upper.drop_first(),
            lower,
        );
    }
}

/// A run of digits ends within the text, or where it starts.
proof fn lemma_digits_end_bound(s: Seq<char>, from: int)
    requires
        0 <= from,
    ensures
        from <= digits_end(s, from),
        digits_end(s, from) <= s.len() || digits_end(s, from) == from,
    decreases s.len() - from,
{
    if from < s.len() && crate::validity::is_digit(s[from]) {
        lemma_digits_end_bound(s, from + 1);
    }
}

/// The printed form of a well-formed node is not empty.
pub proof fn lemma_render_not_empty(doc: Json, depth: nat)
    requires
        doc.valid(),
    ensures
        byte_len(render(doc, depth)) > 0,
{
    reveal_strlit("null");
    reveal_strlit("true");
    reveal_strlit("false");
    reveal_strlit("\"");
    reveal_strlit("[\n");
    reveal_strlit("{\n");
    match doc {
        Json::Number(Num::Int(i)) => {
            if i >= 0 {
                lemma_decimal_not_empty(i as nat);
            } else {
                lemma_decimal_not_empty((-i) as nat);
            }
        },
        Json::Number(Num::Float(literal)) => {
            let start: int = if literal.len() > 0 && literal[0] == '-' {
                1
            } else {
                0
            };
            lemma_digits_end_bound(literal, start);
        },
        _ => {},
    }
    assert(render(doc, depth).len() > 0);
    lemma_byte_len_positive(render(doc, depth));
}

/// Before the first child and after the last one a composite node has text
/// of its own: the brackets.
pub proof fn lemma_brackets_take_room(doc: Json, depth: nat, i: int)
    requires
        0 <= i < doc.child_count(),
    ensures
        byte_len(child_start(doc, depth, i)) > 0,
        byte_len(child_end(doc, depth, i)) > 0,
{
    reveal_strlit("[\n");
    reveal_strlit("{\n");
    reveal_strlit("]");
    reveal_strlit("}");
    assert(child_start(doc, depth, i).len() > 0);
    assert(child_end(doc, depth, i).len() > 0);
    lemma_byte_len_positive(child_start(doc, depth, i));
    lemma_byte_len_positive(child_end(doc, depth, i));
}

/// The span of a node that is not the document itself lies strictly within
/// `base .. base + len`, the range of the document.
pub proof fn lemma_span_strictly_within(doc: Json, depth: nat, base: nat, path: Seq<usize>)
    requires
        doc.has(path),
        path.len() > 0,
    ensures
        base < span_from(doc, depth, base, path).start,
        span_from(doc, depth, base, path).end < base + byte_len(render(doc, depth)),
{
    let i = path[0] as int;
    lemma_brackets_take_room(doc, depth, i);
    lemma_child_surrounded(doc, depth, i);
    let placed = child_start(doc, depth, i) + render(doc.child(i), depth + 1);
    lemma_byte_len_concat(child_start(doc, depth, i), render(doc.child(i), depth + 1));
    lemma_byte_len_concat(placed, child_end(doc, depth, i));
    lemma_span_within(
        doc.child(i),
        depth + 1,
        base + byte_len(child_start(doc, depth, i)),
        path.drop_first(),
    );
}

/// The span of a node lies strictly within the span of each of its proper
/// ancestors: it starts later and ends earlier.
pub proof fn lemma_nested_strictly(
    doc: Json,
    depth: nat,
    base: nat,
    upper: Seq<usize>,
    lower: Seq<usize>,
)
    requires
        doc.has(upper + lower),
        lower.len() > 0,
    ensures
        span_from(doc, depth, base, upper).start < span_from(doc, depth, base, upper + lower).start,
        span_from(doc, depth, base, upper + lower).end < span_from(doc, depth, base, upper).end,
    decreases upper.len(),
{
    if upper.len() == 0 {
        assert(upper + lower =~= lower);
        lemma_span_strictly_within(doc, depth, base, lower);
    } else {
        let i = upper[0] as int;
        assert((upper + lower)[0] == upper[0]);
        assert((upper + lower).drop_first() =~= upper.drop_first() + lower);
        lemma_nested_strictly(
            doc.child(i),
            depth + 1,
            base + byte_len(child_start(doc, depth, i)),
            upper.drop_first(),
            lower,
        );
    }
}

/// A longer run of lines is longer in bytes: each further line comes after a
/// separator.
proof fn lemma_join_grows(parts: Seq<Seq<char>>, k: int, n: int)
    requires
        1 <= k < n <= parts.len(),
    ensures
        byte_len(join(parts.take(k), separator())) < byte_len(join(parts.take(n), separator())),
    decreases n - k,
{
    reveal_strlit(",\n");
    lemma_join_step(parts, separator(), n - 1);
    let head = join(parts.take(n - 1), separator());
    lemma_byte_len_concat(head + separator(), parts[n - 1]);
    lemma_byte_len_concat(head, separator());
    lemma_byte_len_positive(separator());
    if k < n - 1 {
        lemma_join_grows(parts, k, n - 1);
    }
}

/// Of two children of one node the earlier ends before the later begins.
pub proof fn lemma_children_apart(doc: Json, depth: nat, i: int, j: int)
    requires
        0 <= i < j < doc.child_count(),
    ensures
        byte_len(child_start(doc, depth, i)) + byte_len(render(doc.child(i), depth + 1))
            < byte_len(child_start(doc, depth, j)),
{
    let all = lines(doc, depth);
    reveal_strlit(",\n");
    lemma_child_placed(doc, depth, i);
    lemma_byte_len_concat(child_start(doc, depth, i), render(doc.child(i), depth + 1));
    lemma_byte_len_concat(opener(doc), join(all.take(i + 1), separator()));
    if i + 1 < j {
        lemma_join_grows(all, i + 1, j);
    }
    let upto = opener(doc) + join(all.take(j), separator());
    lemma_byte_len_concat(opener(doc), join(all.take(j), separator()));
    lemma_byte_len_concat(upto, separator());
    lemma_byte_len_concat(upto + separator(), line_prefix(doc, depth, j));
    lemma_byte_len_positive(separator());
}

/// Two nodes below two different children of one node have spans that do not
/// meet: what lies below the earlier child ends before what lies below the
/// later child begins. `upper` leads to the node, `i` and `j` are the
/// children, `left` and `right` lead on from them.
pub proof fn lemma_branches_apart(
    doc: Json,
    depth: nat,
    base: nat,
    upper: Seq<usize>,
    i: usize,
    j: usize,
    left: Seq<usize>,
    right: Seq<usize>,
)
    requires
        i < j,
        doc.has(upper + seq![i] + left),
        doc.has(upper + seq![j] + right),
    ensures
        span_from(doc, depth, base, upper + seq![i] + left).end < span_from(
            doc,
            depth,
            base,
            upper + seq![j] + right,
        ).start,
    decreases upper.len(),
{
    let first = upper + seq![i] + left;
    let second = upper + seq![j] + right;
    if upper.len() == 0 {
        assert(first[0] == i && second[0] == j);
        assert(first.drop_first() =~= left);
        assert(second.drop_first() =~= right);
        lemma_children_apart(doc, depth, i as int, j as int);
        lemma_span_within(
            doc.child(i as int),
            depth + 1,
            base + byte_len(child_start(doc, depth, i as int)),
            left,
        );
        lemma_span_within(
            doc.child(j as int),
            depth + 1,
            base + byte_len(child_start(doc, depth, j as int)),
            right,
        );
    } else {
        let step = upper[0] as int;
        assert(first[0] == upper[0] && second[0] == upper[0]);
        assert(first.drop_first() =~= upper.drop_first() + seq![i] + left);
        assert(second.drop_first() =~= upper.drop_first() + seq![j] + right);
        lemma_branches_apart(
            doc.child(step),
            depth + 1,
            base + byte_len(child_start(doc, depth, step)),
            upper.drop_first(),
            i,
            j,
            left,
            right,
        );
    }
}

/// No node of a well-formed document has an empty span.
pub proof fn lemma_span_not_empty(doc: Json, depth: nat, base: nat, path: Seq<usize>)
    requires
        doc.valid(),
        doc.has(path),
    ensures
        span_from(doc, depth, base, path).start < span_from(doc, depth, base, path).end,
    decreases path.len(),
{
    if path.len() == 0 {
        lemma_render_not_empty(doc, depth);
    } else {
        let i = path[0] as int;
        lemma_span_not_empty(
            doc.child(i),
            depth + 1,
            base + byte_len(child_start(doc, depth, i)),
            path.drop_first(),
        );
    }
}

} // verus!
