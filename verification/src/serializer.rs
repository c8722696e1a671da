//! Prints a document and records, for every node, the bytes that it takes in
//! the printed text.

use crate::layout::{
    child_start, closer, indentation, join, lemma_ancestor_contains, lemma_branches_apart,
    lemma_child_placed, lemma_nested_strictly, lemma_span_holds_node, lemma_span_not_empty,
    line_prefix, lines, opener,
    render, separator, span_from, span_of, Span,
};
use crate::text::{byte_len, lemma_byte_len_concat, length_in_bytes};
use crate::value::{Json, Value};
use std::ops::Range;
use vstd::prelude::*;
use vstd::string::StringExecFns;
use vstd::utf8::encode_utf8;

verus! {

/// The span of a node and, below it, the spans of its children in order: a
/// tree of the same shape as the document.
pub struct SpanTree {
    start: usize,
    end: usize,
    children: Vec<SpanTree>,
}

impl SpanTree {
    /// Whether this tree holds the spans of `doc` and of all nodes below it,
    /// `doc` being printed at depth `depth` from byte `base` on.
    pub closed spec fn mirrors(&self, doc: Json, depth: nat, base: nat) -> bool
        decreases self,
    {
        &&& self.start == base
        &&& self.end == base + byte_len(render(doc, depth))
        &&& self.children@.len() == doc.child_count()
        &&& forall|i: int|
            0 <= i < self.children@.len() ==> (#[trigger] self.children@[i]).mirrors(
                doc.child(i),
                depth + 1,
                base + byte_len(child_start(doc, depth, i)),
            )
    }

    /// The span recorded for the node that `path` leads to, if there is one.
    pub closed spec fn find(&self, path: Seq<usize>) -> Option<Span>
        decreases path.len(),
    {
        if path.len() == 0 {
            Some(Span { start: self.start as nat, end: self.end as nat })
        } else if path[0] < self.children@.len() {
            self.children@[path[0] as int].find(path.drop_first())
        } else {
            None
        }
    }

    /// A tree that mirrors a document has a span for exactly the paths that
    /// lead to a node of it, and that span is the node's.
    pub proof fn lemma_find(&self, doc: Json, depth: nat, base: nat, path: Seq<usize>)
        requires
            self.mirrors(doc, depth, base),
        ensures
            self.find(path) == if doc.has(path) {
                Some(span_from(doc, depth, base, path))
            } else {
                None
            },
        decreases path.len(),
    {
        if path.len() > 0 && path[0] < self.children@.len() {
            let i = path[0] as int;
            self.children@[i].lemma_find(
                doc.child(i),
                depth + 1,
                base + byte_len(child_start(doc, depth, i)),
                path.drop_first(),
            );
        }
    }

    /// Walks down `path` and returns the span found there.
    fn lookup(&self, path: &Vec<usize>) -> (r: Option<Range<usize>>)
        ensures
            r is Some <==> self.find(path@) is Some,
            r matches Some(range) ==> self.find(path@) == Some(
                Span { start: range.start as nat, end: range.end as nat },
            ),
    {
        let mut current: &SpanTree = self;
        let mut k: usize = 0;
        assert(path@.skip(0) =~= path@);
        while k < path.len()
            invariant
                0 <= k <= path.len(),
                self.find(path@) == current.find(path@.skip(k as int)),
            decreases path.len() - k,
        {
            let ghost rest = path@.skip(k as int);
            assert(rest.len() > 0 && rest[0] == path@[k as int]);
            assert(rest.drop_first() =~= path@.skip(k as int + 1));
            let i = path[k];
            if i < current.children.len() {
                current = &current.children[i];
            } else {
                return None;
            }
            k += 1;
        }
        assert(path@.skip(k as int).len() == 0);
        Some(current.start..current.end)
    }
}

/// Appends the printed form of `node` to `text` and returns the spans of the
/// node and of all nodes below it. `indent` is the indentation of the line on
/// which the node stands.
fn write_node(text: &mut String, indent: &str, node: &Value, Ghost(depth): Ghost<nat>) -> (tree:
    SpanTree)
    requires
        indent@ == indentation(depth),
    ensures
        final(text)@ == old(text)@ + render(node@, depth),
        tree.mirrors(node@, depth, byte_len(old(text)@)),
    decreases node,
{
    let ghost before = text@;
    let ghost doc = node@;
    let start = length_in_bytes(text.as_str());
    let mut children: Vec<SpanTree> = Vec::new();
    match node {
        Value::Null => {
            text.append("null");
        },
        Value::Bool(b) => {
            if *b {
                text.append("true");
            } else {
                text.append("false");
            }
        },
        Value::Number(n) => {
            let literal = n.literal();
            text.append(literal.as_str());
        },
        Value::String(s) => {
            text.append("\"");
            text.append(s.as_str());
            text.append("\"");
            assert(text@ =~= before + render(doc, depth));
        },
        Value::Array(items) => {
            let inner = String::from_str(indent).concat("    ");
            text.append("[\n");
            let mut k: usize = 0;
            assert(lines(doc, depth).take(0) =~= Seq::empty());
            assert(text@ =~= before + opener(doc) + join(lines(doc, depth).take(0), separator()));
            while k < items.len()
                invariant
                    0 <= k <= items.len(),
                    doc == node@,
                    node == Value::Array(*items),
                    doc.child_count() == items@.len(),
                    inner@ == indentation(depth + 1),
                    text@ == before + opener(doc) + join(
                        lines(doc, depth).take(k as int),
                        separator(),
                    ),
                    children@.len() == k,
                    forall|j: int|
                        0 <= j < k ==> (#[trigger] children@[j]).mirrors(
                            doc.child(j),
                            depth + 1,
                            byte_len(before) + byte_len(child_start(doc, depth, j)),
                        ),
                decreases items.len() - k,
            {
                if k != 0 {
                    text.append(",\n");
                }
                text.append(inner.as_str());
                proof {
                    assert(text@ =~= before + child_start(doc, depth, k as int));
                    lemma_byte_len_concat(before, child_start(doc, depth, k as int));
                    lemma_child_placed(doc, depth, k as int);
                }
                let child = write_node(text, inner.as_str(), &items[k], Ghost(depth + 1));
                assert(text@ =~= before + opener(doc) + join(
                    lines(doc, depth).take(k as int + 1),
                    separator(),
                )) by {
                    assert(text@ == before + child_start(doc, depth, k as int) + render(
                        doc.child(k as int),
                        depth + 1,
                    ));
                    assert(before + (child_start(doc, depth, k as int) + render(
                        doc.child(k as int),
                        depth + 1,
                    )) =~= before + child_start(doc, depth, k as int) + render(
                        doc.child(k as int),
                        depth + 1,
                    ));
                    assert(before + (opener(doc) + join(
                        lines(doc, depth).take(k as int + 1),
                        separator(),
                    )) =~= before + opener(doc) + join(
                        lines(doc, depth).take(k as int + 1),
                        separator(),
                    ));
                }
                children.push(child);
                k += 1;
            }
            text.append("\n");
            text.append(indent);
            text.append("]");
            proof {
                assert(lines(doc, depth).take(k as int) =~= lines(doc, depth));
                assert(text@ =~= before + render(doc, depth));
            }
        },
        Value::Object(entries) => {
            let inner = String::from_str(indent).concat("    ");
            text.append("{\n");
            let mut k: usize = 0;
            assert(lines(doc, depth).take(0) =~= Seq::empty());
            assert(text@ =~= before + opener(doc) + join(lines(doc, depth).take(0), separator()));
            while k < entries.len()
                invariant
                    0 <= k <= entries.len(),
                    doc == node@,
                    node == Value::Object(*entries),
                    doc.child_count() == entries@.len(),
                    inner@ == indentation(depth + 1),
                    text@ == before + opener(doc) + join(
                        lines(doc, depth).take(k as int),
                        separator(),
                    ),
                    children@.len() == k,
                    forall|j: int|
                        0 <= j < k ==> (#[trigger] children@[j]).mirrors(
                            doc.child(j),
                            depth + 1,
                            byte_len(before) + byte_len(child_start(doc, depth, j)),
                        ),
                decreases entries.len() - k,
            {
                if k != 0 {
                    text.append(",\n");
                }
                text.append(inner.as_str());
                text.append("\"");
                text.append(entries[k].0.as_str());
                text.append("\": ");
                proof {
                    assert(line_prefix(doc, depth, k as int) == indentation(depth + 1) + "\""@
                        + entries@[k as int].0@ + "\": "@);
                    assert(text@ =~= before + child_start(doc, depth, k as int));
                    lemma_byte_len_concat(before, child_start(doc, depth, k as int));
                    lemma_child_placed(doc, depth, k as int);
                }
                let child = write_node(text, inner.as_str(), &entries[k].1, Ghost(depth + 1));
                assert(text@ =~= before + opener(doc) + join(
                    lines(doc, depth).take(k as int + 1),
                    separator(),
                )) by {
                    assert(text@ == before + child_start(doc, depth, k as int) + render(
                        doc.child(k as int),
                        depth + 1,
                    ));
                    assert(before + (child_start(doc, depth, k as int) + render(
                        doc.child(k as int),
                        depth + 1,
                    )) =~= before + child_start(doc, depth, k as int) + render(
                        doc.child(k as int),
                        depth + 1,
                    ));
                    assert(before + (opener(doc) + join(
                        lines(doc, depth).take(k as int + 1),
                        separator(),
                    )) =~= before + opener(doc) + join(
                        lines(doc, depth).take(k as int + 1),
                        separator(),
                    ));
                }
                children.push(child);
                k += 1;
            }
            text.append("\n");
            text.append(indent);
            text.append("}");
            proof {
                assert(lines(doc, depth).take(k as int) =~= lines(doc, depth));
                assert(text@ =~= before + render(doc, depth));
            }
        },
    }
    let end = length_in_bytes(text.as_str());
    proof {
        lemma_byte_len_concat(before, render(doc, depth));
    }
    SpanTree { start, end, children }
}

/// A printed document together with the span of each of its nodes.
pub struct SpanSerializer {
    json: String,
    spans: SpanTree,
}

impl SpanSerializer {
    /// The printed text.
    pub closed spec fn text(&self) -> Seq<char> {
        self.json@
    }

    /// The span recorded for the node at `path`, if one is.
    pub closed spec fn recorded(&self, path: Seq<usize>) -> Option<Span> {
        self.spans.find(path)
    }

    /// Whether this is the printed form of `doc` with one span for each node of
    /// `doc`, the node's own, and none besides.
    pub open spec fn records(&self, doc: Json) -> bool {
        &&& self.text() == render(doc, 0)
        &&& forall|path: Seq<usize>|
            #[trigger] self.recorded(path) == if doc.has(path) {
                Some(span_of(doc, path))
            } else {
                None
            }
    }

    /// The span recorded for the root is the whole text, from byte 0 to its
    /// length.
    pub proof fn lemma_root_is_whole_text(&self, doc: Json)
        requires
            self.records(doc),
        ensures
            self.recorded(Seq::empty()) == Some(
                Span { start: 0, end: byte_len(self.text()) },
            ),
    {
        assert(doc.has(Seq::empty()));
    }

    /// The span recorded for a node lies within the span recorded for each of
    /// its ancestors: `upper` leads to the ancestor and `upper + lower` to the
    /// node.
    pub proof fn lemma_descendant_within(&self, doc: Json, upper: Seq<usize>, lower: Seq<usize>)
        requires
            self.records(doc),
            doc.has(upper + lower),
        ensures
            self.recorded(upper) is Some,
            self.recorded(upper + lower) is Some,
            self.recorded(upper)->Some_0.start <= self.recorded(upper + lower)->Some_0.start,
            self.recorded(upper + lower)->Some_0.start <= self.recorded(upper + lower)->Some_0.end,
            self.recorded(upper + lower)->Some_0.end <= self.recorded(upper)->Some_0.end,
    {
        lemma_ancestor_contains(doc, upper, lower);
    }

    /// The span recorded for a node lies strictly within the span recorded for
    /// each of its proper ancestors: it starts later and ends earlier.
    pub proof fn lemma_descendant_strictly_within(
        &self,
        doc: Json,
        upper: Seq<usize>,
        lower: Seq<usize>,
    )
        requires
            self.records(doc),
            doc.has(upper + lower),
            lower.len() > 0,
        ensures
            self.recorded(upper) is Some,
            self.recorded(upper + lower) is Some,
            self.recorded(upper)->Some_0.start < self.recorded(upper + lower)->Some_0.start,
            self.recorded(upper + lower)->Some_0.end < self.recorded(upper)->Some_0.end,
    {
        lemma_ancestor_contains(doc, upper, lower);
        lemma_nested_strictly(doc, 0, 0, upper, lower);
    }

    /// The spans recorded below two different children of one node do not
    /// meet: the one below the earlier child ends before the one below the
    /// later child starts. So the spans of two siblings are disjoint, and so
    /// are the spans of any two nodes of which neither is an ancestor of the
    /// other.
    pub proof fn lemma_branches_do_not_meet(
        &self,
        doc: Json,
        upper: Seq<usize>,
        i: usize,
        j: usize,
        left: Seq<usize>,
        right: Seq<usize>,
    )
        requires
            self.records(doc),
            i < j,
            doc.has(upper + seq![i] + left),
            doc.has(upper + seq![j] + right),
        ensures
            self.recorded(upper + seq![i] + left) is Some,
            self.recorded(upper + seq![j] + right) is Some,
            self.recorded(upper + seq![i] + left)->Some_0.end < self.recorded(
                upper + seq![j] + right,
            )->Some_0.start,
    {
        lemma_branches_apart(doc, 0, 0, upper, i, j, left, right);
    }

    /// In a well-formed document no node has an empty span.
    pub proof fn lemma_span_is_not_empty(&self, doc: Json, path: Seq<usize>)
        requires
            self.records(doc),
            doc.valid(),
            doc.has(path),
        ensures
            self.recorded(path) is Some,
            self.recorded(path)->Some_0.start < self.recorded(path)->Some_0.end,
    {
        lemma_span_not_empty(doc, 0, 0, path);
    }

    /// The bytes of the text within the span recorded for a node are the
    /// bytes of that node, printed at the depth at which it stands.
    pub proof fn lemma_span_is_node_text(&self, doc: Json, path: Seq<usize>)
        requires
            self.records(doc),
            doc.has(path),
        ensures
            self.recorded(path) is Some,
            encode_utf8(self.text()).subrange(
                self.recorded(path)->Some_0.start as int,
                self.recorded(path)->Some_0.end as int,
            ) == encode_utf8(render(doc.at(path)->Some_0, path.len())),
    {
        lemma_span_holds_node(doc, 0, Seq::empty(), Seq::empty(), path);
        assert(Seq::<char>::empty() + render(doc, 0) + Seq::<char>::empty() =~= render(doc, 0));
        assert(byte_len(Seq::<char>::empty()) == 0);
    }

    /// Prints `input` and records the span of every node.
    pub fn serialize(input: &Value) -> (serializer: SpanSerializer)
        ensures
            serializer.records(input@),
    {
        let mut json = String::new();
        proof {
            reveal_strlit("");
            assert(""@ =~= indentation(0));
        }
        let spans = write_node(&mut json, "", input, Ghost(0));
        let serializer = SpanSerializer { json, spans };
        proof {
            assert(Seq::<char>::empty() + render(input@, 0) =~= render(input@, 0));
            assert(byte_len(Seq::<char>::empty()) == 0);
            assert forall|path: Seq<usize>|
                #[trigger] serializer.recorded(path) == if input@.has(path) {
                    Some(span_of(input@, path))
                } else {
                    None
                } by {
                serializer.spans.lemma_find(input@, 0, 0, path);
            }
        }
        serializer
    }

    /// The printed text.
    pub fn serialized_json(&self) -> (text: &str)
        ensures
            text@ == self.text(),
    {
        self.json.as_str()
    }

    /// The span of the node at `path`, or `None` where no node is there.
    pub fn find_span(&self, path: &Vec<usize>) -> (r: Option<Range<usize>>)
        ensures
            r is Some <==> self.recorded(path@) is Some,
            r matches Some(range) ==> self.recorded(path@) == Some(
                Span { start: range.start as nat, end: range.end as nat },
            ),
    {
        self.spans.lookup(path)
    }

    /// The span of the node at `path`.
    pub fn span(&self, path: &Vec<usize>) -> (range: Range<usize>)
        requires
            self.recorded(path@) is Some,
        ensures
            self.recorded(path@) == Some(
                Span { start: range.start as nat, end: range.end as nat },
            ),
    {
        match self.spans.lookup(path) {
            Some(range) => range,
            None => 0..0,
        }
    }
}

} // verus!
