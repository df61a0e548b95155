//! Namespaces: the levels of a dotted identifier.
//!
//! The text of a namespace is its levels joined with `.`. Reading a text
//! first drops the white space at both ends, then cuts at every `.`; a text
//! without `.` is one level. No level is checked: a dot at either end, or
//! two dots in a row, give an empty level. The namespace without levels is
//! the root; no text reads as the root.

use vstd::prelude::*;
use crate::error::{failure, outcome, DecodeError, Entity, ErrorKind, ErrorModel};
use crate::node::{Node, NodeModel};
use crate::schema::texts_model;
use crate::text::{chars_of, white_space};

verus! {

/// An ordered sequence of levels, such as `accounting`, `tax`.
#[derive(Debug, PartialEq, Eq, Clone)]
pub struct Namespace {
    levels: Vec<String>,
}

impl View for Namespace {
    type V = Seq<Seq<char>>;

    closed spec fn view(&self) -> Seq<Seq<char>> {
        texts_model(self.levels@)
    }
}

/// The number of white-space characters that `text` begins with.
pub open spec fn leading_space(text: Seq<char>) -> nat
    decreases text.len(),
{
    if text.len() > 0 && white_space(text[0]) {
        1 + leading_space(text.drop_first())
    } else {
        0
    }
}

/// The number of white-space characters that `text` ends with.
pub open spec fn trailing_space(text: Seq<char>) -> nat
    decreases text.len(),
{
    if text.len() > 0 && white_space(text.last()) {
        1 + trailing_space(text.drop_last())
    } else {
        0
    }
}

/// `text` without the white space at its two ends.
pub open spec fn trim_spec(text: Seq<char>) -> Seq<char> {
    let rest = text.skip(leading_space(text) as int);
    rest.take(rest.len() - trailing_space(rest))
}

/// The levels of a text: the parts between its dots, in order.
pub open spec fn split_spec(text: Seq<char>) -> Seq<Seq<char>>
    decreases text.len(),
{
    if text.len() == 0 {
        seq![Seq::empty()]
    } else {
        let head = split_spec(text.drop_last());
        if text.last() == '.' {
            head.push(Seq::empty())
        } else {
            head.drop_last().push(head.last().push(text.last()))
        }
    }
}

/// The text of levels: the levels in order with a dot between any two.
pub open spec fn join_spec(levels: Seq<Seq<char>>) -> Seq<char>
    decreases levels.len(),
{
    if levels.len() == 0 {
        Seq::empty()
    } else if levels.len() == 1 {
        levels[0]
    } else {
        join_spec(levels.drop_last()) + seq!['.'] + levels.last()
    }
}

/// What decoding a node as a namespace yields: the levels of a text, an
/// error for any other node.
pub open spec fn decode_namespace_spec(node: NodeModel) -> Result<Seq<Seq<char>>, ErrorModel> {
    match node {
        NodeModel::Text(text) => Ok(split_spec(trim_spec(text))),
        _ => Err(failure(Entity::Namespace, ErrorKind::InvalidShape, ""@)),
    }
}

/// A text that begins with exactly `k` white-space characters.
proof fn lemma_leading(text: Seq<char>, k: int)
    requires
        0 <= k <= text.len(),
        forall|j: int| 0 <= j < k ==> white_space(#[trigger] text[j]),
        k == text.len() || !white_space(text[k]),
    ensures
        leading_space(text) == k,
    decreases text.len(),
{
    if k > 0 {
        let rest = text.drop_first();
        assert forall|j: int| 0 <= j < k - 1 implies white_space(#[trigger] rest[j]) by {
            assert(rest[j] == text[j + 1]);
        }
        if k < text.len() {
            assert(rest[k - 1] == text[k]);
        }
        lemma_leading(rest, k - 1);
    }
}

/// A text that ends with exactly `k` white-space characters.
proof fn lemma_trailing(text: Seq<char>, k: int)
    requires
        0 <= k <= text.len(),
        forall|j: int| text.len() - k <= j < text.len() ==> white_space(#[trigger] text[j]),
        k == text.len() || !white_space(text[text.len() - k - 1]),
    ensures
        trailing_space(text) == k,
    decreases text.len(),
{
    if k > 0 {
        let rest = text.drop_last();
        assert forall|j: int| rest.len() - (k - 1) <= j < rest.len() implies white_space(
            #[trigger] rest[j],
        ) by {
            assert(rest[j] == text[j]);
        }
        if k < text.len() {
            assert(rest[rest.len() - (k - 1) - 1] == text[text.len() - k - 1]);
        }
        lemma_trailing(rest, k - 1);
    }
}

/// Every text has a level.
pub proof fn lemma_split_nonempty(text: Seq<char>)
    ensures
        split_spec(text).len() >= 1,
    decreases text.len(),
{
    if text.len() > 0 {
        lemma_split_nonempty(text.drop_last());
    }
}

/// Joining the levels of a text gives the text back.
pub proof fn law_split_join(text: Seq<char>)
    ensures
        join_spec(split_spec(text)) == text,
    decreases text.len(),
{
    if text.len() == 0 {
        assert(join_spec(split_spec(text)) =~= text);
    } else {
        let front = text.drop_last();
        let head = split_spec(front);
        law_split_join(front);
        lemma_split_nonempty(front);
        let levels = split_spec(text);
        if text.last() == '.' {
            assert(levels.drop_last() =~= head);
            assert(join_spec(levels) =~= front.push('.'));
        } else {
            let grown = head.last().push(text.last());
            if head.len() == 1 {
                assert(levels.len() == 1);
                assert(levels[0] == grown);
                assert(join_spec(head) == head[0]);
                assert(join_spec(levels) =~= front.push(text.last()));
            } else {
                assert(levels.drop_last() =~= head.drop_last());
                assert(levels.last() == grown);
                assert(join_spec(levels) =~= join_spec(head).push(text.last()));
            }
        }
        assert(front.push(text.last()) =~= text);
    }
}

/// The text law of namespaces: writing the namespace that a text reads as
/// gives the text without the white space at its ends; and the namespace
/// that a text reads as is never the root.
pub proof fn law_namespace_text(text: Seq<char>)
    ensures
        join_spec(split_spec(trim_spec(text))) == trim_spec(text),
        split_spec(trim_spec(text)).len() >= 1,
{
    law_split_join(trim_spec(text));
    lemma_split_nonempty(trim_spec(text));
}

/// Whether no character of `level` is a dot.
pub open spec fn dot_free(level: Seq<char>) -> bool {
    forall|j: int| 0 <= j < level.len() ==> #[trigger] level[j] != '.'
}

/// A text without a dot is one level.
proof fn lemma_split_level(level: Seq<char>)
    requires
        dot_free(level),
    ensures
        split_spec(level) == seq![level],
    decreases level.len(),
{
    if level.len() == 0 {
        assert(level =~= Seq::empty());
    } else {
        let front = level.drop_last();
        assert(level.last() == level[level.len() - 1]);
        assert forall|j: int| 0 <= j < front.len() implies #[trigger] front[j] != '.' by {
            assert(front[j] == level[j]);
        }
        lemma_split_level(front);
        assert(front.push(level.last()) =~= level);
        assert(split_spec(level) =~= seq![level]);
    }
}

/// A dot and a level after a text add that level to the levels of the text.
proof fn lemma_split_after_dot(text: Seq<char>, level: Seq<char>)
    requires
        dot_free(level),
    ensures
        split_spec(text + seq!['.'] + level) == split_spec(text).push(level),
    decreases level.len(),
{
    let whole = text + seq!['.'] + level;
    if level.len() == 0 {
        assert(whole.last() == '.');
        assert(whole.drop_last() =~= text);
        assert(level =~= Seq::empty());
    } else {
        let front = level.drop_last();
        assert(level.last() == level[level.len() - 1]);
        assert forall|j: int| 0 <= j < front.len() implies #[trigger] front[j] != '.' by {
            assert(front[j] == level[j]);
        }
        lemma_split_after_dot(text, front);
        assert(whole.drop_last() =~= text + seq!['.'] + front);
        assert(whole.last() == level.last());
        assert(front.push(level.last()) =~= level);
        assert(split_spec(whole) =~= split_spec(text).push(level));
    }
}

/// Cutting the joined text of levels gives the levels back, where there is
/// a level and no level holds a dot.
pub proof fn law_join_split(levels: Seq<Seq<char>>)
    requires
        levels.len() >= 1,
        forall|i: int| 0 <= i < levels.len() ==> dot_free(#[trigger] levels[i]),
    ensures
        split_spec(join_spec(levels)) == levels,
    decreases levels.len(),
{
    if levels.len() == 1 {
        lemma_split_level(levels[0]);
        assert(seq![levels[0]] =~= levels);
    } else {
        let front = levels.drop_last();
        assert forall|i: int| 0 <= i < front.len() implies dot_free(#[trigger] front[i]) by {
            assert(front[i] == levels[i]);
        }
        law_join_split(front);
        assert(levels.last() == levels[levels.len() - 1]);
        lemma_split_after_dot(join_spec(front), levels.last());
        assert(front.push(levels.last()) =~= levels);
    }
}

/// The round trip of namespaces: a namespace that has a level, whose levels
/// hold no dot and whose text neither begins nor ends with white space, is
/// read back from the node it is written as.
pub proof fn law_namespace_round_trip(levels: Seq<Seq<char>>)
    requires
        levels.len() >= 1,
        forall|i: int| 0 <= i < levels.len() ==> dot_free(#[trigger] levels[i]),
        trim_spec(join_spec(levels)) == join_spec(levels),
    ensures
        decode_namespace_spec(NodeModel::Text(join_spec(levels))) == Ok::<
            Seq<Seq<char>>,
            ErrorModel,
        >(levels),
{
    law_join_split(levels);
}

impl Namespace {
    /// The namespace of the given levels.
    pub fn new(levels: Vec<String>) -> (ns: Namespace)
        ensures
            ns@ == texts_model(levels@),
    {
        Namespace { levels }
    }

    /// The levels of the namespace.
    pub fn levels(&self) -> (levels: &Vec<String>)
        ensures
            texts_model(levels@) == self@,
    {
        &self.levels
    }

    /// Whether the namespace has no level, that is, whether it is the root.
    pub fn is_empty(&self) -> (r: bool)
        ensures
            r == (self@.len() == 0),
    {
        self.levels.len() == 0
    }
}

fn split_levels(chars: &Vec<char>, start: usize, end: usize) -> (levels: Vec<String>)
    requires
        start <= end <= chars.len(),
    ensures
        texts_model(levels@) == split_spec(chars@.subrange(start as int, end as int)),
{
    let mut levels: Vec<String> = Vec::new();
    let mut current = String::new();
    let mut i: usize = start;
    assert(texts_model(levels@).push(current@) =~= split_spec(
        chars@.subrange(start as int, start as int),
    ));
    while i < end
        invariant
            start <= i <= end <= chars.len(),
            texts_model(levels@).push(current@) == split_spec(
                chars@.subrange(start as int, i as int),
            ),
        decreases end - i,
    {
        let c = chars[i];
        proof {
            let next = chars@.subrange(start as int, i + 1);
            assert(next.drop_last() =~= chars@.subrange(start as int, i as int));
            assert(next.last() == c);
        }
        let ghost before = levels@;
        let ghost level = current@;
        if c == '.' {
            levels.push(current);
            current = String::new();
            assert(texts_model(levels@) =~= texts_model(before).push(level));
        } else {
            current.push(c);
            assert(texts_model(before).push(level).drop_last() =~= texts_model(before));
        }
        i += 1;
    }
    let ghost before = levels@;
    let ghost level = current@;
    levels.push(current);
    assert(texts_model(levels@) =~= texts_model(before).push(level));
    levels
}

/// Reads a namespace from its text: the white space at both ends is
/// dropped, and the rest is cut at every dot.
pub fn parse_namespace(text: &str) -> (ns: Namespace)
    ensures
        ns@ == split_spec(trim_spec(text@)),
{
    let chars = chars_of(text);
    let n = chars.len();
    let mut start: usize = 0;
    while start < n && chars[start].is_whitespace()
        invariant
            start <= n == chars.len(),
            forall|j: int| 0 <= j < start ==> white_space(#[trigger] chars@[j]),
        decreases n - start,
    {
        start += 1;
    }
    let mut end: usize = n;
    while end > start && chars[end - 1].is_whitespace()
        invariant
            start <= end <= n == chars.len(),
            forall|j: int| end <= j < n ==> white_space(#[trigger] chars@[j]),
        decreases end,
    {
        end -= 1;
    }
    proof {
        lemma_leading(chars@, start as int);
        let rest = chars@.skip(start as int);
        assert forall|j: int| rest.len() - (n - end) <= j < rest.len() implies white_space(
            #[trigger] rest[j],
        ) by {
            assert(rest[j] == chars@[j + start]);
        }
        if end > start {
            assert(rest[rest.len() - (n - end) - 1] == chars@[end - 1]);
        }
        lemma_trailing(rest, n - end);
        assert(trim_spec(chars@) =~= chars@.subrange(start as int, end as int));
    }
    Namespace { levels: split_levels(&chars, start, end) }
}

/// The text of a namespace: its levels joined with dots. The text of the
/// root is empty.
pub fn namespace_text(ns: &Namespace) -> (text: String)
    ensures
        text@ == join_spec(ns@),
{
    let ghost all = texts_model(ns.levels@);
    let mut text = String::new();
    let mut i: usize = 0;
    while i < ns.levels.len()
        invariant
            i <= ns.levels.len(),
            all == texts_model(ns.levels@),
            text@ == join_spec(all.take(i as int)),
        decreases ns.levels.len() - i,
    {
        proof {
            let next = all.take(i + 1);
            assert(next.drop_last() =~= all.take(i as int));
            assert(next.last() == ns.levels@[i as int]@);
            if i == 0 {
                assert(next[0] == ns.levels@[0]@);
            }
        }
        if i > 0 {
            text.push('.');
        }
        text.append(ns.levels[i].as_str());
        proof {
            assert(text@ =~= join_spec(all.take(i + 1)));
        }
        i += 1;
    }
    assert(all.take(ns.levels.len() as int) =~= all);
    text
}

/// Decodes a namespace from a text node.
pub fn decode_namespace(node: &Node) -> (r: Result<Namespace, DecodeError>)
    ensures
        outcome(r) == decode_namespace_spec(node@),
{
    match node {
        Node::Text(text) => Ok(parse_namespace(text.as_str())),
        _ => Err(DecodeError::new(Entity::Namespace, ErrorKind::InvalidShape, "")),
    }
}

/// Writes a namespace as a text node.
pub fn encode_namespace(ns: &Namespace) -> (node: Node)
    ensures
        node@ == NodeModel::Text(join_spec(ns@)),
{
    Node::Text(namespace_text(ns))
}

} // verus!
