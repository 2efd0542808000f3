//! The story graph: nodes keyed by name, each with its entry text and its
//! labelled choices, and the pass that builds the graph from a document tree.
use vstd::prelude::*;
use vstd::string::*;

use crate::document::Doc;
use crate::error::Error;

verus! {

// ---------------------------------------------------------------------------
// Keyed tables: sequences of (key, value) pairs in which the first pair with a
// given key is the one that counts.
// ---------------------------------------------------------------------------

/// The table of a vector of named values, with names and values as their views.
pub open spec fn keyed<V: View>(entries: Seq<(String, V)>) -> Seq<(Seq<char>, V::V)> {
    entries.map_values(|p: (String, V)| (p.0@, p.1@))
}

pub open spec fn has_key<V>(entries: Seq<(Seq<char>, V)>, key: Seq<char>) -> bool {
    exists|i: int| 0 <= i < entries.len() && entries[i].0 == key
}

/// `i` is the position of the first pair whose key is `key`.
pub open spec fn is_first_key<V>(entries: Seq<(Seq<char>, V)>, key: Seq<char>, i: int) -> bool {
    &&& 0 <= i < entries.len()
    &&& entries[i].0 == key
    &&& forall|j: int| 0 <= j < i ==> entries[j].0 != key
}

/// Where `key` stands in the table, if anywhere.
pub open spec fn key_position<V>(entries: Seq<(Seq<char>, V)>, key: Seq<char>) -> Option<int> {
    if has_key(entries, key) {
        Some(choose|i: int| is_first_key(entries, key, i))
    } else {
        None
    }
}

/// The value stored under `key`.
pub open spec fn lookup<V>(entries: Seq<(Seq<char>, V)>, key: Seq<char>) -> Option<V> {
    match key_position(entries, key) {
        Some(i) => Some(entries[i].1),
        None => None,
    }
}

/// The table with `key` bound to `v`: in place if the key is there, else at the end.
pub open spec fn put<V>(entries: Seq<(Seq<char>, V)>, key: Seq<char>, v: V) -> Seq<(Seq<char>, V)> {
    match key_position(entries, key) {
        Some(i) => entries.update(i, (key, v)),
        None => entries.push((key, v)),
    }
}

/// No key occurs twice.
pub open spec fn keys_unique<V>(entries: Seq<(Seq<char>, V)>) -> bool {
    forall|i: int, j: int|
        0 <= i < entries.len() && 0 <= j < entries.len() && i != j ==> entries[i].0 != entries[j].0
}

pub proof fn lemma_key_position_at<V>(entries: Seq<(Seq<char>, V)>, key: Seq<char>, i: int)
    requires
        is_first_key(entries, key, i),
    ensures
        key_position(entries, key) == Some(i),
{
    assert(has_key(entries, key));
    let j = choose|j: int| is_first_key(entries, key, j);
    assert(is_first_key(entries, key, j));
    if j < i {
        assert(entries[j].0 != key);
    } else if i < j {
        assert(entries[i].0 != key);
    }
}

proof fn lemma_first_key_exists<V>(entries: Seq<(Seq<char>, V)>, key: Seq<char>, k: int)
    requires
        0 <= k < entries.len(),
        entries[k].0 == key,
    ensures
        exists|i: int| is_first_key(entries, key, i),
    decreases k,
{
    if exists|j: int| 0 <= j < k && entries[j].0 == key {
        let j = choose|j: int| 0 <= j < k && entries[j].0 == key;
        lemma_first_key_exists(entries, key, j);
    } else {
        assert(is_first_key(entries, key, k));
    }
}

pub proof fn lemma_key_position_some<V>(entries: Seq<(Seq<char>, V)>, key: Seq<char>)
    requires
        has_key(entries, key),
    ensures
        key_position(entries, key) is Some,
        is_first_key(entries, key, key_position(entries, key)->0),
{
    let k = choose|k: int| 0 <= k < entries.len() && entries[k].0 == key;
    lemma_first_key_exists(entries, key, k);
}

// ---------------------------------------------------------------------------
// The graph
// ---------------------------------------------------------------------------

/// One outgoing edge of a node: where it leads and what is shown when taken.
#[derive(Debug)]
pub struct Choice {
    pub target: String,
    pub taken_text: String,
}

/// One scene of the story: its entry text and its choices, keyed by label.
#[derive(Debug)]
pub struct Node {
    pub enter: String,
    pub choices: Vec<(String, Choice)>,
}

/// All nodes of a story, keyed by name, and the name of the node it starts at.
#[derive(Debug)]
pub struct StoryGraph {
    pub nodes: Vec<(String, Node)>,
    pub start: Option<String>,
}

pub struct ChoiceView {
    pub target: Seq<char>,
    pub taken_text: Seq<char>,
}

pub struct NodeView {
    pub enter: Seq<char>,
    pub choices: Seq<(Seq<char>, ChoiceView)>,
}

pub struct StoryView {
    pub nodes: Seq<(Seq<char>, NodeView)>,
    pub start: Option<Seq<char>>,
}

impl View for Choice {
    type V = ChoiceView;

    open spec fn view(&self) -> ChoiceView {
        ChoiceView { target: self.target@, taken_text: self.taken_text@ }
    }
}

impl View for Node {
    type V = NodeView;

    open spec fn view(&self) -> NodeView {
        NodeView { enter: self.enter@, choices: keyed(self.choices@) }
    }
}

impl View for StoryGraph {
    type V = StoryView;

    open spec fn view(&self) -> StoryView {
        StoryView {
            nodes: keyed(self.nodes@),
            start: match self.start {
                Some(s) => Some(s@),
                None => None,
            },
        }
    }
}

/// A node with no entry text and no choices.
pub open spec fn empty_node() -> NodeView {
    NodeView { enter: Seq::empty(), choices: Seq::empty() }
}

/// The choice table with `label`'s target set to `t`; a new choice with empty
/// text is added if the label is not there yet.
pub open spec fn set_target(table: Seq<(Seq<char>, ChoiceView)>, label: Seq<char>, t: Seq<char>) -> Seq<
    (Seq<char>, ChoiceView),
> {
    match key_position(table, label) {
        Some(i) => table.update(i, (label, ChoiceView { target: t, taken_text: table[i].1.taken_text })),
        None => table.push((label, ChoiceView { target: t, taken_text: Seq::empty() })),
    }
}

/// The choice table with `label`'s taken text set to `x`; a new choice with an
/// empty target is added if the label is not there yet.
pub open spec fn set_text(table: Seq<(Seq<char>, ChoiceView)>, label: Seq<char>, x: Seq<char>) -> Seq<
    (Seq<char>, ChoiceView),
> {
    match key_position(table, label) {
        Some(i) => table.update(i, (label, ChoiceView { target: table[i].1.target, taken_text: x })),
        None => table.push((label, ChoiceView { target: Seq::empty(), taken_text: x })),
    }
}

/// A value is the string scalar `s`.
pub open spec fn is_scalar(d: Doc, s: Seq<char>) -> bool {
    d matches Doc::Scalar(t) && t@ == s
}

// ---------------------------------------------------------------------------
// What the builder makes of a document tree. Each level folds over the pairs
// of a mapping in order; pairs of any other shape leave the result as it is.
// ---------------------------------------------------------------------------

/// One field of the body of choice `label`: `target` or `text` with a string value.
pub open spec fn choice_field(
    table: Seq<(Seq<char>, ChoiceView)>,
    label: Seq<char>,
    field: (Doc, Doc),
) -> Seq<(Seq<char>, ChoiceView)> {
    match field.1 {
        Doc::Scalar(v) => if is_scalar(field.0, "target"@) {
            set_target(table, label, v@)
        } else if is_scalar(field.0, "text"@) {
            set_text(table, label, v@)
        } else {
            table
        },
        _ => table,
    }
}

pub open spec fn choice_fields(
    table: Seq<(Seq<char>, ChoiceView)>,
    label: Seq<char>,
    fields: Seq<(Doc, Doc)>,
) -> Seq<(Seq<char>, ChoiceView)>
    decreases fields.len(),
{
    if fields.len() == 0 {
        table
    } else {
        choice_field(choice_fields(table, label, fields.drop_last()), label, fields.last())
    }
}

/// One pair of a `choices` mapping: a string label and a mapping body.
pub open spec fn choice_entry(table: Seq<(Seq<char>, ChoiceView)>, entry: (Doc, Doc)) -> Seq<
    (Seq<char>, ChoiceView),
> {
    match entry.0 {
        Doc::Scalar(label) => match entry.1 {
            Doc::Mapping(body) => choice_fields(table, label@, body@),
            _ => table,
        },
        _ => table,
    }
}

pub open spec fn choice_entries(table: Seq<(Seq<char>, ChoiceView)>, entries: Seq<(Doc, Doc)>) -> Seq<
    (Seq<char>, ChoiceView),
>
    decreases entries.len(),
{
    if entries.len() == 0 {
        table
    } else {
        choice_entry(choice_entries(table, entries.drop_last()), entries.last())
    }
}

/// One pair of a node's mapping: `enter` with a string, or `choices` with a mapping.
pub open spec fn node_field(node: NodeView, field: (Doc, Doc)) -> NodeView {
    match field.1 {
        Doc::Scalar(v) => if is_scalar(field.0, "enter"@) {
            NodeView { enter: v@, ..node }
        } else {
            node
        },
        Doc::Mapping(cs) => if is_scalar(field.0, "choices"@) {
            NodeView { choices: choice_entries(node.choices, cs@), ..node }
        } else {
            node
        },
        _ => node,
    }
}

pub open spec fn node_fields(node: NodeView, fields: Seq<(Doc, Doc)>) -> NodeView
    decreases fields.len(),
{
    if fields.len() == 0 {
        node
    } else {
        node_field(node_fields(node, fields.drop_last()), fields.last())
    }
}

/// The node that a value defines; a value that is not a mapping defines an empty node.
pub open spec fn node_of(d: Doc) -> NodeView {
    match d {
        Doc::Mapping(fields) => node_fields(empty_node(), fields@),
        _ => empty_node(),
    }
}

/// One top-level pair: `start` with a string names the start node; any other
/// string key defines the node of that name, replacing an earlier one.
pub open spec fn story_entry(g: StoryView, entry: (Doc, Doc)) -> StoryView {
    match entry.0 {
        Doc::Scalar(k) => if k@ == "start"@ {
            match entry.1 {
                Doc::Scalar(v) => StoryView { start: Some(v@), ..g },
                _ => g,
            }
        } else {
            StoryView { nodes: put(g.nodes, k@, node_of(entry.1)), ..g }
        },
        _ => g,
    }
}

pub open spec fn story_entries(g: StoryView, entries: Seq<(Doc, Doc)>) -> StoryView
    decreases entries.len(),
{
    if entries.len() == 0 {
        g
    } else {
        story_entry(story_entries(g, entries.drop_last()), entries.last())
    }
}

/// The story that a document defines, if its root is a mapping.
pub open spec fn story_of(d: Doc) -> Option<StoryView> {
    match d {
        Doc::Mapping(entries) => Some(
            story_entries(StoryView { nodes: Seq::empty(), start: None }, entries@),
        ),
        _ => None,
    }
}

// ---------------------------------------------------------------------------
// Well-formedness: names and labels are unique
// ---------------------------------------------------------------------------

/// No two nodes share a name, and no two choices of a node share a label.
pub open spec fn story_wf(g: StoryView) -> bool {
    &&& keys_unique(g.nodes)
    &&& forall|i: int| 0 <= i < g.nodes.len() ==> keys_unique(#[trigger] g.nodes[i].1.choices)
}

proof fn lemma_unique_update<V>(t: Seq<(Seq<char>, V)>, k: Seq<char>, i: int, v: V)
    requires
        keys_unique(t),
        0 <= i < t.len(),
        t[i].0 == k,
    ensures
        keys_unique(t.update(i, (k, v))),
{
    let u = t.update(i, (k, v));
    assert forall|a: int, b: int| 0 <= a < u.len() && 0 <= b < u.len() && a != b implies u[a].0 != u[b].0 by {
        assert(u[a].0 == t[a].0);
        assert(u[b].0 == t[b].0);
    }
}

proof fn lemma_unique_push<V>(t: Seq<(Seq<char>, V)>, k: Seq<char>, v: V)
    requires
        keys_unique(t),
        !has_key(t, k),
    ensures
        keys_unique(t.push((k, v))),
{
    let u = t.push((k, v));
    assert forall|a: int, b: int| 0 <= a < u.len() && 0 <= b < u.len() && a != b implies u[a].0 != u[b].0 by {
        if a < t.len() && b < t.len() {
            assert(u[a] == t[a] && u[b] == t[b]);
        } else if a < t.len() {
            assert(u[a] == t[a]);
        } else {
            assert(u[b] == t[b]);
        }
    }
}

proof fn lemma_put_unique<V>(t: Seq<(Seq<char>, V)>, k: Seq<char>, v: V)
    requires
        keys_unique(t),
    ensures
        keys_unique(put(t, k, v)),
{
    if has_key(t, k) {
        lemma_key_position_some(t, k);
        lemma_unique_update(t, k, key_position(t, k)->0, v);
    } else {
        lemma_unique_push(t, k, v);
    }
}

proof fn lemma_choice_field_unique(table: Seq<(Seq<char>, ChoiceView)>, label: Seq<char>, field: (Doc, Doc))
    requires
        keys_unique(table),
    ensures
        keys_unique(choice_field(table, label, field)),
{
    if has_key(table, label) {
        lemma_key_position_some(table, label);
        let i = key_position(table, label)->0;
        let t = choice_field(table, label, field);
        assert(t == table || exists|c: ChoiceView| t == table.update(i, (label, c)));
        if t != table {
            let c = choose|c: ChoiceView| t == table.update(i, (label, c));
            lemma_unique_update(table, label, i, c);
        }
    } else {
        let t = choice_field(table, label, field);
        assert(t == table || exists|c: ChoiceView| t == table.push((label, c)));
        if t != table {
            let c = choose|c: ChoiceView| t == table.push((label, c));
            lemma_unique_push(table, label, c);
        }
    }
}

proof fn lemma_choice_fields_unique(
    table: Seq<(Seq<char>, ChoiceView)>,
    label: Seq<char>,
    fields: Seq<(Doc, Doc)>,
)
    requires
        keys_unique(table),
    ensures
        keys_unique(choice_fields(table, label, fields)),
    decreases fields.len(),
{
    if fields.len() > 0 {
        lemma_choice_fields_unique(table, label, fields.drop_last());
        lemma_choice_field_unique(choice_fields(table, label, fields.drop_last()), label, fields.last());
    }
}

proof fn lemma_choice_entries_unique(table: Seq<(Seq<char>, ChoiceView)>, entries: Seq<(Doc, Doc)>)
    requires
        keys_unique(table),
    ensures
        keys_unique(choice_entries(table, entries)),
    decreases entries.len(),
{
    if entries.len() > 0 {
        lemma_choice_entries_unique(table, entries.drop_last());
        let t = choice_entries(table, entries.drop_last());
        let e = entries.last();
        if let Doc::Scalar(label) = e.0 {
            if let Doc::Mapping(body) = e.1 {
                lemma_choice_fields_unique(t, label@, body@);
            }
        }
    }
}

proof fn lemma_node_fields_unique(node: NodeView, fields: Seq<(Doc, Doc)>)
    requires
        keys_unique(node.choices),
    ensures
        keys_unique(node_fields(node, fields).choices),
    decreases fields.len(),
{
    if fields.len() > 0 {
        lemma_node_fields_unique(node, fields.drop_last());
        let n = node_fields(node, fields.drop_last());
        if let Doc::Mapping(cs) = fields.last().1 {
            lemma_choice_entries_unique(n.choices, cs@);
        }
    }
}

proof fn lemma_node_of_unique(d: Doc)
    ensures
        keys_unique(node_of(d).choices),
{
    if let Doc::Mapping(fields) = d {
        lemma_node_fields_unique(empty_node(), fields@);
    }
}

proof fn lemma_story_entries_wf(g: StoryView, entries: Seq<(Doc, Doc)>)
    requires
        story_wf(g),
    ensures
        story_wf(story_entries(g, entries)),
    decreases entries.len(),
{
    if entries.len() > 0 {
        lemma_story_entries_wf(g, entries.drop_last());
        let h = story_entries(g, entries.drop_last());
        let e = entries.last();
        if let Doc::Scalar(k) = e.0 {
            if k@ != "start"@ {
                let n = node_of(e.1);
                lemma_node_of_unique(e.1);
                lemma_put_unique(h.nodes, k@, n);
                let p = put(h.nodes, k@, n);
                if has_key(h.nodes, k@) {
                    lemma_key_position_some(h.nodes, k@);
                }
                assert forall|i: int| 0 <= i < p.len() implies keys_unique(#[trigger] p[i].1.choices) by {
                    if i < h.nodes.len() && p[i] != (k@, n) {
                        assert(p[i] == h.nodes[i]);
                    }
                }
            }
        }
    }
}

// ---------------------------------------------------------------------------
// Executable table operations
// ---------------------------------------------------------------------------

/// The position of the first pair named `key`.
pub(crate) fn find_key<V: View>(entries: &Vec<(String, V)>, key: &String) -> (r: Option<usize>)
    ensures
        match r {
            Some(i) => i < entries.len() && key_position(keyed(entries@), key@) == Some(i as int),
            None => key_position(keyed(entries@), key@) is None,
        },
{
    let ghost kv = keyed(entries@);
    let mut i: usize = 0;
    while i < entries.len()
        invariant
            kv == keyed(entries@),
            0 <= i <= entries.len(),
            forall|j: int| 0 <= j < i ==> kv[j].0 != key@,
        decreases entries.len() - i,
    {
        if entries[i].0 == *key {
            proof {
                assert(is_first_key(kv, key@, i as int));
                lemma_key_position_at(kv, key@, i as int);
            }
            return Some(i);
        }
        i = i + 1;
    }
    None
}

/// Sets the target of choice `label`, adding the choice if it is new.
fn upsert_target(table: &mut Vec<(String, Choice)>, label: &String, target: &String)
    ensures
        keyed(final(table)@) == set_target(keyed(old(table)@), label@, target@),
{
    match find_key(table, label) {
        Some(i) => {
            let text = table[i].1.taken_text.clone();
            table[i] = (label.clone(), Choice { target: target.clone(), taken_text: text });
            assert(keyed(table@) =~= set_target(keyed(old(table)@), label@, target@));
        },
        None => {
            table.push((label.clone(), Choice { target: target.clone(), taken_text: String::new() }));
            assert(keyed(table@) =~= set_target(keyed(old(table)@), label@, target@));
        },
    }
}

/// Sets the taken text of choice `label`, adding the choice if it is new.
fn upsert_text(table: &mut Vec<(String, Choice)>, label: &String, text: &String)
    ensures
        keyed(final(table)@) == set_text(keyed(old(table)@), label@, text@),
{
    match find_key(table, label) {
        Some(i) => {
            let target = table[i].1.target.clone();
            table[i] = (label.clone(), Choice { target, taken_text: text.clone() });
            assert(keyed(table@) =~= set_text(keyed(old(table)@), label@, text@));
        },
        None => {
            table.push((label.clone(), Choice { target: String::new(), taken_text: text.clone() }));
            assert(keyed(table@) =~= set_text(keyed(old(table)@), label@, text@));
        },
    }
}

/// Binds `name` to `node`, replacing the node of that name if there is one.
fn put_node(nodes: &mut Vec<(String, Node)>, name: &String, node: Node)
    ensures
        keyed(final(nodes)@) == put(keyed(old(nodes)@), name@, node@),
{
    match find_key(nodes, name) {
        Some(i) => {
            nodes[i] = (name.clone(), node);
            assert(keyed(nodes@) =~= put(keyed(old(nodes)@), name@, node@));
        },
        None => {
            nodes.push((name.clone(), node));
            assert(keyed(nodes@) =~= put(keyed(old(nodes)@), name@, node@));
        },
    }
}

/// Merges the fields of one choice body into the table.
fn add_choice_body(table: &mut Vec<(String, Choice)>, label: &String, body: &Vec<(Doc, Doc)>)
    ensures
        keyed(final(table)@) == choice_fields(keyed(old(table)@), label@, body@),
{
    let target_key = String::from_str("target");
    let text_key = String::from_str("text");
    let ghost start = keyed(table@);
    let mut i: usize = 0;
    while i < body.len()
        invariant
            0 <= i <= body.len(),
            target_key@ == "target"@,
            text_key@ == "text"@,
            keyed(table@) == choice_fields(start, label@, body@.take(i as int)),
        decreases body.len() - i,
    {
        assert(body@.take(i + 1).drop_last() =~= body@.take(i as int));
        let field = &body[i];
        if let Doc::Scalar(v) = &field.1 {
            if let Doc::Scalar(k) = &field.0 {
                if *k == target_key {
                    upsert_target(table, label, v);
                } else if *k == text_key {
                    upsert_text(table, label, v);
                }
            }
        }
        i = i + 1;
    }
    assert(body@.take(body.len() as int) =~= body@);
}

/// Merges each labelled choice of a `choices` mapping into the table.
fn add_choices(table: &mut Vec<(String, Choice)>, entries: &Vec<(Doc, Doc)>)
    ensures
        keyed(final(table)@) == choice_entries(keyed(old(table)@), entries@),
{
    let ghost start = keyed(table@);
    let mut i: usize = 0;
    while i < entries.len()
        invariant
            0 <= i <= entries.len(),
            keyed(table@) == choice_entries(start, entries@.take(i as int)),
        decreases entries.len() - i,
    {
        assert(entries@.take(i + 1).drop_last() =~= entries@.take(i as int));
        let entry = &entries[i];
        if let Doc::Scalar(label) = &entry.0 {
            if let Doc::Mapping(body) = &entry.1 {
                add_choice_body(table, label, body);
            }
        }
        i = i + 1;
    }
    assert(entries@.take(entries.len() as int) =~= entries@);
}

/// The node that a document value defines.
fn build_node(d: &Doc) -> (r: Node)
    ensures
        r@ == node_of(*d),
{
    let mut node = Node { enter: String::new(), choices: Vec::new() };
    assert(node@.choices =~= empty_node().choices);
    if let Doc::Mapping(fields) = d {
        let enter_key = String::from_str("enter");
        let choices_key = String::from_str("choices");
        let mut i: usize = 0;
        while i < fields.len()
            invariant
                0 <= i <= fields.len(),
                enter_key@ == "enter"@,
                choices_key@ == "choices"@,
                node@ == node_fields(empty_node(), fields@.take(i as int)),
            decreases fields.len() - i,
        {
            assert(fields@.take(i + 1).drop_last() =~= fields@.take(i as int));
            let field = &fields[i];
            if let Doc::Scalar(k) = &field.0 {
                match &field.1 {
                    Doc::Scalar(v) => {
                        if *k == enter_key {
                            node.enter = v.clone();
                        }
                    },
                    Doc::Mapping(cs) => {
                        if *k == choices_key {
                            add_choices(&mut node.choices, cs);
                        }
                    },
                    _ => {},
                }
            }
            i = i + 1;
        }
        assert(fields@.take(fields.len() as int) =~= fields@);
    }
    node
}

/// Builds the story graph that a document defines.
///
/// The root must be a mapping, else the document is malformed. Every other
/// mismatch of shape is skipped: unknown keys, values of the wrong kind and
/// non-string keys leave the graph as it was, so a hand-written document with
/// flaws loads as far as it can.
pub fn build_story(d: &Doc) -> (r: Result<StoryGraph, Error>)
    ensures
        match story_of(*d) {
            Some(g) => r matches Ok(graph) && graph@ == g && story_wf(g),
            None => r matches Err(Error::MalformedDocument),
        },
{
    match d {
        Doc::Mapping(entries) => {
            let start_key = String::from_str("start");
            let mut graph = StoryGraph { nodes: Vec::new(), start: None };
            let ghost empty = StoryView { nodes: Seq::empty(), start: None };
            assert(graph@.nodes =~= empty.nodes);
            let mut i: usize = 0;
            while i < entries.len()
                invariant
                    0 <= i <= entries.len(),
                    start_key@ == "start"@,
                    graph@ == story_entries(empty, entries@.take(i as int)),
                decreases entries.len() - i,
            {
                assert(entries@.take(i + 1).drop_last() =~= entries@.take(i as int));
                let entry = &entries[i];
                if let Doc::Scalar(k) = &entry.0 {
                    if *k == start_key {
                        if let Doc::Scalar(v) = &entry.1 {
                            graph.start = Some(v.clone());
                        }
                    } else {
                        let node = build_node(&entry.1);
                        put_node(&mut graph.nodes, k, node);
                    }
                }
                i = i + 1;
            }
            assert(entries@.take(entries.len() as int) =~= entries@);
            proof {
                lemma_story_entries_wf(empty, entries@);
            }
            Ok(graph)
        },
        _ => Err(Error::MalformedDocument),
    }
}

// ---------------------------------------------------------------------------
// Laws of the choice merge
// ---------------------------------------------------------------------------

/// Setting a choice's target and setting its taken text commute: whichever
/// comes first, the table ends with the same entry for the label.
pub proof fn law_set_target_text_commute(
    table: Seq<(Seq<char>, ChoiceView)>,
    label: Seq<char>,
    t: Seq<char>,
    x: Seq<char>,
)
    ensures
        set_text(set_target(table, label, t), label, x) == set_target(set_text(table, label, x), label, t),
{
    match key_position(table, label) {
        Some(i) => {
            lemma_key_position_some(table, label);
            let a = set_target(table, label, t);
            let b = set_text(table, label, x);
            assert(is_first_key(a, label, i));
            assert(is_first_key(b, label, i));
            lemma_key_position_at(a, label, i);
            lemma_key_position_at(b, label, i);
            assert(set_text(a, label, x) =~= set_target(b, label, t));
        },
        None => {
            let a = set_target(table, label, t);
            let b = set_text(table, label, x);
            let n = table.len() as int;
            assert(is_first_key(a, label, n));
            assert(is_first_key(b, label, n));
            lemma_key_position_at(a, label, n);
            lemma_key_position_at(b, label, n);
            assert(set_text(a, label, x) =~= set_target(b, label, t));
        },
    }
}

/// In a choice body, a `target` field and a `text` field give the same table
/// in either order.
pub proof fn law_choice_field_order(
    table: Seq<(Seq<char>, ChoiceView)>,
    label: Seq<char>,
    target_key: Doc,
    target: Doc,
    text_key: Doc,
    text: Doc,
)
    requires
        is_scalar(target_key, "target"@),
        is_scalar(text_key, "text"@),
        target is Scalar,
        text is Scalar,
    ensures
        choice_fields(table, label, seq![(target_key, target), (text_key, text)])
            == choice_fields(table, label, seq![(text_key, text), (target_key, target)]),
{
    reveal_strlit("target");
    reveal_strlit("text");
    assert("target"@.len() != "text"@.len());
    let first = seq![(target_key, target), (text_key, text)];
    let second = seq![(text_key, text), (target_key, target)];
    assert(first.drop_last().drop_last() =~= Seq::<(Doc, Doc)>::empty());
    assert(second.drop_last().drop_last() =~= Seq::<(Doc, Doc)>::empty());
    assert(first.drop_last() =~= seq![(target_key, target)]);
    assert(second.drop_last() =~= seq![(text_key, text)]);
    let t = target->Scalar_0@;
    let x = text->Scalar_0@;
    assert(!is_scalar(text_key, "target"@));
    let e = Seq::<(Doc, Doc)>::empty();
    assert(choice_fields(table, label, e) == table);
    assert(choice_fields(table, label, first.drop_last()) == set_target(table, label, t));
    assert(choice_fields(table, label, second.drop_last()) == set_text(table, label, x));
    assert(choice_fields(table, label, first) == set_text(set_target(table, label, t), label, x));
    assert(choice_fields(table, label, second) == set_target(set_text(table, label, x), label, t));
    law_set_target_text_commute(table, label, t, x);
}

} // verus!
