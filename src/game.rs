//! A play session: the loaded story, the node the player stands at, and the
//! two-state machine that first loads a story and then follows choices.
use std::path::PathBuf;
use vstd::prelude::*;
use vstd::string::*;
use yaml_rust::scanner::ScanError;

use crate::document::{parse_documents, parsed_view, yaml_documents, Doc};
use crate::error::Error;
use crate::story::{build_story, find_key, lookup, story_of, ChoiceView, Node, NodeView, StoryGraph};

verus! {

#[verifier::external_type_specification]
#[verifier::external_body]
pub struct ExPathBuf(PathBuf);

/// Whether the session waits for a story file or plays a loaded story.
#[derive(Clone, Copy, Debug, PartialEq, Eq)]
pub enum State {
    Load,
    Play,
}

/// What `process` leaves for its caller to do.
#[derive(Debug)]
pub enum Step {
    /// Read the story file of this name, relative to the assets directory, and
    /// hand its contents to `open_story`.
    ReadStory(String),
    /// The step is done; its text, if any, has been written out.
    Shown,
}

/// A session over one story at a time.
#[derive(Debug)]
pub struct Game {
    pub story: StoryGraph,
    pub current_node: String,
    pub state: State,
    pub assets: PathBuf,
}

// ---------------------------------------------------------------------------
// The text a session writes
// ---------------------------------------------------------------------------

/// The labels, each separated from the next by one space.
pub open spec fn join_labels(labels: Seq<Seq<char>>) -> Seq<char>
    decreases labels.len(),
{
    if labels.len() == 0 {
        Seq::empty()
    } else if labels.len() == 1 {
        labels[0]
    } else {
        join_labels(labels.drop_last()) + " "@ + labels.last()
    }
}

pub open spec fn labels_of(choices: Seq<(Seq<char>, ChoiceView)>) -> Seq<Seq<char>> {
    choices.map_values(|p: (Seq<char>, ChoiceView)| p.0)
}

/// The header line and the line of a node's choice labels.
pub open spec fn choice_listing(node: NodeView) -> Seq<char> {
    "Choices:\n"@ + join_labels(labels_of(node.choices)) + "\n"@
}

/// What is shown on arriving at a node: its entry text, then its choices.
pub open spec fn entry_text(node: NodeView) -> Seq<char> {
    node.enter + "\n"@ + choice_listing(node)
}

/// What is shown on taking choice `c`, labelled `label`, to node `next`.
pub open spec fn step_text(label: Seq<char>, c: ChoiceView, next: NodeView) -> Seq<char> {
    label + "\n"@ + c.taken_text + "\n"@ + entry_text(next)
}

impl Game {
    /// The node the player stands at, if the story has it.
    pub open spec fn current(&self) -> Option<NodeView> {
        lookup(self.story@.nodes, self.current_node@)
    }
}

// ---------------------------------------------------------------------------
// What a step does
// ---------------------------------------------------------------------------

/// Following the choice `label` from session `pre` leaves session `post`, turns
/// the output `out0` into `out1` and returns `r`.
pub open spec fn choice_step(
    pre: Game,
    label: Seq<char>,
    post: Game,
    out0: Seq<char>,
    out1: Seq<char>,
    r: Result<(), Error>,
) -> bool {
    match pre.current() {
        None => r matches Err(Error::CurrentNodeInvalid) && post == pre && out1 == out0,
        Some(node) => match lookup(node.choices, label) {
            None => r matches Err(Error::ChoiceNotFound) && post == pre && out1 == out0,
            Some(c) => {
                &&& post.current_node@ == c.target
                &&& post.story == pre.story
                &&& post.state == pre.state
                &&& post.assets == pre.assets
                &&& match lookup(pre.story@.nodes, c.target) {
                    Some(next) => r is Ok && out1 == out0 + step_text(label, c, next),
                    None => r matches Err(Error::CurrentNodeInvalid) && out1 == out0,
                }
            },
        },
    }
}

/// Loading the parse outcome `docs` into session `pre` leaves session `post`,
/// turns the output `out0` into `out1` and returns `r`.
pub open spec fn load_step(
    pre: Game,
    docs: Result<Seq<Doc>, ScanError>,
    post: Game,
    out0: Seq<char>,
    out1: Seq<char>,
    r: Result<(), Error>,
) -> bool {
    match docs {
        Err(e) => r == Err::<(), Error>(Error::Yaml(e)) && post == pre && out1 == out0,
        Ok(ds) => match if ds.len() == 0 { None } else { story_of(ds[0]) } {
            None => r matches Err(Error::MalformedDocument) && post == pre && out1 == out0,
            Some(g) => match g.start {
                None => r matches Err(Error::NoStartingNodeFound) && post == pre && out1 == out0,
                Some(s) => {
                    &&& post.story@ == g
                    &&& post.current_node@ == s
                    &&& post.state == State::Play
                    &&& post.assets == pre.assets
                    &&& match lookup(g.nodes, s) {
                        Some(n) => r is Ok && out1 == out0 + entry_text(n),
                        None => r matches Err(Error::CurrentNodeInvalid) && out1 == out0,
                    }
                },
            },
        },
    }
}

/// A step's outcome with what was done dropped.
pub open spec fn outcome_of(r: Result<Step, Error>) -> Result<(), Error> {
    match r {
        Ok(_) => Ok(()),
        Err(e) => Err(e),
    }
}

// ---------------------------------------------------------------------------
// Writing text
// ---------------------------------------------------------------------------

/// Appends the choice listing of `node`.
fn write_listing(node: &Node, out: &mut String)
    ensures
        final(out)@ == old(out)@ + choice_listing(node@),
{
    let ghost o = out@;
    let ghost labels = labels_of(node@.choices);
    out.append("Choices:\n");
    let mut i: usize = 0;
    while i < node.choices.len()
        invariant
            0 <= i <= node.choices.len(),
            labels == labels_of(node@.choices),
            labels.len() == node.choices.len(),
            out@ == o + "Choices:\n"@ + join_labels(labels.take(i as int)),
        decreases node.choices.len() - i,
    {
        let ghost before = out@;
        assert(labels.take(i + 1).drop_last() =~= labels.take(i as int));
        assert(labels[i as int] == node.choices[i as int].0@);
        if i > 0 {
            out.append(" ");
        }
        out.append(node.choices[i].0.as_str());
        proof {
            if i == 0 {
                assert(join_labels(labels.take(1)) == labels[0]);
            } else {
                assert(join_labels(labels.take(i + 1)) == join_labels(labels.take(i as int)) + " "@
                    + labels[i as int]);
            }
            assert(out@ =~= o + "Choices:\n"@ + join_labels(labels.take(i + 1)));
        }
        i = i + 1;
    }
    assert(labels.take(node.choices.len() as int) =~= labels);
    out.append("\n");
    assert(out@ =~= o + choice_listing(node@));
}

/// Appends what is shown on arriving at `node`.
fn write_entry(node: &Node, out: &mut String)
    ensures
        final(out)@ == old(out)@ + entry_text(node@),
{
    let ghost o = out@;
    out.append(node.enter.as_str());
    out.append("\n");
    write_listing(node, out);
    assert(out@ =~= o + entry_text(node@));
}

impl Game {
    /// A session that waits for a story file, to be looked up under `assets`.
    pub fn new(assets: PathBuf) -> (r: Game)
        ensures
            r.state == State::Load,
            r.story@.nodes.len() == 0,
            r.story@.start is None,
            r.current_node@.len() == 0,
            r.assets == assets,
    {
        Game {
            story: StoryGraph { nodes: Vec::new(), start: None },
            current_node: String::new(),
            state: State::Load,
            assets,
        }
    }

    /// Appends the choice listing of the current node.
    pub fn print_choices(&self, out_text: &mut String) -> (r: Result<(), Error>)
        ensures
            match self.current() {
                Some(node) => r is Ok && final(out_text)@ == old(out_text)@ + choice_listing(node),
                None => r matches Err(Error::CurrentNodeInvalid) && final(out_text)@ == old(out_text)@,
            },
    {
        match find_key(&self.story.nodes, &self.current_node) {
            Some(i) => {
                write_listing(&self.story.nodes[i].1, out_text);
                Ok(())
            },
            None => Err(Error::CurrentNodeInvalid),
        }
    }

    /// Follows the choice labelled `in_text` from the current node.
    ///
    /// The label must match exactly. On a match the player moves to the
    /// choice's target, and the label, the choice's text and what is shown
    /// on arriving at the target are appended, each ending a line. A target
    /// that names no node is only found out here, after the move.
    pub fn process_choice(&mut self, in_text: &String, out_text: &mut String) -> (r: Result<(), Error>)
        ensures
            choice_step(*old(self), in_text@, *final(self), old(out_text)@, final(out_text)@, r),
    {
        let ni = match find_key(&self.story.nodes, &self.current_node) {
            Some(i) => i,
            None => {
                return Err(Error::CurrentNodeInvalid);
            },
        };
        let ci = match find_key(&self.story.nodes[ni].1.choices, in_text) {
            Some(j) => j,
            None => {
                return Err(Error::ChoiceNotFound);
            },
        };
        let target = self.story.nodes[ni].1.choices[ci].1.target.clone();
        let taken = self.story.nodes[ni].1.choices[ci].1.taken_text.clone();
        self.current_node = target;
        let ti = match find_key(&self.story.nodes, &self.current_node) {
            Some(t) => t,
            None => {
                return Err(Error::CurrentNodeInvalid);
            },
        };
        let ghost o = out_text@;
        out_text.append(in_text.as_str());
        out_text.append("\n");
        out_text.append(taken.as_str());
        out_text.append("\n");
        write_entry(&self.story.nodes[ti].1, out_text);
        proof {
            let c = self.story.nodes[ni as int].1.choices[ci as int].1@;
            assert(out_text@ =~= o + step_text(in_text@, c, self.story.nodes[ti as int].1@));
        }
        Ok(())
    }

    /// Installs the story of the first parsed document and enters its start node.
    ///
    /// A parse error, a missing document, a root that is not a mapping and a
    /// missing `start` key each leave the session as it was. Otherwise the new
    /// story replaces the old one and the session plays from its start node,
    /// whose entry text and choices are appended; a start that names no node
    /// is found out here, after the story is installed.
    pub fn load_documents(&mut self, docs: Result<Vec<Doc>, ScanError>, out_text: &mut String) -> (r:
        Result<(), Error>)
        ensures
            load_step(*old(self), parsed_view(docs), *final(self), old(out_text)@, final(out_text)@, r),
    {
        let docs = match docs {
            Ok(d) => d,
            Err(e) => {
                return Err(Error::Yaml(e));
            },
        };
        if docs.len() == 0 {
            return Err(Error::MalformedDocument);
        }
        let graph = match build_story(&docs[0]) {
            Ok(g) => g,
            Err(_) => {
                return Err(Error::MalformedDocument);
            },
        };
        let start = match &graph.start {
            Some(s) => s.clone(),
            None => {
                return Err(Error::NoStartingNodeFound);
            },
        };
        self.story = graph;
        self.current_node = start;
        self.state = State::Play;
        match find_key(&self.story.nodes, &self.current_node) {
            Some(i) => {
                write_entry(&self.story.nodes[i].1, out_text);
                Ok(())
            },
            None => Err(Error::CurrentNodeInvalid),
        }
    }

    /// Parses a story document and loads it as `load_documents` does.
    pub fn open_story(&mut self, contents: &str, out_text: &mut String) -> (r: Result<(), Error>)
        ensures
            load_step(*old(self), yaml_documents(contents@), *final(self), old(out_text)@, final(out_text)@, r),
    {
        let docs = parse_documents(contents);
        self.load_documents(docs, out_text)
    }

    /// Handles one line of input.
    ///
    /// While loading, the line names the story file to read: the session is
    /// left as it is and the caller is asked to read the file and hand its
    /// contents to `open_story`. While playing, the line is a choice label and
    /// is followed as `process_choice` does.
    pub fn process(&mut self, in_text: &String, out_text: &mut String) -> (r: Result<Step, Error>)
        ensures
            old(self).state == State::Load ==> {
                &&& r matches Ok(Step::ReadStory(name)) && name@ == in_text@
                &&& *final(self) == *old(self)
                &&& final(out_text)@ == old(out_text)@
            },
            old(self).state == State::Play ==> {
                &&& r matches Ok(step) ==> step is Shown
                &&& choice_step(*old(self), in_text@, *final(self), old(out_text)@, final(out_text)@, outcome_of(r))
            },
    {
        match self.state {
            State::Load => Ok(Step::ReadStory(in_text.clone())),
            State::Play => match self.process_choice(in_text, out_text) {
                Ok(()) => Ok(Step::Shown),
                Err(e) => Err(e),
            },
        }
    }
}

// ---------------------------------------------------------------------------
// Laws of a session
// ---------------------------------------------------------------------------

/// Following a label that the current node does not offer, twice in a row,
/// fails the same way both times and changes neither the session nor the output.
pub proof fn law_unknown_choice_is_stable(
    g0: Game,
    label: Seq<char>,
    g1: Game,
    g2: Game,
    out0: Seq<char>,
    out1: Seq<char>,
    out2: Seq<char>,
    r1: Result<(), Error>,
    r2: Result<(), Error>,
)
    requires
        g0.state == State::Play,
        g0.current() matches Some(node) && lookup(node.choices, label) is None,
        choice_step(g0, label, g1, out0, out1, r1),
        choice_step(g1, label, g2, out1, out2, r2),
    ensures
        r1 matches Err(Error::ChoiceNotFound),
        r2 matches Err(Error::ChoiceNotFound),
        g1 == g0,
        g2 == g0,
        out1 == out0,
        out2 == out0,
{
}

/// Following a label that the current node offers moves the player to exactly
/// that choice's target, whatever else the step reports.
pub proof fn law_known_choice_moves(
    g0: Game,
    label: Seq<char>,
    g1: Game,
    out0: Seq<char>,
    out1: Seq<char>,
    r: Result<(), Error>,
)
    requires
        g0.current() matches Some(node) && lookup(node.choices, label) is Some,
        choice_step(g0, label, g1, out0, out1, r),
    ensures
        g1.current_node@ == lookup(g0.current()->0.choices, label)->0.target,
        g1.story == g0.story,
        g1.state == g0.state,
{
}

/// A document that names a declared start node loads: the session plays from
/// that node, and the text appended is exactly the node's entry text followed
/// by its choice listing.
pub proof fn law_load_enters_start(
    pre: Game,
    doc: Doc,
    post: Game,
    out0: Seq<char>,
    out1: Seq<char>,
    r: Result<(), Error>,
)
    requires
        story_of(doc) matches Some(g) && g.start matches Some(s) && lookup(g.nodes, s) is Some,
        load_step(pre, Ok(seq![doc]), post, out0, out1, r),
    ensures
        r is Ok,
        post.state == State::Play,
        post.current() == lookup(story_of(doc)->0.nodes, story_of(doc)->0.start->0),
        out1 == out0 + post.current()->0.enter + "\n"@ + choice_listing(post.current()->0),
{
    let g = story_of(doc)->0;
    let n = lookup(g.nodes, g.start->0)->0;
    assert(out1 =~= out0 + n.enter + "\n"@ + choice_listing(n));
}

/// A document whose root is not a mapping fails to load as malformed and
/// leaves the session as it was.
pub proof fn law_malformed_root_is_refused(
    pre: Game,
    doc: Doc,
    post: Game,
    out0: Seq<char>,
    out1: Seq<char>,
    r: Result<(), Error>,
)
    requires
        !(doc is Mapping),
        load_step(pre, Ok(seq![doc]), post, out0, out1, r),
    ensures
        r matches Err(Error::MalformedDocument),
        post == pre,
        out1 == out0,
{
}

/// A document without a `start` key fails to load and leaves the session as it was.
pub proof fn law_missing_start_is_refused(
    pre: Game,
    doc: Doc,
    post: Game,
    out0: Seq<char>,
    out1: Seq<char>,
    r: Result<(), Error>,
)
    requires
        story_of(doc) matches Some(g) && g.start is None,
        load_step(pre, Ok(seq![doc]), post, out0, out1, r),
    ensures
        r matches Err(Error::NoStartingNodeFound),
        post == pre,
        out1 == out0,
{
}

} // verus!
