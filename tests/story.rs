use std::path::PathBuf;

use text_adventure::document::Doc;
use text_adventure::error::Error;
use text_adventure::game::{Game, State, Step};
use text_adventure::story::build_story;

fn s(x: &str) -> Doc {
    Doc::Scalar(x.to_string())
}

fn m(pairs: Vec<(Doc, Doc)>) -> Doc {
    Doc::Mapping(pairs)
}

fn game() -> Game {
    Game::new(PathBuf::from("assets"))
}

fn two_node_story() -> Doc {
    m(vec![
        (s("start"), s("A")),
        (
            s("A"),
            m(vec![(
                s("choices"),
                m(vec![(s("go"), m(vec![(s("target"), s("B")), (s("text"), s("You go."))]))]),
            )]),
        ),
        (s("B"), m(vec![(s("enter"), s("Arrived."))])),
    ])
}

const TWO_NODES: &str = "start: A\nA:\n  choices:\n    go:\n      target: B\n      text: You go.\nB:\n  enter: Arrived.\n";

#[test]
fn round_trip_from_tree() {
    let mut g = game();
    let mut out = String::new();
    assert!(g.load_documents(Ok(vec![two_node_story()]), &mut out).is_ok());
    let mut out = String::new();
    assert!(g.process_choice(&"go".to_string(), &mut out).is_ok());
    assert_eq!(out, "go\nYou go.\nArrived.\nChoices:\n\n");
    assert_eq!(g.current_node, "B");
}

#[test]
fn round_trip_from_yaml_text() {
    let mut g = game();
    let mut out = String::new();
    assert!(g.open_story(TWO_NODES, &mut out).is_ok());
    assert_eq!(g.state, State::Play);
    assert_eq!(out, "\nChoices:\ngo\n");
    let mut out = String::new();
    let step = g.process(&"go".to_string(), &mut out);
    assert!(matches!(step, Ok(Step::Shown)));
    assert_eq!(out, "go\nYou go.\nArrived.\nChoices:\n\n");
    assert_eq!(g.current_node, "B");
}

#[test]
fn load_shows_start_entry_text() {
    let mut g = game();
    let mut out = "before|".to_string();
    let text = "start: hall\nhall:\n  enter: A dusty hall.\n  choices:\n    north:\n      target: hall\n    south:\n      target: hall\n";
    assert!(g.open_story(text, &mut out).is_ok());
    assert_eq!(out, "before|A dusty hall.\nChoices:\nnorth south\n");
    assert_eq!(g.current_node, "hall");
    assert_eq!(g.state, State::Play);
}

#[test]
fn unknown_label_is_refused_twice_without_change() {
    let mut g = game();
    let mut out = String::new();
    g.open_story(TWO_NODES, &mut out).unwrap();
    let mut out = "kept".to_string();
    let r1 = g.process_choice(&"fly".to_string(), &mut out);
    assert!(matches!(r1, Err(Error::ChoiceNotFound)));
    assert_eq!(g.current_node, "A");
    let r2 = g.process_choice(&"fly".to_string(), &mut out);
    assert!(matches!(r2, Err(Error::ChoiceNotFound)));
    assert_eq!(g.current_node, "A");
    assert_eq!(out, "kept");
    assert_eq!(g.state, State::Play);
}

#[test]
fn labels_match_case_sensitively() {
    let mut g = game();
    let mut out = String::new();
    g.open_story(TWO_NODES, &mut out).unwrap();
    let r = g.process_choice(&"Go".to_string(), &mut out);
    assert!(matches!(r, Err(Error::ChoiceNotFound)));
    assert_eq!(g.current_node, "A");
}

#[test]
fn text_before_target_gives_same_choice() {
    let text = "start: A\nA:\n  choices:\n    go:\n      text: You go.\n      target: B\nB:\n  enter: Arrived.\n";
    let mut g = game();
    let mut out = String::new();
    g.open_story(text, &mut out).unwrap();
    let mut out = String::new();
    g.process_choice(&"go".to_string(), &mut out).unwrap();
    assert_eq!(out, "go\nYou go.\nArrived.\nChoices:\n\n");
    assert_eq!(g.current_node, "B");
}

#[test]
fn choice_fields_merge_across_entries() {
    let doc = m(vec![(
        s("A"),
        m(vec![
            (s("choices"), m(vec![(s("go"), m(vec![(s("text"), s("Off."))]))])),
            (s("choices"), m(vec![(s("go"), m(vec![(s("target"), s("B"))]))])),
        ]),
    )]);
    let graph = build_story(&doc).unwrap();
    assert_eq!(graph.nodes.len(), 1);
    let node = &graph.nodes[0].1;
    assert_eq!(node.choices.len(), 1);
    assert_eq!(node.choices[0].0, "go");
    assert_eq!(node.choices[0].1.target, "B");
    assert_eq!(node.choices[0].1.taken_text, "Off.");
}

#[test]
fn scalar_root_is_malformed() {
    let mut g = game();
    let mut out = String::new();
    let r = g.open_story("just a line", &mut out);
    assert!(matches!(r, Err(Error::MalformedDocument)));
    assert_eq!(g.state, State::Load);
    assert!(g.story.nodes.is_empty());
    assert_eq!(out, "");
}

#[test]
fn sequence_root_is_malformed() {
    let mut g = game();
    let mut out = String::new();
    let r = g.open_story("- a\n- b\n", &mut out);
    assert!(matches!(r, Err(Error::MalformedDocument)));
    assert_eq!(g.state, State::Load);
    assert!(g.story.nodes.is_empty());
    assert!(matches!(build_story(&Doc::Sequence(vec![s("a")])), Err(Error::MalformedDocument)));
}

#[test]
fn empty_text_is_malformed() {
    let mut g = game();
    let mut out = String::new();
    let r = g.open_story("", &mut out);
    assert!(matches!(r, Err(Error::MalformedDocument)));
    assert_eq!(g.state, State::Load);
}

#[test]
fn missing_start_is_refused() {
    let mut g = game();
    let mut out = String::new();
    let r = g.open_story("A:\n  enter: Hello.\n", &mut out);
    assert!(matches!(r, Err(Error::NoStartingNodeFound)));
    assert_eq!(g.state, State::Load);
    assert!(g.story.nodes.is_empty());
    assert_eq!(out, "");
}

#[test]
fn syntax_error_is_reported() {
    let mut g = game();
    let mut out = String::new();
    let r = g.open_story("a: [1, 2\nb: c", &mut out);
    assert!(matches!(r, Err(Error::Yaml(_))));
    assert_eq!(g.state, State::Load);
}

#[test]
fn dangling_target_moves_then_fails() {
    let text = "start: A\nA:\n  choices:\n    go:\n      target: Nowhere\n";
    let mut g = game();
    let mut out = String::new();
    g.open_story(text, &mut out).unwrap();
    let mut out = String::new();
    let r = g.process_choice(&"go".to_string(), &mut out);
    assert!(matches!(r, Err(Error::CurrentNodeInvalid)));
    assert_eq!(g.current_node, "Nowhere");
    assert_eq!(out, "");
    let r = g.process_choice(&"go".to_string(), &mut out);
    assert!(matches!(r, Err(Error::CurrentNodeInvalid)));
}

#[test]
fn undeclared_start_plays_but_cannot_show() {
    let mut g = game();
    let mut out = String::new();
    let r = g.open_story("start: Z\nA:\n  enter: x\n", &mut out);
    assert!(matches!(r, Err(Error::CurrentNodeInvalid)));
    assert_eq!(g.state, State::Play);
    assert_eq!(g.current_node, "Z");
    assert_eq!(out, "");
}

#[test]
fn load_mode_asks_for_the_file() {
    let mut g = game();
    let mut out = "x".to_string();
    let r = g.process(&"story.yml".to_string(), &mut out);
    match r {
        Ok(Step::ReadStory(name)) => assert_eq!(name, "story.yml"),
        _ => panic!("expected a request to read the story"),
    }
    assert_eq!(g.state, State::Load);
    assert_eq!(out, "x");
}

#[test]
fn fresh_session_has_no_current_node() {
    let g = game();
    let mut out = String::new();
    assert!(matches!(g.print_choices(&mut out), Err(Error::CurrentNodeInvalid)));
    assert_eq!(out, "");
    assert_eq!(g.state, State::Load);
}

#[test]
fn print_choices_lists_labels_in_order() {
    let mut g = game();
    let mut out = String::new();
    let text = "start: A\nA:\n  choices:\n    left:\n      target: A\n    right:\n      target: A\n    up:\n      text: hm\n";
    g.open_story(text, &mut out).unwrap();
    let mut out = String::new();
    g.print_choices(&mut out).unwrap();
    assert_eq!(out, "Choices:\nleft right up\n");
}

#[test]
fn unknown_keys_and_shapes_are_skipped() {
    let doc = m(vec![
        (s("start"), s("A")),
        (s("A"), m(vec![
            (s("enter"), s("Here.")),
            (s("colour"), s("red")),
            (s("choices"), m(vec![
                (s("bad"), s("not a mapping")),
                (Doc::Other, m(vec![(s("target"), s("A"))])),
                (s("empty"), m(vec![(s("weight"), s("3"))])),
                (s("ok"), m(vec![(s("target"), Doc::Other), (s("text"), s("fine"))])),
            ])),
        ])),
        (s("B"), s("scalar node")),
        (Doc::Other, m(vec![])),
    ]);
    let graph = build_story(&doc).unwrap();
    assert_eq!(graph.start.as_deref(), Some("A"));
    assert_eq!(graph.nodes.len(), 2);
    assert_eq!(graph.nodes[0].0, "A");
    let a = &graph.nodes[0].1;
    assert_eq!(a.enter, "Here.");
    assert_eq!(a.choices.len(), 1);
    assert_eq!(a.choices[0].0, "ok");
    assert_eq!(a.choices[0].1.target, "");
    assert_eq!(a.choices[0].1.taken_text, "fine");
    assert_eq!(graph.nodes[1].0, "B");
    assert_eq!(graph.nodes[1].1.enter, "");
    assert!(graph.nodes[1].1.choices.is_empty());
}

#[test]
fn later_node_definition_replaces_earlier() {
    let doc = m(vec![
        (s("A"), m(vec![(s("enter"), s("first"))])),
        (s("C"), m(vec![])),
        (s("A"), m(vec![(s("enter"), s("second"))])),
        (s("start"), s("C")),
    ]);
    let graph = build_story(&doc).unwrap();
    assert_eq!(graph.nodes.len(), 2);
    assert_eq!(graph.nodes[0].0, "A");
    assert_eq!(graph.nodes[0].1.enter, "second");
    assert_eq!(graph.start.as_deref(), Some("C"));
}

#[test]
fn first_document_of_a_stream_is_loaded() {
    let mut g = game();
    let mut out = String::new();
    let text = "start: A\nA:\n  enter: One.\n---\nstart: B\nB:\n  enter: Two.\n";
    g.open_story(text, &mut out).unwrap();
    assert_eq!(g.current_node, "A");
    assert_eq!(out, "One.\nChoices:\n\n");
}

#[test]
fn reload_replaces_story() {
    let mut g = game();
    let mut out = String::new();
    g.open_story(TWO_NODES, &mut out).unwrap();
    let mut out = String::new();
    g.open_story("start: X\nX:\n  enter: New.\n", &mut out).unwrap();
    assert_eq!(g.story.nodes.len(), 1);
    assert_eq!(g.current_node, "X");
    assert_eq!(out, "New.\nChoices:\n\n");
}
