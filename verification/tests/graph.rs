use aingle_minimal::graph::{GraphStats, SemanticGraph, TripleObject};
use aingle_minimal::types::{
    Action, ActionType, AgentPubKey, Entry, EntryType, Link, Record, Signature, Timestamp,
};
use rand::Rng;

fn random_hash() -> aingle_minimal::types::Hash {
    let mut bytes = [0u8; 32];
    rand::rng().fill(&mut bytes);
    aingle_minimal::types::Hash(bytes)
}

fn random_agent() -> AgentPubKey {
    let mut bytes = [0u8; 32];
    rand::rng().fill(&mut bytes);
    AgentPubKey(bytes)
}

fn random_signature() -> Signature {
    let mut bytes = [0u8; 64];
    rand::rng().fill(&mut bytes);
    Signature(bytes)
}

fn test_action() -> Action {
    Action {
        action_type: ActionType::Create,
        author: random_agent(),
        timestamp: Timestamp(1234567890),
        seq: 1,
        prev_action: None,
        entry_hash: Some(random_hash()),
        signature: random_signature(),
    }
}

#[test]
fn test_index_action() {
    let mut graph = SemanticGraph::new();
    let action = test_action();

    graph.index_action(&action).unwrap();

    let stats = graph.stats().unwrap();
    assert_eq!(stats.triple_count, 5);
}

#[test]
fn test_query_by_predicate() {
    let mut graph = SemanticGraph::new();
    let action = test_action();
    graph.index_action(&action).unwrap();

    let results = graph.query().with_predicate("aingle:seq").execute().unwrap();

    assert_eq!(results.len(), 1);
    assert!(matches!(results[0].object, TripleObject::Integer(1)));
}

#[test]
fn test_traverse() {
    let mut graph = SemanticGraph::new();

    let link = Link {
        base: random_hash(),
        target: random_hash(),
        link_type: 0,
        tag: Vec::new(),
        timestamp: Timestamp::now(),
    };
    graph.index_link(&link).unwrap();

    let base_subject = format!("entry:{}", link.base.to_hex());
    let reachable = graph.traverse(&base_subject, &["link:0"], 3).unwrap();

    assert_eq!(reachable.len(), 1);
}

#[test]
fn test_get_subject() {
    let mut graph = SemanticGraph::new();
    let action = test_action();
    let action_hash = action.hash();
    graph.index_action(&action).unwrap();

    let subject = format!("action:{}", action_hash.to_hex());
    let triples = graph.get_subject(&subject).unwrap();

    assert!(!triples.is_empty());
    assert!(triples.iter().all(|t| t.subject == subject));
}

#[test]
fn test_semantic_graph_default() {
    let graph: SemanticGraph = Default::default();
    let stats = graph.stats().unwrap();
    assert_eq!(stats.triple_count, 0);
    assert_eq!(stats.subject_count, 0);
    assert_eq!(stats.predicate_count, 0);
}

#[test]
fn test_index_entry() {
    let mut graph = SemanticGraph::new();
    let entry = Entry { entry_type: EntryType::App, content: vec![1, 2, 3] };

    graph.index_entry(&entry).unwrap();

    let stats = graph.stats().unwrap();
    assert_eq!(stats.triple_count, 2);
}

#[test]
fn test_index_link() {
    let mut graph = SemanticGraph::new();
    let link = Link {
        base: random_hash(),
        target: random_hash(),
        link_type: 1,
        tag: vec![1, 2, 3],
        timestamp: Timestamp::now(),
    };

    graph.index_link(&link).unwrap();

    let stats = graph.stats().unwrap();
    assert_eq!(stats.triple_count, 1);
}

#[test]
fn test_index_record() {
    let mut graph = SemanticGraph::new();
    let record = Record {
        action: test_action(),
        entry: Some(Entry { entry_type: EntryType::App, content: vec![1, 2, 3] }),
    };

    graph.index_record(&record).unwrap();

    let stats = graph.stats().unwrap();
    assert!(stats.triple_count >= 5);
}

#[test]
fn test_index_record_without_entry() {
    let mut graph = SemanticGraph::new();
    let record = Record { action: test_action(), entry: None };

    graph.index_record(&record).unwrap();

    let stats = graph.stats().unwrap();
    assert!(stats.triple_count >= 5);
}

#[test]
fn test_query_by_subject() {
    let mut graph = SemanticGraph::new();
    let action = test_action();
    graph.index_action(&action).unwrap();

    let results = graph.query().subject_of_type("Action").execute().unwrap();

    assert!(!results.is_empty());
}

#[test]
fn test_query_with_limit() {
    let mut graph = SemanticGraph::new();

    for _ in 0..5 {
        let mut action = test_action();
        action.timestamp = Timestamp(rand::random());
        graph.index_action(&action).unwrap();
    }

    let results = graph.query().with_predicate("aingle:seq").limit(2).execute().unwrap();

    assert!(results.len() <= 2);
}

#[test]
fn test_query_with_object_literal() {
    let mut graph = SemanticGraph::new();
    let action = test_action();
    let author_hex = action.author.to_hex();
    graph.index_action(&action).unwrap();

    let results = graph
        .query()
        .with_predicate("aingle:author")
        .with_object_literal(&author_hex)
        .execute()
        .unwrap();

    assert_eq!(results.len(), 1);
}

#[test]
fn test_query_with_object_reference() {
    let mut graph = SemanticGraph::new();

    let base = random_hash();
    let target = random_hash();
    let link = Link { base, target: target.clone(), link_type: 0, tag: Vec::new(), timestamp: Timestamp::now() };
    graph.index_link(&link).unwrap();

    let target_ref = format!("entry:{}", target.to_hex());
    let results = graph.query().with_object_reference(&target_ref).execute().unwrap();

    assert_eq!(results.len(), 1);
}

#[test]
fn test_get_predicate() {
    let mut graph = SemanticGraph::new();
    let action = test_action();
    graph.index_action(&action).unwrap();

    let triples = graph.get_predicate("rdf:type").unwrap();
    assert_eq!(triples.len(), 1);

    let triples = graph.get_predicate("aingle:author").unwrap();
    assert_eq!(triples.len(), 1);
}

#[test]
fn test_get_predicate_empty() {
    let graph = SemanticGraph::new();
    let triples = graph.get_predicate("nonexistent").unwrap();
    assert!(triples.is_empty());
}

#[test]
fn test_traverse_empty_predicates() {
    let mut graph = SemanticGraph::new();

    let link = Link {
        base: random_hash(),
        target: random_hash(),
        link_type: 0,
        tag: Vec::new(),
        timestamp: Timestamp::now(),
    };
    graph.index_link(&link).unwrap();

    let base_subject = format!("entry:{}", link.base.to_hex());
    let reachable = graph.traverse(&base_subject, &[], 3).unwrap();
    assert_eq!(reachable.len(), 1);
}

#[test]
fn test_traverse_max_depth() {
    let mut graph = SemanticGraph::new();

    let hash1 = random_hash();
    let hash2 = random_hash();
    let hash3 = random_hash();

    let link1 = Link { base: hash1.clone(), target: hash2.clone(), link_type: 0, tag: Vec::new(), timestamp: Timestamp::now() };
    let link2 = Link { base: hash2.clone(), target: hash3.clone(), link_type: 0, tag: Vec::new(), timestamp: Timestamp::now() };

    graph.index_link(&link1).unwrap();
    graph.index_link(&link2).unwrap();

    let base_subject = format!("entry:{}", hash1.to_hex());

    let reachable = graph.traverse(&base_subject, &["link:0"], 1).unwrap();
    assert!(!reachable.is_empty());
}

#[test]
fn test_triple_object_as_string() {
    let literal = TripleObject::Literal("hello".to_string());
    assert_eq!(literal.as_string(), Some("hello"));

    let integer = TripleObject::Integer(42);
    assert_eq!(integer.as_string(), None);

    let reference = TripleObject::Reference("ref".to_string());
    assert_eq!(reference.as_string(), None);

    let boolean = TripleObject::Boolean(true);
    assert_eq!(boolean.as_string(), None);

    let hash = TripleObject::Hash(random_hash());
    assert_eq!(hash.as_string(), None);
}

#[test]
fn test_triple_object_variants() {
    let obj1 = TripleObject::Integer(100);
    let obj2 = TripleObject::Boolean(false);
    let obj3 = TripleObject::Hash(random_hash());
    let obj4 = TripleObject::Reference("ref".to_string());

    let _ = format!("{:?}", obj1);
    let _ = format!("{:?}", obj2);
    let _ = format!("{:?}", obj3);
    let _ = format!("{:?}", obj4);

    let cloned = obj1.clone();
    assert_eq!(cloned, obj1);
}

#[test]
fn test_graph_stats_default() {
    let stats: GraphStats = Default::default();
    assert_eq!(stats.triple_count, 0);
    assert_eq!(stats.subject_count, 0);
    assert_eq!(stats.predicate_count, 0);
}

#[test]
fn test_index_action_with_prev_action() {
    let mut graph = SemanticGraph::new();
    let mut action = test_action();
    action.prev_action = Some(random_hash());

    graph.index_action(&action).unwrap();

    let stats = graph.stats().unwrap();
    assert_eq!(stats.triple_count, 6);
}

#[test]
fn test_index_action_without_entry_hash() {
    let mut graph = SemanticGraph::new();
    let mut action = test_action();
    action.entry_hash = None;

    graph.index_action(&action).unwrap();

    let stats = graph.stats().unwrap();
    assert_eq!(stats.triple_count, 4);
}

#[test]
fn test_query_no_results() {
    let mut graph = SemanticGraph::new();
    let action = test_action();
    graph.index_action(&action).unwrap();

    let results = graph.query().with_predicate("nonexistent:predicate").execute().unwrap();

    assert!(results.is_empty());
}

#[test]
fn test_multiple_actions() {
    let mut graph = SemanticGraph::new();

    for i in 0..10 {
        let mut action = test_action();
        action.seq = i;
        graph.index_action(&action).unwrap();
    }

    let stats = graph.stats().unwrap();
    assert_eq!(stats.triple_count, 50);

    let results = graph.query().with_predicate("rdf:type").execute().unwrap();

    assert_eq!(results.len(), 10);
}

#[test]
fn traverse_depth_one_finds_only_first_target() {
    let mut graph = SemanticGraph::new();
    let h1 = aingle_minimal::types::Hash([1u8; 32]);
    let h2 = aingle_minimal::types::Hash([2u8; 32]);
    let h3 = aingle_minimal::types::Hash([3u8; 32]);
    graph.index_link(&Link { base: h1, target: h2, link_type: 0, tag: vec![], timestamp: Timestamp(0) }).unwrap();
    graph.index_link(&Link { base: h2, target: h3, link_type: 0, tag: vec![], timestamp: Timestamp(0) }).unwrap();
    let start = format!("entry:{}", h1.to_hex());
    let one = graph.traverse(&start, &["link:0"], 1).unwrap();
    assert_eq!(one, vec![format!("entry:{}", h2.to_hex())]);
    let two = graph.traverse(&start, &["link:0"], 2).unwrap();
    assert_eq!(two, vec![format!("entry:{}", h2.to_hex()), format!("entry:{}", h3.to_hex())]);
    let none = graph.traverse(&start, &["link:0"], 0).unwrap();
    assert!(none.is_empty());
}

#[test]
fn traverse_reports_at_most_triple_count() {
    let mut graph = SemanticGraph::new();
    let a = aingle_minimal::types::Hash([4u8; 32]);
    let b = aingle_minimal::types::Hash([5u8; 32]);
    graph.index_link(&Link { base: a, target: b, link_type: 0, tag: vec![], timestamp: Timestamp(0) }).unwrap();
    graph.index_link(&Link { base: b, target: a, link_type: 0, tag: vec![], timestamp: Timestamp(0) }).unwrap();
    let start = format!("entry:{}", a.to_hex());
    let v = graph.traverse(&start, &[], 10).unwrap();
    assert_eq!(v, vec![format!("entry:{}", b.to_hex()), format!("entry:{}", a.to_hex())]);
    assert!(v.len() <= graph.stats().unwrap().triple_count);
}
