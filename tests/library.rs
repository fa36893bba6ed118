use doc_index::collection::{ensure_collection, vector_dimension, CollectionStep, Metric};
use doc_index::fanout::{gather, FanOutPolicy};
use doc_index::lines::split_lines;
use doc_index::pipeline::{next_stage, PipelineMode, Stage};
use doc_index::points::{document_payload, plan_points};
use doc_index::search::{check_hits, search_request};
use std::collections::HashMap;

fn strings(items: &[&str]) -> Vec<String> {
    items.iter().map(|s| s.to_string()).collect()
}

#[test]
fn split_keeps_empty_lines_in_order() {
    let lines = split_lines("grass is green\n\nthe sky is blue\n");
    assert_eq!(lines, strings(&["grass is green", "", "the sky is blue"]));
}

#[test]
fn split_counts_one_line_per_line_feed() {
    assert_eq!(split_lines("a\nb\nc").len(), 3);
    assert_eq!(split_lines("a\nb\nc\n").len(), 3);
    assert_eq!(split_lines("\n\n").len(), 2);
    assert_eq!(split_lines("").len(), 0);
}

#[test]
fn split_is_repeatable() {
    let text = "one\r\ntwo\n\nthree";
    assert_eq!(split_lines(text), split_lines(text));
}

#[test]
fn split_strips_crlf_only_before_line_feed() {
    assert_eq!(split_lines("a\r\nb\r"), strings(&["a", "b\r"]));
    assert_eq!(split_lines("\r\n"), strings(&[""]));
}

#[test]
fn split_handles_non_ascii() {
    assert_eq!(split_lines("héllo\nwörld"), strings(&["héllo", "wörld"]));
}

#[test]
fn payload_carries_document_text() {
    assert_eq!(document_payload("grass is green"), "{\"document\":\"grass is green\"}");
}

#[test]
fn payload_escapes_quotes() {
    assert_eq!(document_payload("say \"hi\"\n"), "{\"document\":\"say \\\"hi\\\"\\n\"}");
}

#[test]
fn points_skip_empty_documents_and_keep_positions() {
    let docs = strings(&["grass is green", "", "the sky is blue"]);
    let points = plan_points(&docs);
    let ids: Vec<u64> = points.iter().map(|p| p.id).collect();
    assert_eq!(ids, vec![0, 2]);
    assert_eq!(points[1].payload, "{\"document\":\"the sky is blue\"}");
}

#[test]
fn points_count_is_documents_minus_empty() {
    let docs = strings(&["", "a", "", "b", "c", ""]);
    assert_eq!(plan_points(&docs).len(), 6 - 3);
    assert_eq!(plan_points(&strings(&["", ""])).len(), 0);
    assert_eq!(plan_points(&Vec::new()).len(), 0);
}

#[test]
fn end_to_end_scenario() {
    let docs = split_lines("grass is green\n\nthe sky is blue");
    assert_eq!(docs.len(), 3);
    let lengths = vec![384usize; docs.len()];
    assert_eq!(vector_dimension(&lengths), Some(384));
    let points = plan_points(&docs);
    let stored: Vec<u64> = points.iter().map(|p| p.id).collect();
    assert_eq!(stored, vec![0, 2]);
    let request = search_request("test", 3, true);
    assert_eq!(request.limit, 3);
    assert!(check_hits(&vec![2, 0], request.limit, &stored));
    assert!(!check_hits(&vec![1], request.limit, &stored));
}

fn perform(store: &mut HashMap<String, (u64, Metric)>, step: CollectionStep) -> usize {
    match step {
        CollectionStep::Create(c) => {
            store.insert(c.name, (c.dimension, c.metric));
            1
        }
        CollectionStep::AlreadyExists => 0,
    }
}

#[test]
fn ensure_collection_twice_creates_once() {
    let mut store: HashMap<String, (u64, Metric)> = HashMap::new();
    let first = ensure_collection(store.contains_key("test"), "test", 384, Metric::Cosine);
    let mut created = perform(&mut store, first);
    let second = ensure_collection(store.contains_key("test"), "test", 384, Metric::Cosine);
    assert!(matches!(second, CollectionStep::AlreadyExists));
    created += perform(&mut store, second);
    assert_eq!(created, 1);
    assert_eq!(store.get("test"), Some(&(384, Metric::Cosine)));
}

#[test]
fn ensure_existing_collection_is_left_alone() {
    assert!(matches!(
        ensure_collection(true, "test", 384, Metric::Cosine),
        CollectionStep::AlreadyExists
    ));
    match ensure_collection(false, "docs", 12, Metric::Dot) {
        CollectionStep::Create(c) => {
            assert_eq!(c.name, "docs");
            assert_eq!(c.dimension, 12);
            assert_eq!(c.metric, Metric::Dot);
        }
        CollectionStep::AlreadyExists => panic!("a missing collection must be created"),
    }
}

#[test]
fn dimension_needs_uniform_non_empty_batch() {
    assert_eq!(vector_dimension(&vec![384, 384, 384]), Some(384));
    assert_eq!(vector_dimension(&vec![]), None);
    assert_eq!(vector_dimension(&vec![384, 383]), None);
}

fn four_with_one_failure() -> Vec<Result<Vec<f32>, String>> {
    vec![
        Ok(vec![0.5, 0.25]),
        Ok(vec![1.0, 0.0]),
        Err("model failed".to_string()),
        Ok(vec![0.0, 1.0]),
    ]
}

#[test]
fn fan_out_propagates_first_failure() {
    match gather(four_with_one_failure(), FanOutPolicy::Propagate) {
        Err((i, e)) => {
            assert_eq!(i, 2);
            assert_eq!(e, "model failed");
        }
        Ok(_) => panic!("the failure must reach the caller"),
    }
}

#[test]
fn fan_out_drops_and_reports_failure() {
    match gather(four_with_one_failure(), FanOutPolicy::DropAndReport) {
        Ok(g) => {
            assert_eq!(g.values.len(), 3);
            assert_eq!(g.values[2], vec![0.0, 1.0]);
            assert_eq!(g.dropped, vec![2]);
        }
        Err(_) => panic!("dropping never fails"),
    }
}

#[test]
fn fan_out_without_failures_keeps_all() {
    let all: Vec<Result<u32, String>> = vec![Ok(1), Ok(2)];
    let g = gather(all, FanOutPolicy::Propagate).ok().unwrap();
    assert_eq!(g.values, vec![1, 2]);
    assert!(g.dropped.is_empty());
}

#[test]
fn hits_limited_to_top_k() {
    let stored = vec![0u64, 2, 5, 7];
    assert!(check_hits(&vec![5, 0, 2], 3, &stored));
    assert!(!check_hits(&vec![5, 0, 2, 7], 3, &stored));
    assert!(check_hits(&vec![], 0, &stored));
}

#[test]
fn search_request_asks_for_payload() {
    let r = search_request("test", 3, true);
    assert_eq!(r.collection, "test");
    assert!(r.with_payload);
    assert!(r.exact);
}

#[test]
fn stages_follow_mode() {
    let mut stage = Stage::Load;
    let mut seen = vec![stage];
    while stage != Stage::Done {
        stage = next_stage(PipelineMode::EmbedStoreAndQuery, stage);
        seen.push(stage);
    }
    assert_eq!(
        seen,
        vec![Stage::Load, Stage::Embed, Stage::EnsureCollection, Stage::Upsert, Stage::Query, Stage::Done]
    );
    assert_eq!(next_stage(PipelineMode::EmbedOnly, Stage::Embed), Stage::Done);
    assert_eq!(next_stage(PipelineMode::EmbedAndStore, Stage::Upsert), Stage::Done);
    assert_eq!(next_stage(PipelineMode::EmbedAndStore, Stage::Query), Stage::Done);
}
