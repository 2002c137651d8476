use flashback::context::{
    assemble, documents_search, memories_search, render_documents, render_procedural,
    render_project_context, render_recent_conversation, render_top_memories,
    truncate_protecting_floor, truncate_to_budget, AssembleRequest, DocumentChunk, Layers,
    ScoredMemory,
};
use flashback::memory::Mode;

fn chars(s: &str) -> usize {
    s.chars().count()
}

fn v(items: &[&str]) -> Vec<String> {
    items.iter().map(|s| s.to_string()).collect()
}

#[test]
fn blocks_are_dropped_from_the_end() {
    let s = "aaaa\n\nbbbb\n\ncccc".to_string();
    assert_eq!(truncate_to_budget(s.clone(), 16, &chars), s);
    assert_eq!(truncate_to_budget(s.clone(), 15, &chars), "aaaa\n\nbbbb");
    assert_eq!(truncate_to_budget(s.clone(), 9, &chars), "aaaa");
    assert_eq!(truncate_to_budget(s, 3, &chars), "");
}

#[test]
fn the_last_turns_always_stay() {
    let s = "aaaa\n\nbbbb\n\ncccc".to_string();
    assert_eq!(truncate_protecting_floor(s.clone(), 16, 1, &chars), s);
    assert_eq!(truncate_protecting_floor(s.clone(), 2, 1, &chars), "cccc");
    assert_eq!(
        truncate_protecting_floor(s.clone(), 10, 1, &chars),
        "bbbb\n\ncccc"
    );
    assert_eq!(
        truncate_protecting_floor(s.clone(), 1, 2, &chars),
        "bbbb\n\ncccc"
    );
    assert_eq!(truncate_protecting_floor(s.clone(), 1, 9, &chars), s);
    assert_eq!(truncate_protecting_floor(s, 6, 0, &chars), "cccc\n\n");
}

#[test]
fn layers_are_rendered() {
    assert_eq!(render_procedural(&v(&[])), "");
    assert_eq!(
        render_procedural(&v(&["a", "b"])),
        "# Procedural patterns\n- a\n- b\n"
    );
    assert_eq!(
        render_project_context(&v(&["c"]), &v(&["s"]), &v(&["f"])),
        "# Core memory\n- c\n\n# Active state\ns\n\n\n# Project facts\n- f"
    );
    assert_eq!(
        render_project_context(&v(&[]), &v(&["s"]), &v(&[])),
        "# Active state\ns"
    );
    assert_eq!(
        render_top_memories(&vec![ScoredMemory {
            score: "0.50".to_string(),
            content: "m".to_string()
        }]),
        "# Retrieved memories\n- (0.50) m\n"
    );
    assert_eq!(
        render_documents(&vec![
            DocumentChunk {
                source_path: Some("p".to_string()),
                content: "x".to_string()
            },
            DocumentChunk {
                source_path: None,
                content: "y".to_string()
            }
        ]),
        "# Document chunks\n## p\nx\n\n## doc\ny"
    );
    assert_eq!(
        render_recent_conversation(&v(&["new", "old"])),
        "# Recent conversation\nold\n\nnew"
    );
    assert_eq!(render_recent_conversation(&v(&[])), "");
}

#[test]
fn the_answer_counts_its_layers() {
    let req = AssembleRequest {
        project_id: None,
        session_id: None,
        query: Some("q".to_string()),
        token_budget: None,
        recent_turns_floor: None,
    };
    let layers = Layers {
        procedural: "a".repeat(301),
        project_context: "b".to_string(),
        memories: "cc".to_string(),
        document_chunks: String::new(),
        recent_conversation: "ddd".to_string(),
    };
    let r = assemble(&req, layers, &chars);
    assert_eq!(r.layers.procedural, "");
    assert_eq!(r.token_counts.memories, 2);
    assert_eq!(r.total_tokens, 6);
    assert_eq!(r.mode, "answer");
}

#[test]
fn layers_search_for_their_own_types() {
    let mut req = AssembleRequest {
        project_id: None,
        session_id: Some("s".to_string()),
        query: None,
        token_budget: None,
        recent_turns_floor: None,
    };
    let m = memories_search(&req);
    assert_eq!(m.memory_types, v(&["episodic", "semantic", "working"]));
    assert_eq!((m.session_id.as_deref(), m.top_k), (Some("s"), 10));
    assert!(m.mode == Mode::Manager && m.by_entities);
    req.query = Some("q".to_string());
    assert!(memories_search(&req).mode == Mode::Answer);
    let d = documents_search();
    assert_eq!(d.memory_types, v(&["document"]));
    assert!(d.session_id.is_none() && d.top_k == 6 && d.mode == Mode::Answer && !d.by_entities);
}
