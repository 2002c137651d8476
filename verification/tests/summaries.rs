use flashback::bits::{clamp_unit, max_bits};
use flashback::summaries::{
    build_summaries, build_summaries_with, extractive_summary, step_summaries, summarize_cluster,
    summary_importance, together, tree_users, truncate_on_boundary, LevelNode, SummaryAction,
    SummaryConfig, SummaryEvent, SummaryStats, EXTRACTIVE_BUDGET,
};

fn node(content: &str, importance: Option<f32>) -> LevelNode {
    LevelNode {
        id: 1,
        content: content.to_string(),
        importance: importance.map(f32::to_bits),
        entities: content.split_whitespace().map(str::to_string).collect(),
    }
}

#[test]
fn extractive_orders_by_importance_and_joins() {
    let a = node("low priority detail", Some(0.1));
    let b = node("high priority headline", Some(0.9));
    let refs = vec![a, b];
    let out = extractive_summary(&refs);
    // Highest-importance child leads.
    assert!(out.starts_with("high priority headline"));
    assert!(out.contains("low priority detail"));
}

#[test]
fn extractive_truncates_on_char_boundary() {
    let long = "x".repeat(5000);
    let a = node(&long, Some(0.5));
    let refs = vec![a];
    let out = extractive_summary(&refs);
    assert!(out.len() <= EXTRACTIVE_BUDGET + 4); // budget + ellipsis bytes
    assert!(out.ends_with('…'));
}

#[test]
fn truncate_respects_multibyte() {
    // A string of multibyte chars; truncation must not panic or split.
    let s = "日本語".repeat(500);
    let out = truncate_on_boundary(&s, 100);
    assert!(out.len() <= 100 + 4);
    // Round-trips as valid UTF-8 (String guarantees it; assert non-empty).
    assert!(!out.is_empty());
}

#[test]
fn truncation_is_exact() {
    assert_eq!(truncate_on_boundary("日本語", 9), "日本語");
    assert_eq!(truncate_on_boundary("日本語", 8), "日本…");
    assert_eq!(truncate_on_boundary("ab  cd", 4), "ab…");
    assert_eq!(truncate_on_boundary("é𝄞x", 6), "é𝄞…");
    assert_eq!(truncate_on_boundary("日", 2), "…");
}

#[test]
fn ranking_is_stable_and_skips_the_silent() {
    let v = vec![
        node(" a ", Some(0.5)),
        node("b", None),
        node("  ", Some(1.0)),
        node("c", Some(-0.5)),
        node("d", Some(0.5)),
        node("e", Some(0.0)),
    ];
    assert_eq!(extractive_summary(&v), "a | d | b | e | c");
    assert_eq!(summary_importance(&v), Some(1.0_f32.to_bits()));
    assert_eq!(summary_importance(&vec![node("x", None)]), None);
}

#[test]
fn clusters_prefer_what_was_distilled() {
    let v = vec![node("own words", None)];
    assert_eq!(summarize_cluster(&None, &v), "own words");
    assert_eq!(
        summarize_cluster(&Some(vec![" ".to_string(), " fact ".to_string()]), &v),
        " fact "
    );
    assert_eq!(
        summarize_cluster(&Some(vec!["".to_string()]), &v),
        "own words"
    );
}

#[test]
fn levels_are_built_until_nothing_joins() {
    let (b, a) = build_summaries();
    assert!(matches!(a, SummaryAction::Load(0)));
    let (b, a) = step_summaries(b, SummaryEvent::Loaded(6));
    assert!(matches!(a, SummaryAction::Cluster));
    let (b, a) = step_summaries(
        b,
        SummaryEvent::Clustered(vec![vec![0], vec![1, 2], vec![3, 4, 5]]),
    );
    match a {
        SummaryAction::Build { level, clusters } => {
            assert_eq!(level, 1);
            assert_eq!(clusters, vec![vec![1, 2], vec![3, 4, 5]]);
        }
        _ => panic!("clusters of two are built"),
    }
    let (b, a) = step_summaries(b, SummaryEvent::Built(2));
    assert!(matches!(a, SummaryAction::Load(1)));
    let (_, a) = step_summaries(b, SummaryEvent::Clustered(vec![vec![0], vec![1]]));
    assert!(matches!(a, SummaryAction::Stop(s) if s.summaries == 2 && s.max_level == 1));
    let (_, a) = step_summaries(b, SummaryEvent::Loaded(5));
    assert!(matches!(a, SummaryAction::Stop(s) if s.summaries == 2));
    let cfg = SummaryConfig {
        max_levels: 0,
        ..SummaryConfig::default()
    };
    assert!(matches!(
        build_summaries_with(cfg).1,
        SummaryAction::Stop(s) if s.summaries == 0 && s.max_level == 0
    ));
}

#[test]
fn bits_agree_with_numbers() {
    for v in [
        -1.0_f32,
        -0.0,
        0.0,
        0.3,
        1.0,
        1.5,
        f32::INFINITY,
        f32::NEG_INFINITY,
    ] {
        assert_eq!(clamp_unit(v.to_bits()), v.clamp(0.0, 1.0).to_bits(), "{v}");
        for w in [-2.0_f32, 0.5, 7.0] {
            assert_eq!(max_bits(v.to_bits(), w.to_bits()), v.max(w).to_bits());
        }
    }
    assert_eq!(clamp_unit(f32::NAN.to_bits()), f32::NAN.to_bits());
    assert_eq!(
        max_bits(f32::NAN.to_bits(), 1.0_f32.to_bits()),
        1.0_f32.to_bits()
    );
}

#[test]
fn what_is_not_a_number_keeps_its_place() {
    let a = node("a", Some(0.9));
    let b = node("b", Some(f32::NAN));
    assert_eq!(extractive_summary(&vec![a, b]), "a | b");
    let v = vec![
        node("x", Some(f32::NAN)),
        node("y", Some(0.1)),
        node("z", Some(0.2)),
        node("w", None),
    ];
    assert_eq!(extractive_summary(&v), "x | z | y | w");
}

#[test]
fn each_user_has_a_tree() {
    let known = vec!["a".to_string(), "b".to_string()];
    assert_eq!(tree_users("*", "*", known.clone()), known);
    assert_eq!(tree_users("c", "*", known), vec!["c".to_string()]);
    let s = |summaries: i64, max_level: i32| SummaryStats {
        summaries,
        max_level,
    };
    assert!(together(s(2, 1), s(3, 4)) == s(5, 4));
    assert!(together(s(2, 4), s(3, 1)) == s(5, 4));
    assert!(together(s(i64::MAX, 0), s(1, 0)) == s(i64::MAX, 0));
}
