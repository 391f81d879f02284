use project_e::analysis::{
    document_frequencies,
    analyze_reports, classification_counts, filter_by_confidence, tokenize_module, tokenize_text,
    GapReport,
};
use project_e::registry::ModuleMetadata;
use project_e::types::{
    CynefinDomain, GapClassification, LifecycleAction, ModuleState, Priority, WardleyStage,
};

fn report(class: GapClassification, stage: WardleyStage) -> GapReport {
    GapReport::new(
        1,
        class,
        900,
        CynefinDomain::Simple,
        stage,
        Priority::Medium,
        LifecycleAction::Create,
        "test".to_string(),
    )
}

#[test]
fn requires_web_access_detection() {
    let mut report = report(GapClassification::Gap, WardleyStage::Product);
    assert!(!report.requires_web_access());
    report.evidence.push("https://example.com/data".to_string());
    assert!(report.requires_web_access());
}

#[test]
fn web_access_needs_a_url_prefix() {
    let mut report = report(GapClassification::Gap, WardleyStage::Product);
    report.evidence.push("see http://example.com".to_string());
    report.evidence.push("ftp://example.com".to_string());
    assert!(!report.requires_web_access());
    report.evidence.push("http://example.com".to_string());
    assert!(report.requires_web_access());
}

#[test]
fn gap_report_fields() {
    let r = GapReport::new(
        3,
        GapClassification::Gap,
        850,
        CynefinDomain::Complicated,
        WardleyStage::Custom,
        Priority::High,
        LifecycleAction::Create,
        "Missing tariff change detection module".to_string(),
    );
    assert_eq!(r.cynefin_domain, CynefinDomain::Complicated);
    assert_eq!(r.wardley_stage, WardleyStage::Custom);
    assert_eq!(r.max_retries(), 4);
    assert_eq!(r.cycle_id, 3);
    assert!(r.affected_modules.is_empty() && r.evidence.is_empty());
}

#[test]
fn classification_counts_partition() {
    let reports = vec![
        report(GapClassification::Gap, WardleyStage::Custom),
        report(GapClassification::Conflict, WardleyStage::Custom),
        report(GapClassification::Gap, WardleyStage::Custom),
        report(GapClassification::Confirmation, WardleyStage::Custom),
    ];
    assert_eq!(classification_counts(&reports), (2, 1, 1));
}

#[test]
fn tokenizer_splits_and_lowercases() {
    assert_eq!(
        tokenize_text("Energy-Tariff_tracker v2.0 a"),
        vec!["energy", "tariff", "tracker", "v2"]
    );
    assert!(tokenize_text("  - _ . ").is_empty());
}

#[test]
fn module_tokens_cover_all_metadata() {
    let m = ModuleMetadata {
        id: 1,
        name: "energy-tariff".to_string(),
        version: "0.1.0".to_string(),
        description: "Monitors energy tariff changes".to_string(),
        category: "market".to_string(),
        tags: vec!["energy".to_string(), "OMIE".to_string()],
        state: ModuleState::Active,
        subscriptions: vec![],
        created_at_ms: 0,
        updated_at_ms: 0,
    };
    assert_eq!(
        tokenize_module(&m),
        vec!["energy", "tariff", "monitors", "energy", "tariff", "changes", "market", "energy", "omie"]
    );
}

#[test]
fn report_ids_are_random_uuids() {
    let a = report(GapClassification::Gap, WardleyStage::Custom);
    let b = report(GapClassification::Gap, WardleyStage::Custom);
    assert_ne!(a.id, b.id);
    // Version 4, RFC 4122 variant.
    assert_eq!((a.id >> 76) & 0xf, 4);
    assert_eq!((a.id >> 62) & 0x3, 2);
    assert!(a.created_at_ms > 0);
}

#[test]
fn analysis_filters_by_confidence() {
    let reports = vec![
        GapReport::new(
            4,
            GapClassification::Gap,
            900,
            CynefinDomain::Simple,
            WardleyStage::Product,
            Priority::High,
            LifecycleAction::Create,
            "High confidence gap".to_string(),
        ),
        GapReport::new(
            4,
            GapClassification::Gap,
            300,
            CynefinDomain::Chaotic,
            WardleyStage::Genesis,
            Priority::Low,
            LifecycleAction::Create,
            "Low confidence gap".to_string(),
        ),
    ];
    let outcome = analyze_reports(reports, 700, 10);
    assert_eq!(outcome.reports.len(), 1);
    assert!(outcome.reports[0].confidence_thousandths >= 700);
    assert_eq!((outcome.gap_count, outcome.conflict_count, outcome.confirmation_count), (1, 0, 0));
}

#[test]
fn confidence_filter_keeps_order_and_limit() {
    let mk = |c: u32, class| {
        GapReport::new(1, class, c, CynefinDomain::Simple, WardleyStage::Custom, Priority::Low, LifecycleAction::Create, format!("{c}"))
    };
    let reports = vec![
        mk(700, GapClassification::Gap),
        mk(699, GapClassification::Gap),
        mk(1000, GapClassification::Conflict),
        mk(800, GapClassification::Confirmation),
    ];
    let kept = filter_by_confidence(reports, 700, 2);
    let texts: Vec<&str> = kept.iter().map(|r| r.justification.as_str()).collect();
    assert_eq!(texts, vec!["700", "1000"]);
    assert!(filter_by_confidence(vec![mk(900, GapClassification::Gap)], 700, 0).is_empty());
}

#[test]
fn document_frequencies_count_each_document_once() {
    let doc = |words: &[&str]| words.iter().map(|w| w.to_string()).collect::<Vec<String>>();
    let docs = vec![
        doc(&["energy", "tariff", "energy"]),
        doc(&["weather", "forecast"]),
        doc(&["energy", "market"]),
    ];
    let df = document_frequencies(&docs);
    let get = |t: &str| df.iter().find(|(term, _)| term == t).map(|(_, n)| *n);
    assert_eq!(df.len(), 5);
    assert_eq!(get("energy"), Some(2));
    assert_eq!(get("tariff"), Some(1));
    assert_eq!(get("market"), Some(1));
    assert_eq!(get("solar"), None);
    assert!(document_frequencies(&Vec::new()).is_empty());
}
