use project_e::skills::{determine_tier, ActivationTier, SkillCatalog, SkillDefinition, SkillTrust};

#[test]
fn pattern_match_activates_tier2() {
    let skill = SkillDefinition {
        name: "deploy".to_string(),
        patterns: vec!["deploy to production".to_string()],
        keywords: vec!["deploy".to_string()],
        ..SkillDefinition::default()
    };
    assert_eq!(determine_tier(&skill, "please deploy to production"), ActivationTier::Tier2);
}

#[test]
fn keyword_match_activates_tier2() {
    let skill = SkillDefinition {
        name: "energy".to_string(),
        keywords: vec!["energy".to_string(), "tariff".to_string()],
        ..SkillDefinition::default()
    };
    assert_eq!(determine_tier(&skill, "analyze energy tariff data"), ActivationTier::Tier2);
}

#[test]
fn no_match_stays_tier1() {
    let skill = SkillDefinition {
        name: "weather".to_string(),
        keywords: vec!["weather".to_string(), "forecast".to_string()],
        ..SkillDefinition::default()
    };
    assert_eq!(determine_tier(&skill, "analyze energy data"), ActivationTier::Tier1);
}

#[test]
fn activation_ignores_ascii_case_and_needs_two_keywords() {
    let skill = SkillDefinition {
        name: "energy".to_string(),
        keywords: vec!["Energy".to_string(), "TARIFF".to_string()],
        patterns: vec!["Grid Outage".to_string()],
        ..SkillDefinition::default()
    };
    assert_eq!(determine_tier(&skill, "ENERGY tariff"), ActivationTier::Tier2);
    assert_eq!(determine_tier(&skill, "energy only"), ActivationTier::Tier1);
    assert_eq!(determine_tier(&skill, "report a grid outage now"), ActivationTier::Tier2);
}

#[test]
fn default_skill_definition() {
    let d = SkillDefinition::default();
    assert_eq!(d.version, "0.1.0");
    assert_eq!(d.max_context_tokens, 2000);
    assert_eq!(d.trust, SkillTrust::Installed);
    assert!(d.name.is_empty() && d.keywords.is_empty());
}

#[test]
fn register_and_find() {
    let mut catalog = SkillCatalog::new();
    catalog.register(SkillDefinition {
        name: "rust-module-generation".to_string(),
        keywords: vec!["rust".to_string(), "module".to_string(), "generate".to_string()],
        tags: vec!["forge".to_string()],
        ..SkillDefinition::default()
    });

    assert!(catalog.get("rust-module-generation").is_some());
    assert!(catalog.get("nonexistent").is_none());
}

#[test]
fn register_replaces_same_name() {
    let mut catalog = SkillCatalog::new();
    catalog.register(SkillDefinition { name: "a".to_string(), ..SkillDefinition::default() });
    catalog.register(SkillDefinition { name: "b".to_string(), ..SkillDefinition::default() });
    catalog.register(SkillDefinition {
        name: "a".to_string(),
        version: "2.0.0".to_string(),
        ..SkillDefinition::default()
    });
    assert_eq!(catalog.list().len(), 2);
    assert_eq!(catalog.get("a").map(|s| s.version.as_str()), Some("2.0.0"));
    assert_eq!(catalog.get("b").map(|s| s.version.as_str()), Some("0.1.0"));
}

#[test]
fn search_by_keywords() {
    let mut catalog = SkillCatalog::new();
    catalog.register(SkillDefinition {
        name: "energy-tariff".to_string(),
        keywords: vec!["energy".to_string(), "tariff".to_string()],
        ..SkillDefinition::default()
    });
    catalog.register(SkillDefinition {
        name: "weather-data".to_string(),
        keywords: vec!["weather".to_string()],
        ..SkillDefinition::default()
    });

    let results = catalog.search("energy tariff analysis");
    assert!(!results.is_empty());
    assert_eq!(results[0].0.name, "energy-tariff");
}

#[test]
fn search_scores_and_order() {
    let mut catalog = SkillCatalog::new();
    catalog.register(SkillDefinition {
        name: "tagged".to_string(),
        tags: vec!["energy".to_string()],
        ..SkillDefinition::default()
    });
    catalog.register(SkillDefinition {
        name: "keyword".to_string(),
        keywords: vec!["energy".to_string()],
        ..SkillDefinition::default()
    });
    catalog.register(SkillDefinition {
        name: "keyword-too".to_string(),
        keywords: vec!["Energy".to_string()],
        ..SkillDefinition::default()
    });
    catalog.register(SkillDefinition {
        name: "unrelated".to_string(),
        keywords: vec!["weather".to_string()],
        ..SkillDefinition::default()
    });
    let results = catalog.search("Energy markets");
    let names: Vec<(&str, u128)> = results.iter().map(|(s, score)| (s.name.as_str(), *score)).collect();
    assert_eq!(names, vec![("keyword", 10), ("keyword-too", 10), ("tagged", 3)]);
}
