use safai::model::{Category, CategoryGroup, CleanupItem, SafetyTier, ScanReport};
use safai::schedule::config::ScheduleConfig;
use safai::schedule::policy::{is_auto_eligible, select_auto_clean};

fn item(
    id: &str,
    rule_id: &str,
    category: Category,
    tier: SafetyTier,
    size_bytes: u64,
    regenerates: bool,
) -> CleanupItem {
    CleanupItem {
        id: id.to_string(),
        rule_id: rule_id.to_string(),
        label: id.to_string(),
        category,
        tier,
        path: format!("C:/test/{id}"),
        size_bytes,
        regenerates,
        last_modified_secs: None,
        note: String::new(),
        selected_by_default: tier == SafetyTier::Safe,
    }
}

fn report(items: Vec<CleanupItem>) -> ScanReport {
    ScanReport {
        total_reclaimable_bytes: items.iter().map(|i| i.size_bytes).sum(),
        groups: vec![CategoryGroup {
            category: Category::PackageCache,
            label: "Package caches".to_string(),
            total_bytes: items.iter().map(|i| i.size_bytes).sum(),
            items,
        }],
        scanned_roots: Vec::new(),
        warnings: Vec::new(),
    }
}

#[test]
fn default_policy_takes_safe_regenerating_package_caches() {
    let cfg = ScheduleConfig::default();
    let plan = select_auto_clean(
        &report(vec![item("a", "npm-cache", Category::PackageCache, SafetyTier::Safe, 1000, true)]),
        &cfg,
    );
    assert_eq!(plan.items.len(), 1);
    assert_eq!(plan.total_bytes, 1000);
}

#[test]
fn caution_tier_is_never_eligible_even_if_config_allows_it() {
    let cfg = ScheduleConfig {
        auto_clean_tiers: vec![SafetyTier::Safe, SafetyTier::Caution],
        auto_clean_categories: vec![Category::Model, Category::PackageCache],
        ..Default::default()
    };

    let plan = select_auto_clean(
        &report(vec![item(
            "models",
            "lmstudio-models",
            Category::Model,
            SafetyTier::Caution,
            9_000_000,
            false,
        )]),
        &cfg,
    );
    assert!(plan.is_empty());
    assert_eq!(plan.excluded_by_policy, 1);
}

#[test]
fn non_regenerating_items_are_excluded() {
    let cfg = ScheduleConfig {
        auto_clean_categories: vec![Category::PackageCache],
        ..Default::default()
    };
    let plan = select_auto_clean(
        &report(vec![item("a", "npm-cache", Category::PackageCache, SafetyTier::Safe, 10, false)]),
        &cfg,
    );
    assert!(plan.is_empty());
}

#[test]
fn generic_discovery_hits_are_excluded() {
    let cfg = ScheduleConfig {
        auto_clean_categories: vec![Category::PackageCache],
        ..Default::default()
    };
    let plan = select_auto_clean(
        &report(vec![item("big", "large-folder", Category::PackageCache, SafetyTier::Safe, 10, true)]),
        &cfg,
    );
    assert!(plan.is_empty());
}

#[test]
fn categories_outside_the_whitelist_are_excluded() {
    let cfg = ScheduleConfig::default();
    let plan = select_auto_clean(
        &report(vec![item("nm", "node-modules", Category::BuildArtifact, SafetyTier::Safe, 500, true)]),
        &cfg,
    );
    assert!(plan.is_empty());
}

#[test]
fn rule_id_narrowing_is_respected() {
    let cfg = ScheduleConfig {
        auto_clean_rule_ids: vec!["npm-cache".to_string()],
        ..Default::default()
    };
    let plan = select_auto_clean(
        &report(vec![
            item("a", "npm-cache", Category::PackageCache, SafetyTier::Safe, 10, true),
            item("b", "pip-cache", Category::PackageCache, SafetyTier::Safe, 20, true),
        ]),
        &cfg,
    );
    assert_eq!(plan.items.len(), 1);
    assert_eq!(plan.items[0].rule_id, "npm-cache");
}

#[test]
fn byte_cap_keeps_the_biggest_items_that_fit() {
    let cfg = ScheduleConfig {
        max_auto_clean_bytes: 1024 * 1024,
        ..Default::default()
    };
    let plan = select_auto_clean(
        &report(vec![
            item("big", "npm-cache", Category::PackageCache, SafetyTier::Safe, 900_000, true),
            item("huge", "pip-cache", Category::PackageCache, SafetyTier::Safe, 5_000_000, true),
            item("small", "uv-cache", Category::PackageCache, SafetyTier::Safe, 100_000, true),
        ]),
        &cfg,
    );
    assert_eq!(plan.items.len(), 2);
    assert_eq!(plan.excluded_by_cap, 1);
    assert!(plan.total_bytes <= cfg.max_auto_clean_bytes);
    assert_eq!(plan.items[0].id, "big", "largest that fits comes first");
}

#[test]
fn plan_is_sorted_largest_first_and_keeps_equal_sizes_in_report_order() {
    let cfg = ScheduleConfig::default();
    let plan = select_auto_clean(
        &report(vec![
            item("a", "npm-cache", Category::PackageCache, SafetyTier::Safe, 10, true),
            item("b", "pip-cache", Category::PackageCache, SafetyTier::Safe, 30, true),
            item("c", "uv-cache", Category::PackageCache, SafetyTier::Safe, 10, true),
            item("d", "bun-cache", Category::PackageCache, SafetyTier::Safe, 20, true),
        ]),
        &cfg,
    );
    let ids: Vec<&str> = plan.items.iter().map(|i| i.id.as_str()).collect();
    assert_eq!(ids, vec!["b", "d", "a", "c"]);
    assert_eq!(plan.total_bytes, 70);
    assert_eq!(plan.excluded_by_policy, 0);
    assert_eq!(plan.excluded_by_cap, 0);
}

#[test]
fn eligibility_follows_every_rule_of_the_whitelist() {
    let cfg = ScheduleConfig::default();
    assert!(is_auto_eligible(
        &item("a", "npm-cache", Category::PackageCache, SafetyTier::Safe, 1, true),
        &cfg
    ));
    assert!(!is_auto_eligible(
        &item("a", "npm-cache", Category::PackageCache, SafetyTier::Review, 1, true),
        &cfg
    ));
    assert!(!is_auto_eligible(
        &item("a", "npm-cache", Category::Model, SafetyTier::Safe, 1, true),
        &cfg
    ));
}
