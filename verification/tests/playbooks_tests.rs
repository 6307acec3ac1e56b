use theta_vault_rust::playbooks::{
    build_calendar_spread_desc, build_call_zebra_desc, build_cash_secured_put_desc, build_covered_call_desc,
    build_iron_condor_desc, build_iron_fly_desc, build_long_call_vertical_desc, build_long_diagonal_desc,
    build_long_put_vertical_desc, build_pmcc_desc, build_put_bwb_thesis, build_put_zebra_desc,
    build_ratio_spread_thesis, build_short_call_vertical_desc, build_short_diagonal_desc,
    build_short_put_vertical_desc, build_short_strangle_desc, bwb_needs_spread_type, default_playbook_seeds,
    needs_bullet_upgrade, put_bwb_seed, ratio_spread_seed, seeds_to_insert, zebra_update, zebra_update_for,
    RATIO_SPREAD_THESIS,
};

#[test]
fn thesis_texts() {
    let t = build_ratio_spread_thesis();
    assert_eq!(t, RATIO_SPREAD_THESIS);
    assert!(t.starts_with("Overview:\n• Omnidirectional"));
    assert!(t.contains("\n• "));
    assert!(build_put_bwb_thesis().contains("\n• "));
}

#[test]
fn description_texts_present() {
    let all = [
        build_short_put_vertical_desc(),
        build_cash_secured_put_desc(),
        build_covered_call_desc(),
        build_iron_condor_desc(),
        build_short_call_vertical_desc(),
        build_calendar_spread_desc(),
        build_short_strangle_desc(),
        build_iron_fly_desc(),
        build_short_diagonal_desc(),
        build_put_zebra_desc(),
        build_call_zebra_desc(),
        build_pmcc_desc(),
        build_long_diagonal_desc(),
        build_long_put_vertical_desc(),
        build_long_call_vertical_desc(),
    ];
    for d in all {
        assert!(d.len() > 100);
    }
}

#[test]
fn default_catalogue() {
    let seeds = default_playbook_seeds();
    assert_eq!(seeds.len(), 15);
    assert_eq!(seeds[0].name, "Short Put Vertical");
    assert_eq!(seeds[0].spread_type, "short_put_vertical");
    assert_eq!(seeds[0].description, build_short_put_vertical_desc());
    assert_eq!(seeds[6].spread_type, "strangle");
    assert_eq!(seeds[9].name, "Put ZEBRA");
    assert_eq!(seeds[9].spread_type, "pzbr");
    assert_eq!(seeds[14].name, "Long Call Vertical Spread");
    let names: std::collections::HashSet<&str> = seeds.iter().map(|s| s.name).collect();
    assert_eq!(names.len(), 15);
}

#[test]
fn standalone_seeds() {
    let r = ratio_spread_seed();
    assert_eq!((r.name, r.spread_type), ("Ratio Spread", "custom"));
    assert_eq!(r.description, build_ratio_spread_thesis());
    let b = put_bwb_seed();
    assert_eq!((b.name, b.spread_type), ("Put Broken Wing Butterfly", "put_broken_wing_butterfly"));
}

#[test]
fn seeding_skips_existing_names() {
    let seeds = default_playbook_seeds();
    let existing = vec!["Iron Condor".to_string(), "Short Put Vertical".to_string(), "Other".to_string()];
    let todo = seeds_to_insert(&seeds, &existing);
    assert_eq!(todo.len(), 13);
    assert_eq!(todo[0], 1);
    assert!(!todo.contains(&0));
    assert!(!todo.contains(&3));
    assert_eq!(seeds_to_insert(&seeds, &[]), (0..15).collect::<Vec<usize>>());
}

#[test]
fn bullet_upgrade_decision() {
    assert!(needs_bullet_upgrade(Some("Plain prose thesis.")));
    assert!(!needs_bullet_upgrade(Some("Overview:\n• point")));
    assert!(!needs_bullet_upgrade(None));
}

#[test]
fn bwb_spread_type_decision() {
    assert!(bwb_needs_spread_type(None));
    assert!(bwb_needs_spread_type(Some("custom")));
    assert!(!bwb_needs_spread_type(Some("put_broken_wing_butterfly")));
}

#[test]
fn zebra_migration_targets() {
    assert_eq!(zebra_update("Put ZEBRA", None), Some("pzbr".to_string()));
    assert_eq!(zebra_update("Call Zebra", Some("zebra")), Some("czbr".to_string()));
    assert_eq!(zebra_update("My Call_Zebra", Some("czbr")), None);
    assert_eq!(zebra_update("Anything", Some("call_zebra")), Some("czbr".to_string()));
    assert_eq!(zebra_update("Anything", Some("pzbr")), None);
    assert_eq!(zebra_update("Iron Condor", Some("iron_condor")), None);
    assert_eq!(zebra_update_for("zebra one", "zebra"), Some("pzbr".to_string()));
    assert_eq!(zebra_update_for("ZEBRA", ""), None);
}

#[test]
fn seeding_twice_adds_nothing() {
    let seeds = default_playbook_seeds();
    let mut existing = vec!["Iron Condor".to_string(), "Other".to_string()];
    let first = seeds_to_insert(&seeds, &existing);
    assert_eq!(first.len(), 14);
    for i in first {
        existing.push(seeds[i].name.to_string());
    }
    assert!(seeds_to_insert(&seeds, &existing).is_empty());
    assert_eq!(existing.len(), 16);
}
