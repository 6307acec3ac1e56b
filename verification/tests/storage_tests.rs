use theta_vault_rust::storage::{csv_field, join_tags, missing_columns, parse_tags, RollWalk, MAX_ROLL_DEPTH};

#[test]
fn tags_column_read() {
    assert_eq!(parse_tags(Some("a,,b,")), vec!["a".to_string(), "b".to_string()]);
    assert!(parse_tags(Some("")).is_empty());
    assert!(parse_tags(None).is_empty());
}

#[test]
fn tags_column_written() {
    let tags = vec!["earnings".to_string(), "hedge".to_string()];
    assert_eq!(join_tags(&tags), "earnings,hedge");
    assert_eq!(join_tags(&[]), "");
}

#[test]
fn tags_round_trip_example() {
    let tags = vec!["x".to_string(), "long term".to_string(), "0dte".to_string()];
    assert_eq!(parse_tags(Some(&join_tags(&tags))), tags);
}

#[test]
fn csv_fields_quoted_when_needed() {
    assert_eq!(csv_field("plain"), "plain");
    assert_eq!(csv_field(""), "");
    assert_eq!(csv_field("a,b"), "\"a,b\"");
    assert_eq!(csv_field("say \"hi\""), "\"say \"\"hi\"\"\"");
    assert_eq!(csv_field("two\nlines"), "\"two\nlines\"");
}

#[test]
fn csv_field_reads_back() {
    let text = "he said \"x, y\"";
    let f = csv_field(text);
    assert!(f.starts_with('"') && f.ends_with('"'));
    let inner = &f[1..f.len() - 1];
    assert_eq!(inner.replace("\"\"", "\""), text);
}

#[test]
fn roll_walk_follows_parents() {
    // trade 7 was rolled from 5, which was rolled from 2 (the first of the chain).
    let mut w = RollWalk::new(7);
    assert_eq!(w.pending(), Some(7));
    w.record(7, Some(5));
    assert_eq!(w.pending(), Some(5));
    w.record(5, Some(2));
    w.record(2, None);
    assert_eq!(w.pending(), None);
    assert_eq!(w.visited(), vec![7, 5, 2]);
    assert_eq!(w.oldest_first(), vec![2, 1, 0]);
}

#[test]
fn roll_walk_stops_on_missing_trade() {
    let mut w = RollWalk::new(9);
    w.record(9, Some(8));
    w.stop();
    assert_eq!(w.pending(), None);
    assert_eq!(w.visited(), vec![9]);
}

#[test]
fn roll_walk_depth_limited() {
    let mut w = RollWalk::new(0);
    let mut steps = 0;
    while let Some(id) = w.pending() {
        w.record(id, Some(id + 1)); // an endless chain
        steps += 1;
    }
    assert_eq!(steps, MAX_ROLL_DEPTH);
    assert_eq!(w.visited().len(), 50);
}

#[test]
fn missing_columns_in_order() {
    let existing = vec!["id".to_string(), "sector".to_string(), "pnl".to_string()];
    let wanted = ["sector", "closed_at_target", "pnl", "iv_percentile"];
    assert_eq!(missing_columns(&wanted, &existing), vec![1, 3]);
    assert!(missing_columns(&wanted[..1], &existing).is_empty());
    assert_eq!(missing_columns(&wanted, &[]), vec![0, 1, 2, 3]);
}
