use nft_metadata::driver::{Action, Enumeration, Event};
use nft_metadata::export::{tabular_rows, HeaderSet, MetadataTable};
use nft_metadata::metadata::{
    normalize_metadata, normalize_value, Attribute, Metadata, RawAttribute, RawMetadata, RawValue,
};
use nft_metadata::uri::ResolveError;

fn attr(t: &str, v: RawValue) -> RawAttribute {
    RawAttribute { trait_type: t.to_string(), value: v, display_type: None }
}

fn raw(name: &str, attrs: Vec<RawAttribute>) -> RawMetadata {
    RawMetadata { name: name.to_string(), attributes: attrs }
}

fn meta(name: &str, attrs: &[(&str, &str)]) -> Metadata {
    Metadata {
        name: name.to_string(),
        attributes: attrs
            .iter()
            .map(|(t, v)| Attribute {
                trait_type: t.to_string(),
                value: v.to_string(),
                display_type: None,
            })
            .collect(),
    }
}

#[test]
fn numeric_value_becomes_text() {
    assert_eq!(normalize_value(&RawValue::Integer(42)), "42");
    assert_eq!(normalize_value(&RawValue::Integer(-3)), "-3");
    assert_eq!(normalize_value(&RawValue::Text("Blue".to_string())), "Blue");
    assert_eq!(normalize_value(&RawValue::Fraction("2.5".to_string())), "2.5");
}

#[test]
fn normalized_metadata_keeps_order_and_display_type() {
    let r = raw(
        "Ape",
        vec![
            RawAttribute {
                trait_type: "Level".to_string(),
                value: RawValue::Integer(7),
                display_type: Some("number".to_string()),
            },
            attr("Eyes", RawValue::Text("Blue".to_string())),
        ],
    );
    let m = normalize_metadata(&r);
    assert_eq!(m.name, "Ape");
    assert_eq!(m.attributes.len(), 2);
    assert_eq!(m.attributes[0].value, "7");
    assert_eq!(m.attributes[0].display_type, Some("number".to_string()));
    assert_eq!(m.attributes[1].trait_type, "Eyes");
    assert_eq!(m.attributes[1].value, "Blue");
}

#[test]
fn headers_start_fixed_and_stay_unique() {
    let mut h = HeaderSet::new();
    assert_eq!(h.names(), &vec!["tokenId".to_string(), "name".to_string()]);
    h.add(&"Eyes".to_string());
    h.add(&"Hat".to_string());
    h.add(&"Eyes".to_string());
    h.add(&"name".to_string());
    assert_eq!(h.len(), 4);
    assert_eq!(h.names()[2], "Eyes");
    assert_eq!(h.names()[3], "Hat");
    assert!(h.contains(&"Hat".to_string()));
    assert!(!h.contains(&"Fur".to_string()));
}

#[test]
fn headers_fold_traits_in_first_seen_order() {
    let mut h = HeaderSet::new();
    h.add_traits(&meta("a", &[("Hat", "x"), ("Eyes", "y"), ("Hat", "z")]).attributes);
    h.add_traits(&meta("b", &[("Fur", "x"), ("Eyes", "y")]).attributes);
    let names: Vec<&str> = h.names().iter().map(|s| s.as_str()).collect();
    assert_eq!(names, vec!["tokenId", "name", "Hat", "Eyes", "Fur"]);
}

#[test]
fn one_row_per_token_with_empty_cells() {
    let mut t = MetadataTable::new();
    t.insert(0, meta("Zero", &[("Hat", "cap")]));
    t.insert(5, meta("Five", &[("Eyes", "blue"), ("Eyes", "green")]));
    let mut h = HeaderSet::new();
    h.add(&"Hat".to_string());
    h.add(&"Eyes".to_string());
    let rows = tabular_rows(&t, &h);
    assert_eq!(rows.len(), 2);
    assert_eq!(rows[0], vec!["0", "Zero", "cap", ""]);
    assert_eq!(rows[1], vec!["5", "Five", "", "green"]);
    for r in rows.iter() {
        assert_eq!(r.len(), h.len());
    }
}

#[test]
fn table_insert_replaces_existing_key() {
    let mut t = MetadataTable::new();
    t.insert(3, meta("Old", &[]));
    t.insert(4, meta("Other", &[]));
    t.insert(3, meta("New", &[]));
    assert_eq!(t.len(), 2);
    assert_eq!(t.position(3), Some(0));
    assert_eq!(t.entry(0).metadata.name, "New");
    assert_eq!(t.position(9), None);
}

#[test]
fn scan_counts_failures_but_keeps_only_resolved() {
    let mut e = Enumeration::new(3);
    assert_eq!(e.next_action(), Action::QueryUri(0));
    e.record(Event::Resolved(raw("A", vec![attr("Hat", RawValue::Integer(1))])));
    assert_eq!(e.next_action(), Action::QueryUri(1));
    e.record(Event::Failed(ResolveError::Schema));
    assert_eq!(e.next_action(), Action::QueryUri(2));
    e.record(Event::Resolved(raw("C", vec![attr("Eyes", RawValue::Text("red".to_string()))])));
    assert_eq!(e.next_action(), Action::Finished);
    let (table, headers) = e.into_results();
    let rows = tabular_rows(&table, &headers);
    assert_eq!(rows.len(), 2);
    assert_eq!(rows[0], vec!["0", "A", "1", ""]);
    assert_eq!(rows[1], vec!["2", "C", "", "red"]);
}

#[test]
fn rejected_ids_do_not_consume_quota() {
    let mut e = Enumeration::new(2);
    assert_eq!(e.next_action(), Action::QueryUri(0));
    e.record(Event::UriRejected);
    assert_eq!(e.remaining_count(), 2);
    assert_eq!(e.next_action(), Action::QueryUri(1));
    e.record(Event::Resolved(raw("one", vec![])));
    assert_eq!(e.next_action(), Action::QueryUri(2));
    e.record(Event::Resolved(raw("two", vec![])));
    assert_eq!(e.next_action(), Action::Finished);
    let (table, _) = e.into_results();
    assert_eq!(table.len(), 2);
    assert_eq!(table.entry(0).id, 1);
    assert_eq!(table.entry(1).id, 2);
}

#[test]
fn scan_gives_up_past_probe_limit() {
    let mut e = Enumeration::new(1);
    for id in 0..4u64 {
        assert_eq!(e.next_action(), Action::QueryUri(id));
        e.record(Event::UriRejected);
    }
    assert_eq!(e.next_action(), Action::ProbeLimitExceeded);
    assert_eq!(e.supply_count(), 1);
}

#[test]
fn empty_supply_finishes_at_once() {
    let e = Enumeration::new(0);
    assert_eq!(e.next_action(), Action::Finished);
}

#[test]
fn scan_stops_after_supply_accepted_ids_despite_rejections() {
    let mut e = Enumeration::new(3);
    let outcomes = [
        Event::Resolved(raw("zero", vec![])),
        Event::UriRejected,
        Event::Failed(ResolveError::Decode),
        Event::UriRejected,
        Event::UriRejected,
        Event::Resolved(raw("five", vec![attr("Hat", RawValue::Integer(42))])),
    ];
    let mut queried = Vec::new();
    for ev in outcomes {
        match e.next_action() {
            Action::QueryUri(id) => queried.push(id),
            other => panic!("unexpected {:?}", other),
        }
        e.record(ev);
    }
    assert_eq!(queried, vec![0, 1, 2, 3, 4, 5]);
    assert_eq!(e.next_action(), Action::Finished);
    let (table, headers) = e.into_results();
    let rows = tabular_rows(&table, &headers);
    assert_eq!(rows, vec![vec!["0", "zero", ""], vec!["5", "five", "42"]]);
}

#[test]
fn events_after_finish_change_nothing() {
    let mut e = Enumeration::new(1);
    e.record(Event::Resolved(raw("only", vec![])));
    assert_eq!(e.next_action(), Action::Finished);
    e.record(Event::Resolved(raw("extra", vec![])));
    e.record(Event::Failed(ResolveError::Network));
    assert_eq!(e.next_action(), Action::Finished);
    assert_eq!(e.remaining_count(), 0);
    let (table, _) = e.into_results();
    assert_eq!(table.len(), 1);
    assert_eq!(table.entry(0).metadata.name, "only");
}
