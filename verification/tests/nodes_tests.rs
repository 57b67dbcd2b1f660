use eorzea_bot::nodes::{node_generate, nodes_message, NodeError, NodeRecord, NodeTable};

fn record(start: &str, end: &str, name: &str, location: &str) -> NodeRecord {
    NodeRecord {
        start: start.to_string(),
        end: end.to_string(),
        name: name.to_string(),
        location: location.to_string(),
    }
}

#[test]
fn builds_table_from_records() {
    let table = node_generate(vec![
        record("08:00", "10:00", "Rarefied Ore", "Lakeland"),
        record("12:00", "14:00", "Rarefied Log", "Il Mheg"),
    ])
    .ok()
    .unwrap();
    assert_eq!(table.len(), 2);
    assert_eq!(
        table.get(8 * 3600, 10 * 3600),
        Some(("Rarefied Ore".to_string(), "Lakeland".to_string()))
    );
    assert_eq!(table.get(8 * 3600, 11 * 3600), None);
}

#[test]
fn later_record_with_same_window_replaces_earlier() {
    let table = node_generate(vec![
        record("08:00", "10:00", "Old", "A"),
        record("12:00", "14:00", "Other", "B"),
        record("08:00", "10:00", "New", "C"),
    ])
    .ok()
    .unwrap();
    assert_eq!(table.len(), 2);
    assert_eq!(table.get(8 * 3600, 10 * 3600), Some(("New".to_string(), "C".to_string())));
    assert_eq!(
        nodes_message(&table, 9 * 3600),
        "All active nodes right now are:\nNew in C\n"
    );
}

#[test]
fn first_bad_time_is_reported() {
    let r = node_generate(vec![
        record("08:00", "10:00", "Ore", "A"),
        record("25:00", "xx", "Log", "B"),
        record("yy", "10:00", "Sand", "C"),
    ]);
    match r {
        Err(NodeError::InvalidTime(t)) => assert_eq!(t, "25:00"),
        Ok(_) => panic!("a bad time must be refused"),
    }
    match node_generate(vec![record("08:00", "later", "Ore", "A")]) {
        Err(NodeError::InvalidTime(t)) => assert_eq!(t, "later"),
        Ok(_) => panic!("a bad time must be refused"),
    }
}

#[test]
fn nodes_message_lists_active_nodes_in_order() {
    let table = node_generate(vec![
        record("08:00", "10:00", "Ore", "Lakeland"),
        record("09:00", "09:30", "Log", "Il Mheg"),
        record("11:00", "12:00", "Sand", "Kholusia"),
        record("22:00", "02:00", "Night Herb", "Amh Araeng"),
    ])
    .ok()
    .unwrap();
    assert_eq!(
        nodes_message(&table, 9 * 3600),
        "All active nodes right now are:\nOre in Lakeland\nLog in Il Mheg\n"
    );
    assert_eq!(
        nodes_message(&table, 23 * 3600),
        "All active nodes right now are:\nNight Herb in Amh Araeng\n"
    );
    assert_eq!(
        nodes_message(&table, 3600),
        "All active nodes right now are:\nNight Herb in Amh Araeng\n"
    );
    assert_eq!(nodes_message(&table, 15 * 3600), "All active nodes right now are:\n");
    assert_eq!(
        nodes_message(&table, 10 * 3600),
        "All active nodes right now are:\nOre in Lakeland\n"
    );
}

#[test]
fn empty_table() {
    let table = NodeTable::new();
    assert_eq!(table.len(), 0);
    assert_eq!(nodes_message(&table, 0), "All active nodes right now are:\n");
    assert_eq!(node_generate(vec![]).ok().map(|t| t.len()), Some(0));
}

#[test]
fn insert_then_read() {
    let mut table = NodeTable::new();
    table.insert(60, 120, "A".to_string(), "X".to_string());
    table.insert(60, 180, "B".to_string(), "Y".to_string());
    table.insert(60, 120, "C".to_string(), "Z".to_string());
    assert_eq!(table.len(), 2);
    assert_eq!(table.get(60, 120), Some(("C".to_string(), "Z".to_string())));
    assert_eq!(table.get(60, 180), Some(("B".to_string(), "Y".to_string())));
}
