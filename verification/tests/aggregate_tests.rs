use movlist::aggregate::{aggregate, ListItem, MyList};

fn row(list_id: u64, name: &str, title: &str) -> ListItem {
    ListItem { list_id, name: name.to_string(), title: title.to_string() }
}

fn as_triples(out: &[MyList]) -> Vec<(u64, String, Vec<String>)> {
    out.iter().map(|m| (m.id, m.name.clone(), m.titles.clone())).collect()
}

#[test]
fn grouping_three_rows() {
    let rows = vec![row(1, "A", "T1"), row(1, "A", "T2"), row(2, "B", "T3")];
    let out = aggregate(&rows);
    assert_eq!(
        as_triples(&out),
        vec![
            (1, "A".to_string(), vec!["T1".to_string(), "T2".to_string()]),
            (2, "B".to_string(), vec!["T3".to_string()]),
        ]
    );
}

#[test]
fn empty_input_empty_output() {
    let rows: Vec<ListItem> = Vec::new();
    let out = aggregate(&rows);
    assert_eq!(out.len(), 0);
}

#[test]
fn single_row_single_group() {
    let rows = vec![row(7, "Solo", "Only")];
    let out = aggregate(&rows);
    assert_eq!(as_triples(&out), vec![(7, "Solo".to_string(), vec!["Only".to_string()])]);
}

#[test]
fn aggregate_is_deterministic() {
    let rows = vec![row(1, "A", "T1"), row(1, "A", "T2"), row(2, "B", "T3")];
    let first = aggregate(&rows);
    let second = aggregate(&rows);
    assert_eq!(as_triples(&first), as_triples(&second));
}

#[test]
fn title_order_is_preserved_not_corrected() {
    let shuffled = vec![row(1, "A", "T2"), row(1, "A", "T1"), row(2, "B", "T3")];
    let out = aggregate(&shuffled);
    assert_eq!(
        as_triples(&out),
        vec![
            (1, "A".to_string(), vec!["T2".to_string(), "T1".to_string()]),
            (2, "B".to_string(), vec!["T3".to_string()]),
        ]
    );
}

#[test]
fn boundary_transition_between_groups() {
    let rows = vec![
        row(1, "A", "T1"),
        row(2, "B", "T2"),
        row(2, "B", "T3"),
        row(3, "C", "T4"),
    ];
    let out = aggregate(&rows);
    assert_eq!(
        as_triples(&out),
        vec![
            (1, "A".to_string(), vec!["T1".to_string()]),
            (2, "B".to_string(), vec!["T2".to_string(), "T3".to_string()]),
            (3, "C".to_string(), vec!["T4".to_string()]),
        ]
    );
}
