use seogi::domain::dependency::detect_cycle;

#[test]
fn test_detect_cycle_no_cycle() {
    let edges = vec![
        ("A".to_string(), "B".to_string()),
        ("B".to_string(), "C".to_string()),
    ];
    assert!(!detect_cycle(&edges, "D", "A"));
}

#[test]
fn test_detect_cycle_direct() {
    let edges = vec![("A".to_string(), "B".to_string())];
    assert!(detect_cycle(&edges, "B", "A"));
}

#[test]
fn test_detect_cycle_indirect() {
    let edges = vec![
        ("A".to_string(), "B".to_string()),
        ("B".to_string(), "C".to_string()),
    ];
    assert!(detect_cycle(&edges, "C", "A"));
}

#[test]
fn test_detect_cycle_empty_graph() {
    let edges: Vec<(String, String)> = vec![];
    assert!(!detect_cycle(&edges, "A", "B"));
}

#[test]
fn test_detect_cycle_diamond_no_cycle() {
    let edges = vec![
        ("A".to_string(), "B".to_string()),
        ("A".to_string(), "C".to_string()),
        ("B".to_string(), "D".to_string()),
        ("C".to_string(), "D".to_string()),
    ];
    assert!(!detect_cycle(&edges, "E", "A"));
}

// Own cases.

#[test]
fn self_loop_is_a_cycle() {
    let edges: Vec<(String, String)> = vec![];
    assert!(detect_cycle(&edges, "A", "A"));
}

#[test]
fn cycle_elsewhere_does_not_count() {
    let edges = vec![
        ("X".to_string(), "Y".to_string()),
        ("Y".to_string(), "X".to_string()),
        ("A".to_string(), "X".to_string()),
    ];
    assert!(!detect_cycle(&edges, "B", "A"));
    assert!(detect_cycle(&edges, "X", "A"));
}

#[test]
fn long_chain_back_to_start() {
    let names: Vec<String> = (0..50).map(|i| format!("T{i}")).collect();
    let edges: Vec<(String, String)> = names
        .windows(2)
        .map(|w| (w[0].clone(), w[1].clone()))
        .collect();
    assert!(detect_cycle(&edges, "T49", "T0"));
    assert!(!detect_cycle(&edges, "T0", "T49"));
}
