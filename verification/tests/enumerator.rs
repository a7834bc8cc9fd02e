use boolexpr::Bindings;

fn snapshot(b: &Bindings) -> Vec<bool> {
    (0..b.num_bindings()).map(|i| b.get_value(i)).collect()
}

#[test]
fn enumerator_visits_every_assignment_once() {
    let mut b = Bindings::new();
    b.push_binding(false, "A");
    b.push_binding(false, "B");
    b.push_binding(false, "C");
    let mut visited = vec![snapshot(&b)];
    let mut successes = 0;
    while let Some(_) = b.advance() {
        visited.push(snapshot(&b));
        successes += 1;
        assert!(successes <= 7, "enumerator failed to signal exhaustion");
    }
    // Exactly 2^3 - 1 successful advances before exhaustion.
    assert_eq!(successes, 7);
    // All 2^3 visited vectors are distinct, so every assignment appeared.
    assert_eq!(visited.len(), 8);
    for i in 0..visited.len() {
        for j in 0..i {
            assert_ne!(visited[i], visited[j]);
        }
    }
    // Exhaustion resets the vector to all-false.
    assert_eq!(snapshot(&b), vec![false, false, false]);
}

#[test]
fn enumerator_reports_changed_index() {
    let mut b = Bindings::new();
    b.push_binding(false, "x");
    b.push_binding(false, "y");
    assert_eq!(b.advance(), Some(1));
    assert_eq!(snapshot(&b), vec![false, true]);
    assert_eq!(b.advance(), Some(0));
    assert_eq!(snapshot(&b), vec![true, false]);
    assert_eq!(b.advance(), Some(1));
    assert_eq!(snapshot(&b), vec![true, true]);
    assert_eq!(b.advance(), None);
    assert_eq!(snapshot(&b), vec![false, false]);
    // The enumerator resumes counting after exhaustion.
    assert_eq!(b.advance(), Some(1));
    assert_eq!(snapshot(&b), vec![false, true]);
}

#[test]
fn enumerator_with_no_slots_is_immediately_exhausted() {
    let mut b = Bindings::new();
    assert_eq!(b.advance(), None);
    assert_eq!(b.advance(), None);
}

#[test]
fn bindings_queries() {
    let mut b = Bindings::new();
    b.push_binding(true, "alpha");
    b.push_binding(false, "beta");
    assert_eq!(b.num_bindings(), 2);
    assert!(b.contains("alpha"));
    assert!(b.contains("beta"));
    assert!(!b.contains("gamma"));
    assert_eq!(b.get_name(0), "alpha");
    assert_eq!(b.get_name(1), "beta");
    assert_eq!(b.get_value(0), true);
    assert_eq!(b.get_value(1), false);
}

#[test]
fn reset_values_clears_only_values() {
    let mut b = Bindings::new();
    b.push_binding(true, "A");
    b.push_binding(true, "B");
    b.reset_values();
    assert_eq!(snapshot(&b), vec![false, false]);
    assert_eq!(b.get_name(0), "A");
    assert_eq!(b.get_name(1), "B");
}

#[test]
fn negated_values_flips_every_slot() {
    let mut b = Bindings::new();
    b.push_binding(true, "A");
    b.push_binding(false, "B");
    b.push_binding(true, "C");
    assert_eq!(b.negated_values(), vec![false, true, false]);
    // The source is untouched.
    assert_eq!(snapshot(&b), vec![true, false, true]);
}

#[test]
fn default_bindings_is_empty() {
    let mut b: Bindings = Default::default();
    assert_eq!(b.num_bindings(), 0);
    assert!(!b.contains("A"));
    assert_eq!(b.advance(), None);
}

#[test]
fn bindings_from_names_and_pairs() {
    let b = Bindings::from_names(vec!["p".to_string(), "q".to_string()]);
    assert_eq!(b.num_bindings(), 2);
    assert_eq!(snapshot(&b), vec![false, false]);
    assert_eq!(b.get_name(0), "p");
    let b = Bindings::from_pairs(vec![(true, "p".to_string()), (false, "q".to_string())]);
    assert_eq!(snapshot(&b), vec![true, false]);
    assert_eq!(b.get_name(1), "q");
    let b = Bindings::from_named_pairs(vec![("p".to_string(), false), ("q".to_string(), true)]);
    assert_eq!(snapshot(&b), vec![false, true]);
    assert_eq!(b.get_name(0), "p");
}

#[test]
fn enumerator_drives_truth_table_of_expression() {
    // Build a truth table for A & B by walking the enumerator.
    let parsed = boolexpr::Parsed::new("A & B").expect("should parse");
    let mut b = Bindings::new();
    for i in 0..parsed.num_variables() {
        b.push_binding(false, &parsed.var_bindings[i]);
    }
    let mut results = Vec::new();
    loop {
        let binding: Vec<(usize, bool)> =
            (0..b.num_bindings()).map(|i| (i, b.get_value(i))).collect();
        results.push(parsed.evaluate(&binding));
        if b.advance().is_none() {
            break;
        }
    }
    // Rows in counter order: 00, 01, 10, 11 (index 1 is least significant).
    assert_eq!(results, vec![false, false, false, true]);
}

#[test]
fn single_slot_enumeration() {
    let mut b = Bindings::new();
    b.push_binding(false, "only");
    assert_eq!(b.advance(), Some(0));
    assert_eq!(snapshot(&b), vec![true]);
    assert_eq!(b.advance(), None);
    assert_eq!(snapshot(&b), vec![false]);
}
