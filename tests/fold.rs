use dorothy::utils::{fold_by_strlen, fold_strings, FoldError, FoldStrlenState};

fn strings(items: &[&str]) -> Vec<String> {
    items.iter().map(|s| s.to_string()).collect()
}

fn batches(items: &[&[&str]]) -> Vec<Vec<String>> {
    items.iter().map(|b| strings(b)).collect()
}

#[test]
fn greedy_example_packs_in_order() {
    let r = fold_strings(5, strings(&["ab", "cd", "ef", "ghij"])).unwrap();
    assert_eq!(r, batches(&[&["ab", "cd"], &["ef"], &["ghij"]]));
}

#[test]
fn oversized_item_is_rejected() {
    assert_eq!(fold_strings(5, strings(&["toolongstring"])), Err(FoldError::ItemTooLarge));
}

#[test]
fn oversized_item_after_others_fails_whole_call() {
    assert_eq!(fold_strings(5, strings(&["ab", "cd", "toolong"])), Err(FoldError::ItemTooLarge));
}

#[test]
fn empty_input_gives_no_batch() {
    assert_eq!(fold_strings(5, Vec::new()).unwrap(), Vec::<Vec<String>>::new());
}

#[test]
fn item_of_exactly_the_budget_fits() {
    let r = fold_strings(4, strings(&["abcd", "ef", "gh", "i"])).unwrap();
    assert_eq!(r, batches(&[&["abcd"], &["ef", "gh"], &["i"]]));
}

#[test]
fn lengths_are_counted_in_bytes() {
    // "é" takes two bytes in UTF-8.
    let r = fold_strings(3, strings(&["é", "é", "a"])).unwrap();
    assert_eq!(r, batches(&[&["é"], &["é", "a"]]));
    assert_eq!(fold_strings(1, strings(&["é"])), Err(FoldError::ItemTooLarge));
}

#[test]
fn empty_strings_join_the_current_batch() {
    let r = fold_strings(2, strings(&["", "ab", "", "c"])).unwrap();
    assert_eq!(r, batches(&[&["", "ab", ""], &["c"]]));
}

#[test]
fn batches_concatenate_back_to_the_input_within_budget() {
    let items: Vec<String> = (0..40).map(|i| "x".repeat(i % 7)).collect();
    let budget = 10;
    let r = fold_strings(budget, items.clone()).unwrap();
    let flat: Vec<String> = r.iter().flatten().cloned().collect();
    assert_eq!(flat, items);
    for b in &r {
        assert!(!b.is_empty());
        assert!(b.iter().map(|s| s.len()).sum::<usize>() <= budget);
    }
}

#[test]
fn step_by_step_fold_matches_whole_fold() {
    let mut state = FoldStrlenState::new(5);
    for item in ["ab", "cd", "ef", "ghij"] {
        state = fold_by_strlen(state, item.to_string()).ok().unwrap();
    }
    assert_eq!(state.extract(), batches(&[&["ab", "cd"], &["ef"], &["ghij"]]));
}

#[test]
fn step_rejects_long_item_with_message() {
    let state = FoldStrlenState::new(3);
    match fold_by_strlen(state, "abcd".to_string()) {
        Err(e) => assert_eq!(e, "A string is too long."),
        Ok(_) => panic!("a string longer than the budget was accepted"),
    }
}

#[test]
fn new_state_extracts_nothing() {
    assert_eq!(FoldStrlenState::new(900).extract(), Vec::<Vec<String>>::new());
}
