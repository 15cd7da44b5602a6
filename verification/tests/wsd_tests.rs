use saldowsd::wsd::{
    context_positions, context_window, decay_numerator, s1prior_targets, sense_number_of,
    senses_are_scored,
};

#[test]
fn sense_numbers() {
    assert_eq!(sense_number_of("bank..2"), Some(2));
    assert_eq!(sense_number_of("a..b..-3"), Some(-3));
    assert_eq!(sense_number_of("x...1"), Some(1));
    assert_eq!(sense_number_of("plain"), None);
    assert_eq!(sense_number_of("x..y"), None);
    assert_eq!(sense_number_of("x.."), None);
}

#[test]
fn prior_goes_to_lowest_numbered_sense_with_vector() {
    let senses = vec!["bank..3".to_string(), "bank..1".to_string(), "bank..2".to_string()];
    assert_eq!(s1prior_targets(&senses, &vec![true, true, true]), vec![false, true, false]);
    assert_eq!(s1prior_targets(&senses, &vec![true, false, true]), vec![false, false, true]);
}

#[test]
fn prior_with_ties_and_no_vectors() {
    let senses = vec!["a..1".to_string(), "b..1".to_string(), "c".to_string()];
    assert_eq!(s1prior_targets(&senses, &vec![true, true, false]), vec![true, true, false]);
    assert_eq!(s1prior_targets(&senses, &vec![false, false, false]), vec![false, false, false]);
}

#[test]
fn window_is_clipped_at_sentence_end() {
    assert_eq!(context_window(5, 10, 2), (3, 7));
    assert_eq!(context_window(8, 10, 3), (5, 9));
    assert_eq!(context_window(0, 1, 0), (0, 0));
}

#[test]
fn context_positions_skip_the_token() {
    assert_eq!(context_positions(5, 10, 2), vec![3, 4, 6, 7]);
    assert_eq!(context_positions(8, 10, 3), vec![5, 6, 7, 9]);
    assert_eq!(context_positions(0, 1, 0), Vec::<usize>::new());
}

#[test]
fn decay_numerators() {
    assert_eq!(decay_numerator(3, 5, 4), 3);
    assert_eq!(decay_numerator(3, 5, 8), 1);
    assert_eq!(decay_numerator(3, 5, 7), 2);
}

#[test]
fn scored_senses() {
    assert!(!senses_are_scored(&vec![true]));
    assert!(!senses_are_scored(&vec![false, false]));
    assert!(senses_are_scored(&vec![false, true]));
}
