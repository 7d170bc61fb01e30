use deet::guessing::{apply_guess, game_over, pick_word, NUM_INCORRECT_GUESSES};

#[test]
fn guess_reveals_first_hidden_match_only() {
    let secret: Vec<char> = vec!['l', 'e', 'v', 'e', 'l'];
    let mut revealed: Vec<char> = vec!['-', '-', '-', '-', '-'];
    assert!(apply_guess(&secret, &mut revealed, 'e'));
    assert_eq!(revealed, vec!['-', 'e', '-', '-', '-']);
    // the second 'e' needs a second guess
    assert!(apply_guess(&secret, &mut revealed, 'e'));
    assert_eq!(revealed, vec!['-', 'e', '-', 'e', '-']);
    // a miss changes nothing
    assert!(!apply_guess(&secret, &mut revealed, 'z'));
    assert_eq!(revealed, vec!['-', 'e', '-', 'e', '-']);
}

#[test]
fn game_ends_on_guesses_or_completion() {
    assert!(!game_over(0, 2, 5));
    assert!(game_over(NUM_INCORRECT_GUESSES, 2, 5));
    assert!(game_over(NUM_INCORRECT_GUESSES + 1, 2, 5));
    assert!(game_over(0, 5, 5));
}

#[test]
fn picked_word_comes_from_the_list() {
    let words = vec![String::from("alpha"), String::from("beta"), String::from("gamma")];
    for _ in 0..20 {
        let w = pick_word(&words).unwrap();
        assert!(words.contains(&w));
    }
    let empty: Vec<String> = Vec::new();
    assert_eq!(pick_word(&empty), None);
}
