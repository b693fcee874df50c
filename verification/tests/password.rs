use cognito_user_manager::password::{
    below, from_draw, generate, pick, password_from_choices, password_from_draws, shuffle, Policy, MAX_LENGTH,
    TARGET_LENGTH,
};

const SYMBOLS: &[u8] = b"!#$%&*+-=?@^_";

fn policy(minimum_length: usize) -> Policy {
    Policy {
        minimum_length,
        ..Policy::default()
    }
}

#[test]
fn satisfies_every_required_class() {
    for _ in 0..64 {
        let password = generate(&policy(8)).unwrap();
        assert!(password.chars().any(|c| c.is_ascii_lowercase()));
        assert!(password.chars().any(|c| c.is_ascii_uppercase()));
        assert!(password.chars().any(|c| c.is_ascii_digit()));
        assert!(
            password.chars().any(|c| SYMBOLS.contains(&(c as u8))),
            "no symbol in {password}"
        );
    }
}

#[test]
fn honours_a_minimum_longer_than_the_target() {
    let password = generate(&policy(64)).unwrap();
    assert_eq!(password.chars().count(), 64);
}

#[test]
fn stays_within_the_cognito_maximum() {
    let password = generate(&policy(1000)).unwrap();
    assert_eq!(password.chars().count(), MAX_LENGTH);
}

#[test]
fn never_contains_whitespace() {
    for _ in 0..64 {
        let password = generate(&Policy::default()).unwrap();
        assert!(!password.chars().any(char::is_whitespace));
    }
}

#[test]
fn a_policy_without_requirements_still_generates() {
    let relaxed = Policy {
        minimum_length: 6,
        require_uppercase: false,
        require_lowercase: false,
        require_numbers: false,
        require_symbols: false,
    };
    assert_eq!(generate(&relaxed).unwrap().chars().count(), TARGET_LENGTH);
}

#[test]
fn draws_every_value_below_the_bound() {
    let mut seen = [false; 5];
    for _ in 0..500 {
        seen[below(5).unwrap()] = true;
    }
    assert!(seen.iter().all(|&hit| hit));
}

#[test]
fn every_character_comes_from_the_alphabet() {
    for _ in 0..32 {
        let password = generate(&policy(30)).unwrap();
        assert_eq!(password.chars().count(), 30);
        assert!(password.chars().all(|c| c.is_ascii_alphanumeric() || SYMBOLS.contains(&(c as u8))));
    }
}

#[test]
fn two_passwords_differ() {
    // The randomness really is used: two draws of twenty characters from
    // seventy-five agree only by a vanishing chance.
    let a = generate(&Policy::default()).unwrap();
    let b = generate(&Policy::default()).unwrap();
    assert_ne!(a, b);
}

#[test]
fn a_missing_or_negative_minimum_falls_back() {
    assert_eq!(Policy::from_parts(None, true, false, true, false).minimum_length, 8);
    assert_eq!(Policy::from_parts(Some(-3), true, true, true, true).minimum_length, 8);
    let p = Policy::from_parts(Some(12), false, true, false, true);
    assert_eq!(p.minimum_length, 12);
    assert!(!p.require_uppercase && p.require_lowercase && !p.require_numbers && p.require_symbols);
}

#[test]
fn a_zero_bound_reads_as_one() {
    assert_eq!(below(0).unwrap(), 0);
    assert_eq!(below(1).unwrap(), 0);
}

#[test]
fn shuffling_fewer_than_two_characters_leaves_them_alone() {
    let mut empty: Vec<char> = Vec::new();
    assert!(shuffle(&mut empty).is_ok());
    assert!(empty.is_empty());
    let mut one = vec!['x'];
    assert!(shuffle(&mut one).is_ok());
    assert_eq!(one, vec!['x']);
}

#[test]
fn shuffling_keeps_every_character() {
    let original = vec!['a', 'b', 'c', 'd', 'e', 'f'];
    let mut chars = original.clone();
    shuffle(&mut chars).unwrap();
    let mut sorted = chars.clone();
    sorted.sort();
    assert_eq!(sorted, original);
}

#[test]
fn a_draw_gives_its_remainder_unless_it_lands_in_the_partial_block() {
    assert_eq!(from_draw(17, 10), Some(7));
    assert_eq!(from_draw(4294967289, 10), Some(9));
    // 2^32 leaves a remainder of 6 by 10: the six highest draws are rejected.
    assert_eq!(from_draw(4294967290, 10), None);
    assert_eq!(from_draw(4294967295, 10), None);
    assert_eq!(from_draw(4294967295, 1), Some(0));
    assert_eq!(from_draw(5, 4294967296), Some(5));
}

fn relaxed() -> Policy {
    Policy {
        minimum_length: 6,
        require_uppercase: false,
        require_lowercase: false,
        require_numbers: false,
        require_symbols: false,
    }
}

#[test]
fn draws_pick_characters_and_shuffle_them() {
    // Twenty picks from the whole alphabet, then nineteen shuffle draws.
    let zeros = vec![0u32; 39];
    assert_eq!(password_from_draws(&relaxed(), &zeros), Some("a".repeat(20)));
    let mut draws = zeros.clone();
    draws[0] = 1;
    // The 'b' picked first is swapped to the end by the first shuffle step.
    assert_eq!(
        password_from_draws(&relaxed(), &draws),
        Some(format!("{}b", "a".repeat(19)))
    );
}

#[test]
fn a_required_class_is_picked_from_its_own_set() {
    // 'a', 'A', '0', '!' first, sixteen 'a's, then the shuffle walks them
    // to the front.
    let draws = vec![0u32; 39];
    assert_eq!(
        password_from_draws(&Policy::default(), &draws),
        Some(format!("A0!{}", "a".repeat(17)))
    );
    let choices = vec![0usize; 39];
    assert_eq!(
        password_from_choices(&Policy::default(), &choices),
        format!("A0!{}", "a".repeat(17))
    );
}

#[test]
fn rejected_draws_are_skipped_and_too_few_give_nothing() {
    let mut draws = vec![u32::MAX];
    draws.extend(vec![0u32; 39]);
    assert_eq!(password_from_draws(&relaxed(), &draws), Some("a".repeat(20)));
    draws.pop();
    assert_eq!(password_from_draws(&relaxed(), &draws), None);
    assert_eq!(password_from_draws(&relaxed(), &vec![0u32; 38]), None);
}

#[test]
fn a_pick_comes_from_the_alphabet() {
    assert_eq!(pick(&['x']).unwrap(), 'x');
    for _ in 0..32 {
        assert!(['a', 'b', 'c'].contains(&pick(&['a', 'b', 'c']).unwrap()));
    }
}
