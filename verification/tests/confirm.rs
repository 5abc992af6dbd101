use fastdel::confirm::{confirms, says_yes};

#[test]
fn y_and_yes_confirm() {
    assert!(confirms("y"));
    assert!(confirms("yes"));
    assert!(says_yes(&String::from("y")));
    assert!(says_yes(&String::from("yes")));
}

#[test]
fn case_and_surrounding_space_do_not_count() {
    assert!(confirms("Y"));
    assert!(confirms("YES"));
    assert!(confirms("Yes"));
    assert!(confirms("yEs"));
    assert!(confirms("y\n"));
    assert!(confirms("yes\r\n"));
    assert!(confirms("  \t YES \n"));
}

#[test]
fn a_normalised_answer_is_taken_as_it_is() {
    assert!(!says_yes(&String::from("Y")));
    assert!(!says_yes(&String::from("YES")));
    assert!(!says_yes(&String::from(" y")));
    assert!(!says_yes(&String::from("yes\n")));
    assert!(!says_yes(&String::new()));
}

#[test]
fn anything_else_declines() {
    assert!(!confirms(""));
    assert!(!confirms("\n"));
    assert!(!confirms("n"));
    assert!(!confirms("no"));
    assert!(!confirms("N"));
    assert!(!confirms("ye"));
    assert!(!confirms("yess"));
    assert!(!confirms("y e s"));
    assert!(!confirms("yes please"));
    assert!(!confirms("ok"));
    assert!(!confirms("1"));
}
