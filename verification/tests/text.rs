use minishell::text::{chars_of, same_text};

#[test]
fn same_text_on_equal_slices() {
    assert!(same_text("", ""));
    assert!(same_text("exit", "exit"));
    assert!(same_text("&&", "&&"));
    assert!(same_text("日本語", "日本語"));
    let owned = String::from("cd");
    assert!(same_text(&owned, "cd"));
}

#[test]
fn same_text_on_different_slices() {
    assert!(!same_text("exit", "exit "));
    assert!(!same_text("exit", "exi"));
    assert!(!same_text("", "x"));
    assert!(!same_text("&&", "||"));
    assert!(!same_text("&&", "&|"));
    assert!(!same_text("cd", "dc"));
    assert!(!same_text("é", "e"));
    assert!(!same_text("é", "e\u{301}"));
}

#[test]
fn chars_of_gives_the_characters_in_order() {
    assert_eq!(chars_of(""), Vec::<char>::new());
    assert_eq!(chars_of("a b"), vec!['a', ' ', 'b']);
    assert_eq!(chars_of("~/é日"), vec!['~', '/', 'é', '日']);
}
