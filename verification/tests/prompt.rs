use minishell::prompt::{create_prompt, replace_all};

#[test]
fn the_prompt_names_user_host_and_directory() {
    assert_eq!(create_prompt("ada", "engine", "/tmp", "/home/ada"), "[ada@engine /tmp]$ ");
}

#[test]
fn the_home_directory_is_written_as_tilde() {
    assert_eq!(create_prompt("ada", "engine", "/home/ada", "/home/ada"), "[ada@engine ~]$ ");
    assert_eq!(
        create_prompt("ada", "engine", "/home/ada/src/shell", "/home/ada"),
        "[ada@engine ~/src/shell]$ "
    );
}

#[test]
fn the_home_directory_is_replaced_wherever_it_occurs() {
    assert_eq!(
        create_prompt("ada", "engine", "/mnt/home/ada/old/home/ada", "/home/ada"),
        "[ada@engine /mnt~/old~]$ "
    );
    assert_eq!(create_prompt("root", "engine", "/usr/lib", "/"), "[root@engine ~usr~lib]$ ");
}

#[test]
fn an_empty_name_leaves_its_place_empty() {
    assert_eq!(create_prompt("", "", "/", "/home/ada"), "[@ /]$ ");
}

#[test]
fn the_prompt_agrees_with_format_and_replace() {
    let cases = [
        ("ada", "engine", "/home/ada/x", "/home/ada"),
        ("エイダ", "機械", "/home/エイダ/写真", "/home/エイダ"),
        ("a b", "c@d", "/a b/[x]$ ", "/a b"),
        ("u", "h", "/srv", ""),
        ("u", "h", "", ""),
        ("u", "h", "", "/home/u"),
    ];
    for (user, hostname, cwd, home) in cases {
        assert_eq!(
            create_prompt(user, hostname, cwd, home),
            format!("[{}@{} {}]$ ", user, hostname, cwd.replace(home, "~"))
        );
    }
}

#[test]
fn replacing_each_occurrence() {
    assert_eq!(replace_all("a-b-c", "-", "+"), "a+b+c");
    assert_eq!(replace_all("a-b-c", "-", ""), "abc");
    assert_eq!(replace_all("a-b-c", "-", "<->"), "a<->b<->c");
    assert_eq!(replace_all("abc", "abc", "x"), "x");
    assert_eq!(replace_all("abc", "abcd", "x"), "abc");
    assert_eq!(replace_all("abc", "x", "y"), "abc");
    assert_eq!(replace_all("", "x", "y"), "");
}

#[test]
fn occurrences_do_not_overlap() {
    assert_eq!(replace_all("aaa", "aa", "b"), "ba");
    assert_eq!(replace_all("aaaa", "aa", "b"), "bb");
    assert_eq!(replace_all("ababa", "aba", "x"), "xba");
    assert_eq!(replace_all("aaa", "a", "aa"), "aaaaaa");
}

#[test]
fn the_empty_pattern_occurs_between_all_characters() {
    assert_eq!(replace_all("", "", "x"), "x");
    assert_eq!(replace_all("ab", "", "-"), "-a-b-");
    assert_eq!(replace_all("é日", "", "~"), "~é~日~");
}

#[test]
fn replacing_agrees_with_the_standard_library() {
    let texts = ["", "a", "aa", "aaa", "abab", "abcabc", "/home/ada/home", "日本語日本", "~~", "a~b"];
    let patterns = ["", "a", "aa", "ab", "b", "abc", "/home", "日本", "~", "c"];
    let replacements = ["", "~", "a", "ab", "日"];
    for text in texts {
        for pattern in patterns {
            for with in replacements {
                assert_eq!(
                    replace_all(text, pattern, with),
                    text.replace(pattern, with),
                    "{:?} {:?} {:?}",
                    text,
                    pattern,
                    with
                );
            }
        }
    }
}
