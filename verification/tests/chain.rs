use minishell::chain::{as_operator, parse_cmd_tokens, CommandChain, Operator};
use minishell::tokenizer::get_command_tokens;

fn parse(line: &str) -> CommandChain<&str> {
    parse_cmd_tokens(get_command_tokens(line))
}

#[test]
fn operators_by_their_spelling() {
    assert_eq!(as_operator("&&"), Some(Operator::And));
    assert_eq!(as_operator("||"), Some(Operator::Or));
    assert_eq!(as_operator("&"), None);
    assert_eq!(as_operator("|"), None);
    assert_eq!(as_operator("&&&"), None);
    assert_eq!(as_operator("|&"), None);
    assert_eq!(as_operator(";"), None);
    assert_eq!(as_operator(""), None);
    assert_eq!(as_operator("and"), None);
}

#[test]
fn three_commands_with_both_operators() {
    let chain = parse("ls -la && echo hi || echo bye");
    assert_eq!(chain.commands(), &vec!["ls", "echo", "echo"]);
    assert_eq!(chain.arguments(), &vec![vec!["-la"], vec!["hi"], vec!["bye"]]);
    assert_eq!(chain.operators(), &vec![Operator::And, Operator::Or]);
    assert_eq!(chain.len(), 3);
}

#[test]
fn no_tokens_no_commands() {
    let chain = parse_cmd_tokens(Vec::new());
    assert_eq!(chain.len(), 0);
    assert!(chain.commands().is_empty());
    assert!(chain.arguments().is_empty());
    assert!(chain.operators().is_empty());
}

#[test]
fn whitespace_only_line_has_no_commands() {
    for line in ["", " ", "\n", " \t \r\n "] {
        let chain = parse(line);
        assert_eq!(chain.len(), 0, "{:?}", line);
        assert!(chain.arguments().is_empty());
        assert!(chain.operators().is_empty());
    }
}

#[test]
fn a_command_without_arguments() {
    let chain = parse("pwd");
    assert_eq!(chain.commands(), &vec!["pwd"]);
    assert_eq!(chain.arguments(), &vec![Vec::<&str>::new()]);
    assert!(chain.operators().is_empty());
}

#[test]
fn a_command_with_several_arguments() {
    let chain = parse("cp -r a b");
    assert_eq!(chain.commands(), &vec!["cp"]);
    assert_eq!(chain.arguments(), &vec![vec!["-r", "a", "b"]]);
    assert!(chain.operators().is_empty());
}

#[test]
fn the_first_token_is_a_command_whatever_it_spells() {
    let chain = parse("&& ls");
    assert_eq!(chain.commands(), &vec!["&&"]);
    assert_eq!(chain.arguments(), &vec![vec!["ls"]]);
    assert!(chain.operators().is_empty());

    let chain = parse("|| && ls -l");
    assert_eq!(chain.commands(), &vec!["||", "ls"]);
    assert_eq!(chain.arguments(), &vec![vec![], vec!["-l"]]);
    assert_eq!(chain.operators(), &vec![Operator::And]);
}

#[test]
fn a_later_operator_replaces_the_one_before_it() {
    let chain = parse("a && || b");
    assert_eq!(chain.commands(), &vec!["a", "b"]);
    assert_eq!(chain.arguments(), &vec![Vec::<&str>::new(), Vec::new()]);
    assert_eq!(chain.operators(), &vec![Operator::Or]);

    let chain = parse("a x || && && b y && c");
    assert_eq!(chain.commands(), &vec!["a", "b", "c"]);
    assert_eq!(chain.arguments(), &vec![vec!["x"], vec!["y"], vec![]]);
    assert_eq!(chain.operators(), &vec![Operator::And, Operator::And]);
}

#[test]
fn an_operator_at_the_end_governs_nothing() {
    let chain = parse("make &&");
    assert_eq!(chain.commands(), &vec!["make"]);
    assert_eq!(chain.arguments(), &vec![Vec::<&str>::new()]);
    assert_eq!(chain.operators(), &vec![Operator::And]);

    let chain = parse("make && || &&");
    assert_eq!(chain.commands(), &vec!["make"]);
    assert_eq!(chain.operators(), &vec![Operator::And]);
}

#[test]
fn words_after_an_operator_start_a_command_then_its_arguments() {
    let chain = parse("test -f x || touch x y");
    assert_eq!(chain.commands(), &vec!["test", "touch"]);
    assert_eq!(chain.arguments(), &vec![vec!["-f", "x"], vec!["x", "y"]]);
    assert_eq!(chain.operators(), &vec![Operator::Or]);
}

#[test]
fn lengths_agree_on_every_chain() {
    let lines = [
        "",
        "a",
        "a b c",
        "a &&",
        "a && b",
        "a && && b",
        "a || || ||",
        "&& && &&",
        "a b && c d || e f && g",
    ];
    for line in lines {
        let tokens = get_command_tokens(line);
        let some = !tokens.is_empty();
        let chain = parse_cmd_tokens(tokens);
        assert_eq!(chain.arguments().len(), chain.commands().len(), "{:?}", line);
        assert!(chain.operators().len() <= chain.commands().len(), "{:?}", line);
        assert!(chain.operators().len() + 1 >= chain.commands().len(), "{:?}", line);
        assert_eq!(chain.len(), chain.commands().len());
        assert_eq!(chain.len() >= 1, some, "{:?}", line);
    }
}

#[test]
fn a_chain_spells_the_tokens_it_was_parsed_from() {
    let line = "a b && c || d e f &&";
    let tokens = get_command_tokens(line);
    let chain = parse_cmd_tokens(tokens.clone());
    let mut spelled: Vec<&str> = Vec::new();
    for i in 0..chain.len() {
        spelled.push(chain.commands()[i]);
        spelled.extend(chain.arguments()[i].iter());
        match chain.operators().get(i) {
            Some(Operator::And) => spelled.push("&&"),
            Some(Operator::Or) => spelled.push("||"),
            None => {}
        }
    }
    assert_eq!(spelled, tokens);
}
