//! Command chains: commands with their arguments, joined by short-circuit
//! operators, and the parser that builds a chain from a token sequence.

use vstd::prelude::*;
use crate::text::same_text;

verus! {

/// A short-circuit operator between two consecutive commands.
#[derive(Clone, Copy, Debug, PartialEq, Eq, Structural)]
pub enum Operator {
    /// `&&`: the next command runs only if this one succeeded.
    And,
    /// `||`: the next command runs only if this one failed.
    Or,
}

/// What a chain holds, as sequences of character sequences.
///
/// `operators[i]` stands between `commands[i]` and `commands[i + 1]`; a last
/// operator with no command after it governs nothing.
pub struct Chain {
    pub commands: Seq<Seq<char>>,
    pub operators: Seq<Operator>,
    pub arguments: Seq<Seq<Seq<char>>>,
}

impl Chain {
    /// The chain with no commands.
    pub open spec fn empty() -> Chain {
        Chain { commands: Seq::empty(), operators: Seq::empty(), arguments: Seq::empty() }
    }

    /// Every command has its argument list, and every operator a command
    /// before it.
    pub open spec fn well_formed(self) -> bool {
        &&& self.arguments.len() == self.commands.len()
        &&& self.operators.len() <= self.commands.len()
    }

    /// The operator that follows command `index`, if there is one.
    pub open spec fn operator_after(self, index: int) -> Option<Operator> {
        if 0 <= index < self.operators.len() {
            Some(self.operators[index])
        } else {
            None
        }
    }

    /// The tokens that spell command `index`: its name, its arguments and
    /// the operator that follows it, if there is one.
    pub open spec fn segment(self, index: int) -> Seq<Seq<char>> {
        let name_and_arguments = seq![self.commands[index]] + self.arguments[index];
        match self.operator_after(index) {
            Some(operator) => name_and_arguments.push(spelling(operator)),
            None => name_and_arguments,
        }
    }

    /// The tokens that spell the first `count` commands.
    pub open spec fn tokens_of_first(self, count: nat) -> Seq<Seq<char>>
        decreases count,
    {
        if count == 0 {
            Seq::empty()
        } else {
            self.tokens_of_first((count - 1) as nat) + self.segment(count - 1)
        }
    }

    /// The tokens that spell the chain.
    pub open spec fn tokens(self) -> Seq<Seq<char>> {
        self.tokens_of_first(self.commands.len())
    }
}

/// The token that spells `operator`.
pub open spec fn spelling(operator: Operator) -> Seq<char> {
    match operator {
        Operator::And => seq!['&', '&'],
        Operator::Or => seq!['|', '|'],
    }
}

/// The operator that `token` spells, if it spells one.
pub open spec fn operator_of(token: Seq<char>) -> Option<Operator> {
    if token == seq!['&', '&'] {
        Some(Operator::And)
    } else if token == seq!['|', '|'] {
        Some(Operator::Or)
    } else {
        None
    }
}

/// The parser between two tokens: the chain read so far, and whether the
/// last token was an operator.
pub struct ParseState {
    pub chain: Chain,
    pub after_operator: bool,
}

/// The state after reading `token` in state `state`.
///
/// The first token of a line names the first command, whatever it spells.
/// After that an operator is recorded behind the open command, replacing one
/// already recorded there; a word that follows an operator opens the next
/// command; any other word is an argument of the open command.
pub open spec fn read_token(state: ParseState, token: Seq<char>) -> ParseState {
    let chain = state.chain;
    let open = chain.commands.len() - 1;
    if chain.commands.len() == 0 {
        ParseState {
            chain: Chain {
                commands: seq![token],
                operators: Seq::empty(),
                arguments: seq![Seq::empty()],
            },
            after_operator: false,
        }
    } else if let Some(operator) = operator_of(token) {
        ParseState {
            chain: Chain { operators: chain.operators.take(open).push(operator), ..chain },
            after_operator: true,
        }
    } else if state.after_operator {
        ParseState {
            chain: Chain {
                commands: chain.commands.push(token),
                arguments: chain.arguments.push(Seq::empty()),
                ..chain
            },
            after_operator: false,
        }
    } else {
        ParseState {
            chain: Chain {
                arguments: chain.arguments.update(open, chain.arguments[open].push(token)),
                ..chain
            },
            after_operator: false,
        }
    }
}

/// The state after reading all of `tokens`, from left to right.
pub open spec fn read_tokens(tokens: Seq<Seq<char>>) -> ParseState
    decreases tokens.len(),
{
    if tokens.len() == 0 {
        ParseState { chain: Chain::empty(), after_operator: false }
    } else {
        read_token(read_tokens(tokens.drop_last()), tokens.last())
    }
}

/// The chain that `tokens` spell.
pub open spec fn parse(tokens: Seq<Seq<char>>) -> Chain {
    read_tokens(tokens).chain
}

/// What holds of the parser's state after any token sequence: the chain is
/// well formed, every command but the open one has its operator, and the
/// open command has one just when an operator was read last.
pub open spec fn consistent(state: ParseState) -> bool {
    let chain = state.chain;
    &&& chain.well_formed()
    &&& chain.commands.len() > 0 ==> chain.operators.len() >= chain.commands.len() - 1
    &&& state.after_operator <==> chain.commands.len() > 0 && chain.operators.len()
        == chain.commands.len()
}

/// Reading tokens keeps the parser's state consistent and makes the first
/// token the first command. An operator was read last only where the last
/// token, and not the first, spells one.
pub proof fn lemma_read_tokens(tokens: Seq<Seq<char>>)
    ensures
        consistent(read_tokens(tokens)),
        tokens.len() > 0 ==> parse(tokens).commands.len() >= 1 && parse(tokens).commands[0]
            == tokens[0],
        parse(tokens).commands.len() <= tokens.len(),
        read_tokens(tokens).after_operator ==> tokens.len() >= 2 && operator_of(tokens.last())
            is Some,
    decreases tokens.len(),
{
    if tokens.len() > 0 {
        lemma_read_tokens(tokens.drop_last());
    }
}

/// No operator stands directly behind another. The first token does not
/// count: it is a name, whatever it spells.
pub open spec fn operators_stand_alone(tokens: Seq<Seq<char>>) -> bool {
    forall|i: int|
        1 <= i && i + 1 < tokens.len() && operator_of(#[trigger] tokens[i]) is Some
            ==> operator_of(tokens[i + 1]) is None
}

/// Two chains that agree on their first `count` commands spell them alike.
pub proof fn lemma_tokens_of_first_agree(a: Chain, b: Chain, count: nat)
    requires
        forall|i: int| 0 <= i < count ==> a.segment(i) == b.segment(i),
    ensures
        a.tokens_of_first(count) == b.tokens_of_first(count),
    decreases count,
{
    if count > 0 {
        lemma_tokens_of_first_agree(a, b, (count - 1) as nat);
    }
}

/// An operator token is the spelling of its operator.
pub proof fn lemma_spelling(token: Seq<char>)
    requires
        operator_of(token) is Some,
    ensures
        spelling(operator_of(token)->0) == token,
{
}

/// Where no operator stands directly behind another, the chain spells the
/// tokens it was parsed from: parsing loses nothing.
pub proof fn lemma_parse_keeps_tokens(tokens: Seq<Seq<char>>)
    requires
        operators_stand_alone(tokens),
    ensures
        parse(tokens).tokens() == tokens,
    decreases tokens.len(),
{
    if tokens.len() > 0 {
        let read = tokens.drop_last();
        let token = tokens.last();
        let before = read_tokens(read).chain;
        let after = parse(tokens);
        let count = before.commands.len();
        assert(operators_stand_alone(read)) by {
            assert forall|i: int|
                1 <= i && i + 1 < read.len() && operator_of(#[trigger] read[i]) is Some
                implies operator_of(read[i + 1]) is None by {
                assert(read[i] == tokens[i]);
            }
        }
        lemma_parse_keeps_tokens(read);
        lemma_read_tokens(read);
        lemma_read_tokens(tokens);
        if count == 0 {
            // The first token opens the first command.
            assert(after.tokens_of_first(0) =~= Seq::<Seq<char>>::empty());
        } else if operator_of(token) is Some {
            // The token before this one is no operator, so the open command
            // has none yet and gets this one.
            lemma_spelling(token);
            assert(!read_tokens(read).after_operator);
            lemma_tokens_of_first_agree(after, before, (count - 1) as nat);
            assert(after.tokens() =~= before.tokens().push(token));
        } else if read_tokens(read).after_operator {
            // The token opens a command behind those read so far.
            lemma_tokens_of_first_agree(after, before, count);
        } else {
            // The token is one more argument of the open command.
            lemma_tokens_of_first_agree(after, before, (count - 1) as nat);
            assert(after.tokens() =~= before.tokens().push(token));
        }
    }
}

/// A parsed command chain. `T` is the type of a token.
#[derive(Debug)]
pub struct CommandChain<T> {
    commands: Vec<T>,
    operators: Vec<Operator>,
    arguments: Vec<Vec<T>>,
}

impl<T> CommandChain<T> {
    #[verifier::type_invariant]
    spec fn lengths_agree(self) -> bool {
        &&& self.arguments@.len() == self.commands@.len()
        &&& self.operators@.len() <= self.commands@.len()
    }
}

impl<'a> View for CommandChain<&'a str> {
    type V = Chain;

    closed spec fn view(&self) -> Chain {
        Chain {
            commands: self.commands.deep_view(),
            operators: self.operators@,
            arguments: self.arguments.deep_view(),
        }
    }
}

impl<'a> CommandChain<&'a str> {
    /// The number of commands.
    pub fn len(&self) -> (n: usize)
        ensures
            n == self@.commands.len(),
            self@.well_formed(),
    {
        proof {
            use_type_invariant(self);
        }
        self.commands.len()
    }

    /// The command names, in order.
    pub fn commands(&self) -> (names: &Vec<&'a str>)
        ensures
            names.deep_view() == self@.commands,
            self@.well_formed(),
    {
        proof {
            use_type_invariant(self);
        }
        &self.commands
    }

    /// The operators, in order: the first stands behind the first command.
    pub fn operators(&self) -> (operators: &Vec<Operator>)
        ensures
            operators@ == self@.operators,
            self@.well_formed(),
    {
        proof {
            use_type_invariant(self);
        }
        &self.operators
    }

    /// The argument lists, one for each command.
    pub fn arguments(&self) -> (lists: &Vec<Vec<&'a str>>)
        ensures
            lists.deep_view() == self@.arguments,
            self@.well_formed(),
    {
        proof {
            use_type_invariant(self);
        }
        &self.arguments
    }
}

/// The operator that `token` spells, if it spells one.
pub fn as_operator(token: &str) -> (r: Option<Operator>)
    ensures
        r == operator_of(token@),
{
    proof {
        reveal_strlit("&&");
        reveal_strlit("||");
        assert("&&"@ =~= seq!['&', '&']);
        assert("||"@ =~= seq!['|', '|']);
    }
    if same_text(token, "&&") {
        Some(Operator::And)
    } else if same_text(token, "||") {
        Some(Operator::Or)
    } else {
        None
    }
}

/// Groups `tokens` into a chain of commands.
///
/// The chain is the one that reading the tokens from left to right gives
/// (see [`read_token`]). It has a command whenever there is a token, and
/// every command but the last has an operator behind it.
pub fn parse_cmd_tokens(tokens: Vec<&str>) -> (chain: CommandChain<&str>)
    ensures
        chain@ == parse(tokens.deep_view()),
        chain@.well_formed(),
        tokens.len() > 0 ==> chain@.commands.len() >= 1,
        chain@.commands.len() <= chain@.operators.len() + 1,
{
    let mut commands: Vec<&str> = Vec::new();
    let mut operators: Vec<Operator> = Vec::new();
    let mut arguments: Vec<Vec<&str>> = Vec::new();
    let mut after_operator = false;
    let ghost all = tokens.deep_view();
    let mut i: usize = 0;
    assert(commands.deep_view() =~= Seq::<Seq<char>>::empty());
    assert(arguments.deep_view() =~= Seq::<Seq<Seq<char>>>::empty());
    while i < tokens.len()
        invariant
            i <= tokens.len(),
            all == tokens.deep_view(),
            read_tokens(all.take(i as int)) == (ParseState {
                chain: Chain {
                    commands: commands.deep_view(),
                    operators: operators@,
                    arguments: arguments.deep_view(),
                },
                after_operator,
            }),
        decreases tokens.len() - i,
    {
        let token = tokens[i];
        let ghost before = read_tokens(all.take(i as int));
        proof {
            lemma_read_tokens(all.take(i as int));
            assert(all.take(i + 1).drop_last() =~= all.take(i as int));
        }
        if commands.len() == 0 {
            let none: Vec<&str> = Vec::new();
            assert(none.deep_view() =~= Seq::<Seq<char>>::empty());
            commands.push(token);
            arguments.push(none);
            proof {
                assert(commands.deep_view() =~= seq![token@]);
                assert(arguments.deep_view() =~= seq![Seq::<Seq<char>>::empty()]);
            }
        } else {
            match as_operator(token) {
                Some(operator) => {
                    if operators.len() == commands.len() {
                        let open = operators.len() - 1;
                        operators.set(open, operator);
                    } else {
                        operators.push(operator);
                    }
                    after_operator = true;
                    proof {
                        let open = before.chain.commands.len() - 1;
                        assert(operators@ =~= before.chain.operators.take(open).push(operator));
                    }
                },
                None => {
                    if after_operator {
                        let none: Vec<&str> = Vec::new();
                        assert(none.deep_view() =~= Seq::<Seq<char>>::empty());
                        commands.push(token);
                        arguments.push(none);
                        after_operator = false;
                        proof {
                            assert(commands.deep_view() =~= before.chain.commands.push(token@));
                            assert(arguments.deep_view() =~= before.chain.arguments.push(
                                Seq::empty(),
                            ));
                        }
                    } else {
                        let open = commands.len() - 1;
                        arguments[open].push(token);
                        proof {
                            assert(arguments[open as int].deep_view()
                                =~= before.chain.arguments[open as int].push(token@));
                            assert(arguments.deep_view() =~= before.chain.arguments.update(
                                open as int,
                                before.chain.arguments[open as int].push(token@),
                            ));
                        }
                    }
                },
            }
        }
        i += 1;
    }
    proof {
        assert(all.take(i as int) =~= all);
        lemma_read_tokens(all);
    }
    CommandChain { commands, operators, arguments }
}

} // verus!
