//! The operator's command vocabulary.

use vstd::prelude::*;

verus! {

/// A command an operator can give a node.
#[derive(Debug, Clone, Copy, PartialEq, Eq, Structural)]
pub enum ReplCommand {
    /// Mint a block on top of the tip and broadcast it.
    NewBlock,
    /// Print the chain.
    ShowChain,
    /// End the process.
    Exit,
    /// List the connected peers.
    ListPeers,
    /// Show the tip's number and time.
    Latest,
    /// List the commands.
    Help,
}

/// The command a keyword names, if any.
pub open spec fn command_for(word: Seq<char>) -> Option<ReplCommand> {
    if word == "mint-block"@ {
        Some(ReplCommand::NewBlock)
    } else if word == "print-chain"@ {
        Some(ReplCommand::ShowChain)
    } else if word == "quit"@ {
        Some(ReplCommand::Exit)
    } else if word == "list-peers"@ {
        Some(ReplCommand::ListPeers)
    } else if word == "show-latest-block-summary"@ {
        Some(ReplCommand::Latest)
    } else if word == "help"@ {
        Some(ReplCommand::Help)
    } else {
        None
    }
}

/// The first whitespace-separated word of a line, if it has one.
pub uninterp spec fn first_word_of(line: Seq<char>) -> Option<Seq<char>>;

/// Relies on `str::split_whitespace`: its first item, the line's first
/// word, which depends on the line alone.
#[verifier::external_body]
fn first_word(line: &str) -> (r: Option<String>)
    ensures
        match r {
            Some(w) => first_word_of(line@) == Some(w@),
            None => first_word_of(line@).is_none(),
        },
{
    line.split_whitespace().next().map(|w| w.to_owned())
}

/// Tells whether `word` is the keyword `k`.
fn is_keyword(word: &String, k: &str) -> (r: bool)
    ensures
        r == (word@ == k@),
{
    *word == k.to_owned()
}

impl ReplCommand {
    /// Every command, in the order the help text lists them.
    pub fn variants() -> (r: Vec<ReplCommand>)
        ensures
            r@ == seq![
                ReplCommand::NewBlock,
                ReplCommand::ShowChain,
                ReplCommand::ListPeers,
                ReplCommand::Latest,
                ReplCommand::Exit,
                ReplCommand::Help,
            ],
    {
        let r = vec![
            ReplCommand::NewBlock,
            ReplCommand::ShowChain,
            ReplCommand::ListPeers,
            ReplCommand::Latest,
            ReplCommand::Exit,
            ReplCommand::Help,
        ];
        assert(r@ =~= seq![
            ReplCommand::NewBlock,
            ReplCommand::ShowChain,
            ReplCommand::ListPeers,
            ReplCommand::Latest,
            ReplCommand::Exit,
            ReplCommand::Help,
        ]);
        r
    }

    /// The command that the first word of an operator's input line names.
    pub fn parse(input: String) -> (r: Result<ReplCommand, String>)
        ensures
            first_word_of(input@).is_none() ==> (r matches Err(e) && e@ == "no input"@),
            first_word_of(input@) matches Some(w) ==> match command_for(w) {
                Some(c) => r == Ok::<ReplCommand, String>(c),
                None => (r matches Err(e) && e@ == "Unrecognized input"@),
            },
    {
        ReplCommand::from_word(first_word(input.as_str()))
    }

    /// The command that a word names; `word` is `None` for a line that
    /// holds no word.
    pub fn from_word(word: Option<String>) -> (r: Result<ReplCommand, String>)
        ensures
            word.is_none() ==> (r matches Err(e) && e@ == "no input"@),
            word matches Some(w) ==> match command_for(w@) {
                Some(c) => r == Ok::<ReplCommand, String>(c),
                None => (r matches Err(e) && e@ == "Unrecognized input"@),
            },
    {
        match word {
            None => Err("no input".to_owned()),
            Some(w) => {
                if is_keyword(&w, "mint-block") {
                    Ok(ReplCommand::NewBlock)
                } else if is_keyword(&w, "print-chain") {
                    Ok(ReplCommand::ShowChain)
                } else if is_keyword(&w, "quit") {
                    Ok(ReplCommand::Exit)
                } else if is_keyword(&w, "list-peers") {
                    Ok(ReplCommand::ListPeers)
                } else if is_keyword(&w, "show-latest-block-summary") {
                    Ok(ReplCommand::Latest)
                } else if is_keyword(&w, "help") {
                    Ok(ReplCommand::Help)
                } else {
                    Err("Unrecognized input".to_owned())
                }
            },
        }
    }

    /// One line of help text for the command.
    pub fn help_string(&self) -> (r: String)
        ensures
            r@ == match *self {
                ReplCommand::NewBlock => "mint-block - create a new block"@,
                ReplCommand::ShowChain => "print-chain - print the chain"@,
                ReplCommand::Exit => "quit - close the client"@,
                ReplCommand::ListPeers => "list-peers - list the connected peers"@,
                ReplCommand::Latest => "show-latest-block-summary - show some info about the latest block"@,
                ReplCommand::Help => "help - display this list"@,
            },
    {
        match self {
            ReplCommand::NewBlock => "mint-block - create a new block",
            ReplCommand::ShowChain => "print-chain - print the chain",
            ReplCommand::Exit => "quit - close the client",
            ReplCommand::ListPeers => "list-peers - list the connected peers",
            ReplCommand::Latest => "show-latest-block-summary - show some info about the latest block",
            ReplCommand::Help => "help - display this list",
        }.to_owned()
    }
}

/// Splits a nanosecond count into whole seconds and the nanoseconds left.
pub fn ns_to_spec(ns: u64) -> (r: (i64, i32))
    ensures
        r.0 == ns / 1_000_000_000,
        r.1 == ns % 1_000_000_000,
{
    ((ns / 1_000_000_000) as i64, (ns % 1_000_000_000) as i32)
}

} // verus!
