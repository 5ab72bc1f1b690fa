//! The editorial desk of a facts pipeline: each incoming fact is passed
//! on, quietly amended, or suppressed. The channels and the waiting belong
//! to the program around the library; the decision for one message is here.

use vstd::prelude::*;

verus! {

use vstd::string::StringExecFns;

/// What travels through the pipeline: a fact, or the signal to stop.
#[derive(Debug)]
pub enum Message {
    /// One fact, as published.
    Fact(String),
    /// The end of the stream.
    Stop,
}

/// `sub` occurs in `s` as a contiguous run.
pub open spec fn contains_sub(s: Seq<char>, sub: Seq<char>) -> bool {
    exists|i: int|
        0 <= i && i + sub.len() <= s.len() && #[trigger] s.subrange(i, i + sub.len()) == sub
}

/// What an amended fact must read: facts touching climate change gain a
/// soothing disclaimer, everything else stays as it was.
pub open spec fn alt_fact_spec(fact: Seq<char>) -> Seq<char> {
    if contains_sub(fact, "climate change"@) {
        fact
            + " Climate change is not real; if it is real it is not man made; the best action is inaction anyway."@
    } else {
        fact
    }
}

/// Relies on `str::contains` with a `&str` pattern: true exactly when the
/// needle occurs in the haystack as a contiguous substring.
#[verifier::external_body]
fn contains_str(s: &str, needle: &str) -> (r: bool)
    ensures
        r == contains_sub(s@, needle@),
{
    s.contains(needle)
}

/// Whether publishing the fact would hurt the bottom line.
pub fn affects_profit(fact: &str) -> (r: bool)
    ensures
        r == contains_sub(fact@, "tobacco can cause"@),
{
    contains_str(fact, "tobacco can cause")
}

/// Amends a fact: one touching climate change gains the disclaimer,
/// everything else passes unchanged.
pub fn to_alt_fact(fact: String) -> (r: String)
    ensures
        r@ == alt_fact_spec(fact@),
{
    if contains_str(fact.as_str(), "climate change") {
        fact.concat(
            " Climate change is not real; if it is real it is not man made; the best action is inaction anyway.",
        )
    } else {
        fact
    }
}

/// The desk's decision for one message: `Stop` passes through, a fact that
/// affects profit is suppressed (`None`), and any other fact is passed on
/// amended.
pub fn minitrue_step(msg: Message) -> (r: Option<Message>)
    ensures
        match msg {
            Message::Stop => r matches Some(Message::Stop),
            Message::Fact(fact) => {
                if contains_sub(fact@, "tobacco can cause"@) {
                    r is None
                } else {
                    r matches Some(Message::Fact(published)) && published@ == alt_fact_spec(fact@)
                }
            },
        },
{
    match msg {
        Message::Stop => Some(Message::Stop),
        Message::Fact(fact) => {
            if affects_profit(fact.as_str()) {
                None
            } else {
                Some(Message::Fact(to_alt_fact(fact)))
            }
        },
    }
}

} // verus!
