//! Fixed replies: ping, the server's address, and polls.
use vstd::prelude::*;

verus! {

/// The answer to a ping.
pub fn ping() -> (r: String)
    ensures
        r@ == "Pong"@,
{
    String::from_str("Pong")
}

/// The address of the server the bot runs on.
pub fn ip() -> (r: String)
    ensures
        r@ == "64.227.172.38"@,
{
    String::from_str("64.227.172.38")
}

/// A poll: the prompt is posted as it stands, then the bot reacts to it with
/// each of `reactions` in order.
#[derive(Debug)]
pub struct Poll {
    pub prompt: String,
    pub reactions: Vec<String>,
}

/// Sets up a poll on `prompt`, answered with a check mark or a cross.
pub fn poll(prompt: String) -> (r: Poll)
    ensures
        r.prompt@ == prompt@,
        r.reactions@.len() == 2,
        r.reactions@[0]@ == "✅"@,
        r.reactions@[1]@ == "❌"@,
{
    let mut reactions: Vec<String> = Vec::new();
    reactions.push(String::from_str("✅"));
    reactions.push(String::from_str("❌"));
    Poll { prompt, reactions }
}

} // verus!
