//! Rock-paper-scissors.
use vstd::prelude::*;

use crate::random::gen_range_inclusive;

verus! {

/// A move in rock-paper-scissors.
#[derive(Debug, Clone, Copy, PartialEq, Eq, Hash, Structural)]
pub enum WeaponChoices {
    Rock,
    Paper,
    Scissors,
}

impl WeaponChoices {
    /// The move that `self` beats: rock beats scissors, paper beats rock,
    /// scissors beat paper.
    pub open spec fn spec_beats(self) -> WeaponChoices {
        match self {
            WeaponChoices::Rock => WeaponChoices::Scissors,
            WeaponChoices::Paper => WeaponChoices::Rock,
            WeaponChoices::Scissors => WeaponChoices::Paper,
        }
    }

    /// The name shown to users ("rock", "paper", "scissors").
    pub open spec fn spec_name(self) -> Seq<char> {
        match self {
            WeaponChoices::Rock => "rock"@,
            WeaponChoices::Paper => "paper"@,
            WeaponChoices::Scissors => "scissors"@,
        }
    }

    /// The variant's own name ("Rock", "Paper", "Scissors").
    pub open spec fn spec_variant_name(self) -> Seq<char> {
        match self {
            WeaponChoices::Rock => "Rock"@,
            WeaponChoices::Paper => "Paper"@,
            WeaponChoices::Scissors => "Scissors"@,
        }
    }

    /// The move this one beats.
    pub fn beats(&self) -> (r: WeaponChoices)
        ensures
            r == self.spec_beats(),
    {
        match self {
            WeaponChoices::Rock => WeaponChoices::Scissors,
            WeaponChoices::Paper => WeaponChoices::Rock,
            WeaponChoices::Scissors => WeaponChoices::Paper,
        }
    }

    /// The name shown to users.
    pub fn name(&self) -> (r: &'static str)
        ensures
            r@ == self.spec_name(),
    {
        match self {
            WeaponChoices::Rock => "rock",
            WeaponChoices::Paper => "paper",
            WeaponChoices::Scissors => "scissors",
        }
    }

    /// The variant's own name.
    pub fn variant_name(&self) -> (r: &'static str)
        ensures
            r@ == self.spec_variant_name(),
    {
        match self {
            WeaponChoices::Rock => "Rock",
            WeaponChoices::Paper => "Paper",
            WeaponChoices::Scissors => "Scissors",
        }
    }
}

/// How a round ended, from the user's side.
#[derive(Debug, Clone, Copy, PartialEq, Eq, Structural)]
pub enum Outcome {
    Draw,
    Won,
    Lost,
    Undecided,
}

/// The outcome of `user` against `bot`, tested in the order the bot tests it.
pub open spec fn outcome_of(user: WeaponChoices, bot: WeaponChoices) -> Outcome {
    if user == bot {
        Outcome::Draw
    } else if user.spec_beats() == bot {
        Outcome::Won
    } else if bot.spec_beats() == user {
        Outcome::Lost
    } else {
        Outcome::Undecided
    }
}

/// The reply to a round.
pub open spec fn reply_text(user: WeaponChoices, bot: WeaponChoices) -> Seq<char> {
    match outcome_of(user, bot) {
        Outcome::Draw => "You chose "@ + user.spec_name() + " and it's a draw!\nThe bot chose "@
            + bot.spec_variant_name() + "."@,
        Outcome::Won => "You chose "@ + user.spec_name() + " and you won!\nThe bot chose "@
            + bot.spec_variant_name() + "."@,
        Outcome::Lost => "You chose "@ + user.spec_name() + " lost!\nThe bot chose "@
            + bot.spec_variant_name() + "."@,
        Outcome::Undecided => "An unexpected error occurred."@,
    }
}

/// Decides a round.
pub fn judge(user: WeaponChoices, bot: WeaponChoices) -> (o: Outcome)
    ensures
        o == outcome_of(user, bot),
{
    if user == bot {
        Outcome::Draw
    } else if user.beats() == bot {
        Outcome::Won
    } else if bot.beats() == user {
        Outcome::Lost
    } else {
        Outcome::Undecided
    }
}

/// The reply to `user` when the bot played `bot`.
pub fn rps_reply(user: WeaponChoices, bot: WeaponChoices) -> (r: String)
    ensures
        r@ == reply_text(user, bot),
{
    let (middle, known) = match judge(user, bot) {
        Outcome::Draw => (" and it's a draw!\nThe bot chose ", true),
        Outcome::Won => (" and you won!\nThe bot chose ", true),
        Outcome::Lost => (" lost!\nThe bot chose ", true),
        Outcome::Undecided => ("", false),
    };
    if !known {
        return String::from_str("An unexpected error occurred.");
    }
    let mut r = String::from_str("You chose ");
    r.append(user.name());
    r.append(middle);
    r.append(bot.variant_name());
    r.append(".");
    r
}

/// The move the bot plays for the drawn `index`, in the order rock, paper, scissors.
pub open spec fn weapon_at(index: int) -> WeaponChoices {
    if index == 0 {
        WeaponChoices::Rock
    } else if index == 1 {
        WeaponChoices::Paper
    } else {
        WeaponChoices::Scissors
    }
}

pub fn bot_weapon(index: usize) -> (w: WeaponChoices)
    requires
        index < 3,
    ensures
        w == weapon_at(index as int),
{
    let weapons = [WeaponChoices::Rock, WeaponChoices::Paper, WeaponChoices::Scissors];
    weapons[index]
}

/// Plays a round against `user_choice`. The bot draws its move from all three.
pub fn rps(user_choice: WeaponChoices) -> (r: String)
    ensures
        exists|bot: WeaponChoices| r@ == #[trigger] reply_text(user_choice, bot),
{
    let index = gen_range_inclusive(0, 2);
    let bot_choice = bot_weapon(index as usize);
    rps_reply(user_choice, bot_choice)
}

/// Every round is decided: a draw, a win or a loss.
pub proof fn lemma_round_decided(user: WeaponChoices, bot: WeaponChoices)
    ensures
        outcome_of(user, bot) != Outcome::Undecided,
{
}

/// A round is a draw exactly when both play the same move, and one side wins exactly
/// when the other loses.
pub proof fn lemma_round_mirror(user: WeaponChoices, bot: WeaponChoices)
    ensures
        (outcome_of(user, bot) == Outcome::Draw) == (user == bot),
        (outcome_of(user, bot) == Outcome::Draw) == (outcome_of(bot, user) == Outcome::Draw),
        (outcome_of(user, bot) == Outcome::Won) == (outcome_of(bot, user) == Outcome::Lost),
{
}

/// Each move beats exactly one other move, and the three beat each other in a cycle.
pub proof fn lemma_beats_cycle(w: WeaponChoices)
    ensures
        w.spec_beats() != w,
        w.spec_beats().spec_beats() != w,
        w.spec_beats().spec_beats().spec_beats() == w,
{
}

/// The reply announces a win exactly against the move the user's move beats (rock
/// beats scissors, paper beats rock, scissors beat paper), a loss in the mirrored
/// pairs, and a draw when both play the same move.
pub proof fn lemma_reply_announces_winner(user: WeaponChoices, bot: WeaponChoices)
    ensures
        (user == WeaponChoices::Rock && bot == WeaponChoices::Scissors) || (user
            == WeaponChoices::Paper && bot == WeaponChoices::Rock) || (user
            == WeaponChoices::Scissors && bot == WeaponChoices::Paper) ==> reply_text(user, bot)
            == "You chose "@ + user.spec_name() + " and you won!\nThe bot chose "@
            + bot.spec_variant_name() + "."@,
        (bot == WeaponChoices::Rock && user == WeaponChoices::Scissors) || (bot
            == WeaponChoices::Paper && user == WeaponChoices::Rock) || (bot
            == WeaponChoices::Scissors && user == WeaponChoices::Paper) ==> reply_text(user, bot)
            == "You chose "@ + user.spec_name() + " lost!\nThe bot chose "@
            + bot.spec_variant_name() + "."@,
        user == bot ==> reply_text(user, bot) == "You chose "@ + user.spec_name()
            + " and it's a draw!\nThe bot chose "@ + bot.spec_variant_name() + "."@,
{
}

} // verus!
