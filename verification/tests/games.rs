use discord_bot::random::{coinflip, diceroll, rng};
use discord_bot::rps::{bot_weapon, judge, rps, rps_reply, Outcome, WeaponChoices};

const ALL: [WeaponChoices; 3] = [WeaponChoices::Rock, WeaponChoices::Paper, WeaponChoices::Scissors];

#[test]
fn rps_draw_reply() {
    assert_eq!(
        rps_reply(WeaponChoices::Rock, WeaponChoices::Rock),
        "You chose rock and it's a draw!\nThe bot chose Rock."
    );
}

#[test]
fn rps_win_reply() {
    assert_eq!(
        rps_reply(WeaponChoices::Paper, WeaponChoices::Rock),
        "You chose paper and you won!\nThe bot chose Rock."
    );
    assert_eq!(
        rps_reply(WeaponChoices::Scissors, WeaponChoices::Paper),
        "You chose scissors and you won!\nThe bot chose Paper."
    );
}

#[test]
fn rps_loss_reply() {
    assert_eq!(
        rps_reply(WeaponChoices::Scissors, WeaponChoices::Rock),
        "You chose scissors lost!\nThe bot chose Rock."
    );
}

#[test]
fn rps_every_round_decided_and_mirrored() {
    for u in ALL {
        for b in ALL {
            let o = judge(u, b);
            assert_ne!(o, Outcome::Undecided);
            assert_eq!(o == Outcome::Draw, u == b);
            assert_eq!(o == Outcome::Won, judge(b, u) == Outcome::Lost);
            assert!(rps_reply(u, b).starts_with("You chose "));
        }
    }
}

#[test]
fn rps_beats_cycle() {
    for w in ALL {
        assert_ne!(w.beats(), w);
        assert_eq!(w.beats().beats().beats(), w);
    }
    assert_eq!(WeaponChoices::Rock.beats(), WeaponChoices::Scissors);
}

#[test]
fn rps_names() {
    assert_eq!(WeaponChoices::Scissors.name(), "scissors");
    assert_eq!(WeaponChoices::Scissors.variant_name(), "Scissors");
}

#[test]
fn rps_bot_plays_every_move() {
    assert_eq!(bot_weapon(0), WeaponChoices::Rock);
    assert_eq!(bot_weapon(1), WeaponChoices::Paper);
    assert_eq!(bot_weapon(2), WeaponChoices::Scissors);
    let mut seen = [false; 3];
    for _ in 0..300 {
        let r = rps(WeaponChoices::Scissors);
        let i = ALL
            .iter()
            .position(|b| r == rps_reply(WeaponChoices::Scissors, *b))
            .expect("a reply to one of the three moves");
        seen[i] = true;
    }
    assert_eq!(seen, [true, true, true]);
}

#[test]
fn coinflip_sides() {
    assert_eq!(coinflip(0), "It's Heads!");
    assert_eq!(coinflip(1), "It's Tails!");
}

#[test]
fn diceroll_too_few_sides() {
    assert_eq!(diceroll(1), "Enter a number that is greater than 1");
    assert_eq!(diceroll(-5), "Enter a number that is greater than 1");
}

#[test]
fn diceroll_in_range() {
    let mut seen = [false; 7];
    for _ in 0..600 {
        let n: i32 = diceroll(6).parse().unwrap();
        assert!((1..=6).contains(&n));
        seen[n as usize] = true;
    }
    assert_eq!(&seen[1..], &[true; 6]);
    for _ in 0..50 {
        let r = diceroll(2);
        assert!(r == "1" || r == "2");
    }
    let big: i64 = diceroll(i32::MAX).parse().unwrap();
    assert!(1 <= big && big <= i32::MAX as i64);
}

#[test]
fn rng_empty_range() {
    assert_eq!(rng(5, 5), "Min should be less than max");
    assert_eq!(rng(6, 5), "Min should be less than max");
}

#[test]
fn rng_in_range() {
    assert_eq!(rng(-3, -2), "-3");
    assert_eq!(rng(i32::MIN, i32::MIN + 1), "-2147483648");
    for _ in 0..100 {
        let n: i32 = rng(-10, 10).parse().unwrap();
        assert!((-10..10).contains(&n));
    }
}
