//! The choices of the commands that look players up: whom a message names,
//! which score is asked for, and what is answered when the lookup has ended.

use crate::number::{decimal_text, parse_unsigned, push_decimal, unsigned};
use crate::utils::words::{first_word, first_word_bytes};
use vstd::prelude::*;
use vstd::utf8::encode_utf8;

verus! {

/// Whom a lookup is about: a player by number or by name.
#[derive(Debug, PartialEq, Eq)]
pub enum UserId {
    /// The player with this number.
    Id(u32),
    /// The player with this name.
    Name(String),
}

/// A `UserId` by the text of its name.
pub ghost enum Player {
    /// The player with this number.
    Id(u32),
    /// The player with this name.
    Name(Seq<char>),
}

impl View for UserId {
    type V = Player;

    open spec fn view(&self) -> Player {
        match *self {
            UserId::Id(id) => Player::Id(id),
            UserId::Name(name) => Player::Name(name@),
        }
    }
}

/// Whom `input` names.
///
/// Empty input names nobody. If the first word of the input reads as an
/// unsigned 32-bit number, the player is the one with that number, whatever
/// follows the word. In every other case the whole input, as it stands, is
/// the player's name.
pub open spec fn named(input: Seq<char>) -> Option<Player> {
    if input.len() == 0 {
        None
    } else {
        match unsigned(encode_utf8(first_word(input))) {
            Some(id) => Some(Player::Id(id)),
            None => Some(Player::Name(input)),
        }
    }
}

/// Reads whom `input` names.
pub fn parse_user_id(input: &str) -> (user: Option<UserId>)
    ensures
        match user {
            Some(user) => named(input@) == Some(user@),
            None => named(input@) is None,
        },
{
    if input.is_empty() {
        return None;
    }
    match parse_unsigned(first_word_bytes(input)) {
        Some(id) => Some(UserId::Id(id)),
        None => Some(UserId::Name(String::from_str(input))),
    }
}

/// Which of a player's recent scores is asked for.
#[derive(Debug, PartialEq, Eq)]
pub struct RecentArgs {
    /// The player.
    pub user: UserId,
    /// The place of the score among the recent ones, the latest being 1.
    pub idx: Option<u32>,
    /// Whether failed plays count.
    pub include_fails: bool,
}

/// A `RecentArgs` by the text of the player's name.
pub ghost struct Recent {
    /// The player.
    pub user: Player,
    /// The place of the score among the recent ones.
    pub idx: Option<u32>,
    /// Whether failed plays count.
    pub include_fails: bool,
}

impl View for RecentArgs {
    type V = Recent;

    open spec fn view(&self) -> Recent {
        Recent { user: self.user@, idx: self.idx, include_fails: self.include_fails }
    }
}

impl RecentArgs {
    /// How many scores come before the one asked for: none where no place is
    /// given, and none for the places 0 and 1.
    pub open spec fn skipped(idx: Option<u32>) -> int {
        match idx {
            Some(place) => if place > 0 {
                place - 1
            } else {
                0
            },
            None => 0,
        }
    }

    /// The number of scores to pass over before the one asked for.
    pub fn offset(&self) -> (skip: usize)
        ensures
            skip == Self::skipped(self.idx),
    {
        match self.idx {
            Some(place) => if place > 0 {
                (place - 1) as usize
            } else {
                0
            },
            None => 0,
        }
    }
}

/// Why a lookup gave no answer.
#[derive(Clone, Copy, Debug, PartialEq, Eq, Structural)]
pub enum Failure {
    /// The service knows no such player.
    NotFound,
    /// Anything else: the service could not be reached, or answered what
    /// could not be used.
    Other,
}

/// What a command sends back, and whether the command has failed.
#[derive(Debug, PartialEq, Eq)]
pub struct Answer {
    /// The text to send.
    pub text: String,
    /// Whether the failure of the lookup is the failure of the command.
    pub failed: bool,
}

/// What is answered to a lookup that ended as `found`.
///
/// An answer that was found is sent as it is. A player that the service does
/// not know is a mistake of the asker, who is told so, and the command has
/// done its work. Any other failure is told as the service being out of
/// reach, and is the command's failure too.
pub open spec fn answer_to(found: Result<Seq<char>, Failure>) -> (Seq<char>, bool) {
    match found {
        Ok(text) => (text, false),
        Err(Failure::NotFound) => ("couldn't find user"@, false),
        Err(Failure::Other) => ("couldn't reach osu!api"@, true),
    }
}

/// The view of a lookup's end.
pub open spec fn found_view(found: Result<String, Failure>) -> Result<Seq<char>, Failure> {
    match found {
        Ok(text) => Ok(text@),
        Err(failure) => Err(failure),
    }
}

fn answer(found: Result<String, Failure>) -> (answer: Answer)
    ensures
        (answer.text@, answer.failed) == answer_to(found_view(found)),
{
    match found {
        Ok(text) => Answer { text, failed: false },
        Err(Failure::NotFound) => Answer {
            text: String::from_str("couldn't find user"),
            failed: false,
        },
        Err(Failure::Other) => Answer {
            text: String::from_str("couldn't reach osu!api"),
            failed: true,
        },
    }
}

/// Answers the lookup of a player, which ended as `found`.
pub fn handle_osu(found: Result<String, Failure>) -> (answer: Answer)
    ensures
        (answer.text@, answer.failed) == answer_to(found_view(found)),
{
    answer(found)
}

/// Answers the lookup of a recent score, which ended as `found`.
pub fn handle_recent(found: Result<String, Failure>) -> (answer: Answer)
    ensures
        (answer.text@, answer.failed) == answer_to(found_view(found)),
{
    answer(found)
}

/// What is sent to someone who named no player.
pub fn require_user_id() -> (text: &'static str)
    ensures
        text@ == "missing username"@,
{
    "missing username"
}

/// What an answer about a player holds. Numbers that are no whole numbers
/// are held as they are to be written.
#[derive(Clone, Copy, Debug)]
pub struct Profile<'a> {
    /// The player's name.
    pub username: &'a str,
    /// The code of the player's country.
    pub country_code: &'a str,
    /// The player's performance points, as written.
    pub pp: &'a str,
    /// The player's rank among all players, if the player has one.
    pub global_rank: Option<u32>,
    /// The player's rank in the country, if the player has one.
    pub country_rank: Option<u32>,
    /// The player's ranked score.
    pub ranked_score: u64,
}

/// How a rank is written: by its number, or `-` where there is none.
pub open spec fn rank_text(rank: Option<u32>) -> Seq<char> {
    match rank {
        Some(rank) => decimal_text(rank as nat),
        None => "-"@,
    }
}

/// Appends `rank` as `rank_text` writes it.
fn push_rank(out: &mut String, rank: Option<u32>)
    ensures
        final(out)@ == old(out)@ + rank_text(rank),
{
    match rank {
        Some(rank) => push_decimal(out, rank as u128),
        None => out.append("-"),
    }
}

impl<'a> Profile<'a> {
    /// The answer about the player, in two lines.
    pub open spec fn text(self) -> Seq<char> {
        self.username@ + " - "@ + self.pp@ + "pp (#"@ + rank_text(self.global_rank) + ") ("@
            + self.country_code@ + "#"@ + rank_text(self.country_rank) + ")\nRanked Score: "@
            + decimal_text(self.ranked_score as nat)
    }
}

/// Writes the answer about a player.
pub fn format_user(user: &Profile) -> (text: String)
    ensures
        text@ == user.text(),
{
    let mut text = String::from_str(user.username);
    text.append(" - ");
    text.append(user.pp);
    text.append("pp (#");
    push_rank(&mut text, user.global_rank);
    text.append(") (");
    text.append(user.country_code);
    text.append("#");
    push_rank(&mut text, user.country_rank);
    text.append(")\nRanked Score: ");
    push_decimal(&mut text, user.ranked_score as u128);
    assert(text@ =~= user.text());
    text
}

/// What an answer about a score holds. Numbers that are no whole numbers
/// are held as they are to be written.
#[derive(Clone, Copy, Debug)]
pub struct Play<'a> {
    /// The number of the map that was played.
    pub map_id: u32,
    /// The grade of the play.
    pub grade: &'a str,
    /// The mods of the play.
    pub mods: &'a str,
    /// The accuracy of the play in percent.
    pub accuracy: &'a str,
    /// Whether the play was a full combo.
    pub perfect: bool,
    /// The number of misses.
    pub count_miss: u32,
    /// The performance points of the play, if it has any.
    pub pp: Option<&'a str>,
    /// The circle size of the map with the mods of the play.
    pub cs: &'a str,
    /// The approach rate.
    pub ar: &'a str,
    /// The overall difficulty.
    pub od: &'a str,
    /// The star rating.
    pub stars: &'a str,
    /// The performance points that a full combo would have given.
    pub fc_pp: &'a str,
    /// When the play ended, as told to the reader.
    pub date: &'a str,
}

impl<'a> Play<'a> {
    /// Full combo or the number of misses.
    pub open spec fn combo_text(self) -> Seq<char> {
        if self.perfect {
            "FC "@
        } else {
            decimal_text(self.count_miss as nat) + "m "@
        }
    }

    /// The figures of the map.
    pub open spec fn map_text(self) -> Seq<char> {
        "CS"@ + self.cs@ + " AR"@ + self.ar@ + " OD"@ + self.od@ + " \u{e2}\u{2dc}\u{2026}"@
            + self.stars@
    }

    /// The performance points of the play, where it has any.
    pub open spec fn pp_text(self) -> Seq<char> {
        match self.pp {
            Some(pp) => " "@ + pp@ + "pp"@,
            None => Seq::<char>::empty(),
        }
    }

    /// What a full combo would have given, where the play was none.
    pub open spec fn fc_text(self) -> Seq<char> {
        if self.perfect {
            Seq::<char>::empty()
        } else {
            " >> "@ + self.fc_pp@ + "pp if FC"@
        }
    }

    /// The answer about the score, in one line.
    pub open spec fn text(self) -> Seq<char> {
        "https://osu.ppy.sh/b/"@ + decimal_text(self.map_id as nat) + " "@ + self.grade@ + " +"@
            + self.mods@ + " "@ + self.accuracy@ + "% "@ + self.combo_text() + self.map_text()
            + self.pp_text() + self.fc_text() + " - "@ + self.date@
    }
}

/// Writes the answer about a score.
pub fn format_score(play: &Play) -> (text: String)
    ensures
        text@ == play.text(),
{
    let mut text = String::from_str("https://osu.ppy.sh/b/");
    push_decimal(&mut text, play.map_id as u128);
    text.append(" ");
    text.append(play.grade);
    text.append(" +");
    text.append(play.mods);
    text.append(" ");
    text.append(play.accuracy);
    text.append("% ");
    if play.perfect {
        text.append("FC ");
    } else {
        push_decimal(&mut text, play.count_miss as u128);
        text.append("m ");
    }
    let ghost head = text@;
    assert(head =~= "https://osu.ppy.sh/b/"@ + decimal_text(play.map_id as nat) + " "@ + play.grade@
        + " +"@ + play.mods@ + " "@ + play.accuracy@ + "% "@ + play.combo_text());
    text.append("CS");
    text.append(play.cs);
    text.append(" AR");
    text.append(play.ar);
    text.append(" OD");
    text.append(play.od);
    text.append(" \u{e2}\u{2dc}\u{2026}");
    text.append(play.stars);
    assert(text@ =~= head + play.map_text());
    if let Some(pp) = play.pp {
        text.append(" ");
        text.append(pp);
        text.append("pp");
    }
    assert(text@ =~= head + play.map_text() + play.pp_text());
    if !play.perfect {
        text.append(" >> ");
        text.append(play.fc_pp);
        text.append("pp if FC");
    }
    assert(text@ =~= head + play.map_text() + play.pp_text() + play.fc_text());
    text.append(" - ");
    text.append(play.date);
    assert(text@ =~= play.text());
    text
}

/// Writes the answer about the first of the scores that a lookup found, or
/// says that it found none.
pub fn get_recent(found: Option<&Play>) -> (text: String)
    ensures
        text@ == match found {
            Some(play) => play.text(),
            None => "no recent scores found"@,
        },
{
    match found {
        Some(play) => format_score(play),
        None => String::from_str("no recent scores found"),
    }
}

} // verus!
