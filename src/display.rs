use vstd::prelude::*;
use crate::session::Scoreboard;

verus! {

/// The character of a decimal digit.
pub open spec fn digit_char(d: nat) -> char {
    seq!['0', '1', '2', '3', '4', '5', '6', '7', '8', '9'][d as int]
}

/// The decimal digits of `n`, with no leading zero.
pub open spec fn digits(n: nat) -> Seq<char>
    decreases n,
{
    if n < 10 {
        seq![digit_char(n)]
    } else {
        digits(n / 10).push(digit_char(n % 10))
    }
}

/// `n` written in decimal, with a leading minus sign when negative.
pub open spec fn decimal(n: int) -> Seq<char> {
    if n < 0 {
        seq!['-'] + digits((-n) as nat)
    } else {
        digits(n as nat)
    }
}

pub open spec fn score_line(points: int) -> Seq<char> {
    seq!['S', 'C', 'O', 'R', 'E', ':', ' '] + decimal(points) + seq!['\n']
}

pub open spec fn lives_line(lives: int) -> Seq<char> {
    seq!['L', 'I', 'V', 'E', 'S', ':', ' '] + decimal(lives)
}

/// Relies on `format!` with `{}` on an `i64`, which writes it in decimal.
#[verifier::external_body]
fn format_score(points: i64) -> (r: String)
    ensures
        r@ == score_line(points as int),
{
    format!("SCORE: {}\n", points)
}

/// Relies on `format!` with `{}` on an `i64`, which writes it in decimal.
#[verifier::external_body]
fn format_lives(lives: i64) -> (r: String)
    ensures
        r@ == lives_line(lives as int),
{
    format!("LIVES: {}", lives)
}

impl Scoreboard {
    /// The two lines that show the scoreboard.
    pub fn texts(&self) -> (r: (String, String))
        ensures
            r.0@ == score_line(self.points as int),
            r.1@ == lives_line(self.lives as int),
    {
        (format_score(self.points), format_lives(self.lives))
    }
}

} // verus!
