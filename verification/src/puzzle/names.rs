//! What each piece and each sector is called.
//!
//! The shared piece is a dot. The other pieces of disk `A` are the letters
//! `A`, `B`, `C`, ..; those of disk `B` are numbers that count down.

use super::config::PuzzleConfig;
use super::Grip;
use vstd::prelude::*;
use vstd::string::*;

verus! {

/// The name of the shared piece.
pub open spec fn spec_dot() -> Seq<char> {
    seq!['\u{2022}']
}

/// The `i`-th capital letter, counted from 1.
pub open spec fn spec_letter(i: int) -> char {
    ((64 + i) as u8) as char
}

/// The decimal digit `d`.
pub open spec fn spec_digit(d: int) -> char {
    ((48 + d) as u8) as char
}

/// `n` written in decimal digits.
pub open spec fn spec_decimal(n: nat) -> Seq<char>
    decreases n,
{
    if n < 10 {
        seq![spec_digit(n as int)]
    } else {
        spec_decimal(n / 10).push(spec_digit((n % 10) as int))
    }
}

/// The decimal digit `d` as a string.
fn digit_str(d: u32) -> (r: &'static str)
    requires
        d < 10,
    ensures
        r@ == seq![spec_digit(d as int)],
{
    proof {
        reveal_strlit("0");
        reveal_strlit("1");
        reveal_strlit("2");
        reveal_strlit("3");
        reveal_strlit("4");
        reveal_strlit("5");
        reveal_strlit("6");
        reveal_strlit("7");
        reveal_strlit("8");
        reveal_strlit("9");
    }
    let r = match d {
        0 => "0",
        1 => "1",
        2 => "2",
        3 => "3",
        4 => "4",
        5 => "5",
        6 => "6",
        7 => "7",
        8 => "8",
        _ => "9",
    };
    assert(r@ =~= seq![spec_digit(d as int)]);
    r
}

/// The `i`-th capital letter as a string, for the letters that a disk of the
/// largest size needs.
fn letter_str(i: u32) -> (r: &'static str)
    requires
        1 <= i <= 15,
    ensures
        r@ == seq![spec_letter(i as int)],
{
    proof {
        reveal_strlit("A");
        reveal_strlit("B");
        reveal_strlit("C");
        reveal_strlit("D");
        reveal_strlit("E");
        reveal_strlit("F");
        reveal_strlit("G");
        reveal_strlit("H");
        reveal_strlit("I");
        reveal_strlit("J");
        reveal_strlit("K");
        reveal_strlit("L");
        reveal_strlit("M");
        reveal_strlit("N");
        reveal_strlit("O");
    }
    let r = match i {
        1 => "A",
        2 => "B",
        3 => "C",
        4 => "D",
        5 => "E",
        6 => "F",
        7 => "G",
        8 => "H",
        9 => "I",
        10 => "J",
        11 => "K",
        12 => "L",
        13 => "M",
        14 => "N",
        _ => "O",
    };
    assert(r@ =~= seq![spec_letter(i as int)]);
    r
}

/// `n` written in decimal digits.
pub fn decimal(n: u32) -> (r: String)
    ensures
        r@ == spec_decimal(n as nat),
    decreases n,
{
    if n < 10 {
        String::from_str(digit_str(n))
    } else {
        let mut s: String = decimal(n / 10);
        s.append(digit_str(n % 10));
        assert(s@ =~= spec_decimal(n as nat));
        s
    }
}

/// The name of the shared piece.
pub fn dot() -> (r: String)
    ensures
        r@ == spec_dot(),
{
    proof {
        reveal_strlit("\u{2022}");
    }
    let r = String::from_str("\u{2022}");
    assert(r@ =~= spec_dot());
    r
}

impl PuzzleConfig {
    /// The name of sector `i` of `grip`: the dot for the sector of the shared
    /// cell, letters onwards from `A` on disk `A`, and on disk `B` the numbers
    /// from one less than its size down to 1.
    pub open spec fn spec_sector_name(self, grip: Grip, i: u32) -> Seq<char> {
        if i == 0 {
            spec_dot()
        } else {
            match grip {
                Grip::A => seq![spec_letter(i as int)],
                Grip::B => spec_decimal((self.b - i) as nat),
            }
        }
    }

    /// The name of piece `i`: the dot for the shared piece, letters for the
    /// other pieces of disk `A`, numbers that count down for those of disk
    /// `B`.
    pub open spec fn spec_sticker_name(self, i: u32) -> Seq<char> {
        if i == 0 {
            spec_dot()
        } else if i < self.a {
            seq![spec_letter(i as int)]
        } else {
            spec_decimal((self.a + self.b - 1 - i) as nat)
        }
    }

    /// The name of sector `i` of `grip`.
    pub fn sector_name(self, grip: Grip, i: u32) -> (r: String)
        requires
            self.valid(),
            i < self.n(grip),
        ensures
            r@ == self.spec_sector_name(grip, i),
    {
        if i == 0 {
            return dot();
        }
        match grip {
            Grip::A => String::from_str(letter_str(i)),
            Grip::B => decimal(self.b - i),
        }
    }

    /// The name of piece `i`.
    pub fn sticker_name(self, i: u32) -> (r: String)
        requires
            self.valid(),
            i < self.a + self.b - 1,
        ensures
            r@ == self.spec_sticker_name(i),
    {
        if i == 0 {
            return dot();
        }
        if i < self.n(Grip::A) {
            String::from_str(letter_str(i))
        } else {
            decimal(self.a + self.b - 1 - i)
        }
    }
}

/// A piece has the name of the sector in which it lies when the puzzle is
/// solved.
pub proof fn lemma_names_agree(config: PuzzleConfig, grip: Grip, i: u32)
    requires
        config.valid(),
        i < config.n(grip),
    ensures
        config.spec_sticker_name(config.spec_color_index_in_grip(grip, i))
            == config.spec_sector_name(grip, i),
{
}

} // verus!
