//! The boards of the imageboard and their static properties.

use vstd::prelude::*;

use crate::text::same_text;

verus! {

/// The number of boards that the site hosts.
pub const BOARD_COUNT: usize = 72;

/// A board of the site, named by its code (`/a/`, `/g/`, `/3/`, ...).
#[derive(Clone, Copy, Debug, PartialEq, Eq, Structural, Hash, PartialOrd, Ord)]
pub enum Board {
    Three,
    A,
    Aco,
    Adv,
    An,
    Asp,
    B,
    Bant,
    Biz,
    C,
    Cgl,
    Ck,
    Cm,
    Co,
    D,
    Diy,
    E,
    F,
    Fa,
    Fit,
    G,
    Gd,
    Gif,
    H,
    Hc,
    His,
    Hm,
    Hr,
    I,
    Ic,
    Int,
    Jp,
    K,
    Lgbt,
    Lit,
    M,
    Mlp,
    Mu,
    N,
    News,
    O,
    Out,
    P,
    Po,
    Pol,
    Qa,
    Qst,
    R,
    R9k,
    S,
    S4s,
    Sci,
    Soc,
    Sp,
    T,
    Tg,
    Toy,
    Trash,
    Trv,
    Tv,
    U,
    V,
    Vg,
    Vip,
    Vp,
    Vr,
    W,
    Wg,
    Wsg,
    Wsr,
    X,
    Y,
}

impl Board {
    /// The board's code, as it stands in the site's URLs.
    pub open spec fn spec_name(self) -> Seq<char> {
        match self {
            Board::Three => "3"@,
            Board::A => "a"@,
            Board::Aco => "aco"@,
            Board::Adv => "adv"@,
            Board::An => "an"@,
            Board::Asp => "asp"@,
            Board::B => "b"@,
            Board::Bant => "bant"@,
            Board::Biz => "biz"@,
            Board::C => "c"@,
            Board::Cgl => "cgl"@,
            Board::Ck => "ck"@,
            Board::Cm => "cm"@,
            Board::Co => "co"@,
            Board::D => "d"@,
            Board::Diy => "diy"@,
            Board::E => "e"@,
            Board::F => "f"@,
            Board::Fa => "fa"@,
            Board::Fit => "fit"@,
            Board::G => "g"@,
            Board::Gd => "gd"@,
            Board::Gif => "gif"@,
            Board::H => "h"@,
            Board::Hc => "hc"@,
            Board::His => "his"@,
            Board::Hm => "hm"@,
            Board::Hr => "hr"@,
            Board::I => "i"@,
            Board::Ic => "ic"@,
            Board::Int => "int"@,
            Board::Jp => "jp"@,
            Board::K => "k"@,
            Board::Lgbt => "lgbt"@,
            Board::Lit => "lit"@,
            Board::M => "m"@,
            Board::Mlp => "mlp"@,
            Board::Mu => "mu"@,
            Board::N => "n"@,
            Board::News => "news"@,
            Board::O => "o"@,
            Board::Out => "out"@,
            Board::P => "p"@,
            Board::Po => "po"@,
            Board::Pol => "pol"@,
            Board::Qa => "qa"@,
            Board::Qst => "qst"@,
            Board::R => "r"@,
            Board::R9k => "r9k"@,
            Board::S => "s"@,
            Board::S4s => "s4s"@,
            Board::Sci => "sci"@,
            Board::Soc => "soc"@,
            Board::Sp => "sp"@,
            Board::T => "t"@,
            Board::Tg => "tg"@,
            Board::Toy => "toy"@,
            Board::Trash => "trash"@,
            Board::Trv => "trv"@,
            Board::Tv => "tv"@,
            Board::U => "u"@,
            Board::V => "v"@,
            Board::Vg => "vg"@,
            Board::Vip => "vip"@,
            Board::Vp => "vp"@,
            Board::Vr => "vr"@,
            Board::W => "w"@,
            Board::Wg => "wg"@,
            Board::Wsg => "wsg"@,
            Board::Wsr => "wsr"@,
            Board::X => "x"@,
            Board::Y => "y"@,
        }
    }

    /// The board's position in the list of all boards.
    pub open spec fn spec_index(self) -> nat {
        match self {
            Board::Three => 0,
            Board::A => 1,
            Board::Aco => 2,
            Board::Adv => 3,
            Board::An => 4,
            Board::Asp => 5,
            Board::B => 6,
            Board::Bant => 7,
            Board::Biz => 8,
            Board::C => 9,
            Board::Cgl => 10,
            Board::Ck => 11,
            Board::Cm => 12,
            Board::Co => 13,
            Board::D => 14,
            Board::Diy => 15,
            Board::E => 16,
            Board::F => 17,
            Board::Fa => 18,
            Board::Fit => 19,
            Board::G => 20,
            Board::Gd => 21,
            Board::Gif => 22,
            Board::H => 23,
            Board::Hc => 24,
            Board::His => 25,
            Board::Hm => 26,
            Board::Hr => 27,
            Board::I => 28,
            Board::Ic => 29,
            Board::Int => 30,
            Board::Jp => 31,
            Board::K => 32,
            Board::Lgbt => 33,
            Board::Lit => 34,
            Board::M => 35,
            Board::Mlp => 36,
            Board::Mu => 37,
            Board::N => 38,
            Board::News => 39,
            Board::O => 40,
            Board::Out => 41,
            Board::P => 42,
            Board::Po => 43,
            Board::Pol => 44,
            Board::Qa => 45,
            Board::Qst => 46,
            Board::R => 47,
            Board::R9k => 48,
            Board::S => 49,
            Board::S4s => 50,
            Board::Sci => 51,
            Board::Soc => 52,
            Board::Sp => 53,
            Board::T => 54,
            Board::Tg => 55,
            Board::Toy => 56,
            Board::Trash => 57,
            Board::Trv => 58,
            Board::Tv => 59,
            Board::U => 60,
            Board::V => 61,
            Board::Vg => 62,
            Board::Vip => 63,
            Board::Vp => 64,
            Board::Vr => 65,
            Board::W => 66,
            Board::Wg => 67,
            Board::Wsg => 68,
            Board::Wsr => 69,
            Board::X => 70,
            Board::Y => 71,
        }
    }

    /// The board at a position in the list of all boards.
    pub open spec fn spec_from_index(i: nat) -> Board
        recommends
            i < BOARD_COUNT,
    {
        if i == 0 {
            Board::Three
        }         else if i == 1 {
            Board::A
        }         else if i == 2 {
            Board::Aco
        }         else if i == 3 {
            Board::Adv
        }         else if i == 4 {
            Board::An
        }         else if i == 5 {
            Board::Asp
        }         else if i == 6 {
            Board::B
        }         else if i == 7 {
            Board::Bant
        }         else if i == 8 {
            Board::Biz
        }         else if i == 9 {
            Board::C
        }         else if i == 10 {
            Board::Cgl
        }         else if i == 11 {
            Board::Ck
        }         else if i == 12 {
            Board::Cm
        }         else if i == 13 {
            Board::Co
        }         else if i == 14 {
            Board::D
        }         else if i == 15 {
            Board::Diy
        }         else if i == 16 {
            Board::E
        }         else if i == 17 {
            Board::F
        }         else if i == 18 {
            Board::Fa
        }         else if i == 19 {
            Board::Fit
        }         else if i == 20 {
            Board::G
        }         else if i == 21 {
            Board::Gd
        }         else if i == 22 {
            Board::Gif
        }         else if i == 23 {
            Board::H
        }         else if i == 24 {
            Board::Hc
        }         else if i == 25 {
            Board::His
        }         else if i == 26 {
            Board::Hm
        }         else if i == 27 {
            Board::Hr
        }         else if i == 28 {
            Board::I
        }         else if i == 29 {
            Board::Ic
        }         else if i == 30 {
            Board::Int
        }         else if i == 31 {
            Board::Jp
        }         else if i == 32 {
            Board::K
        }         else if i == 33 {
            Board::Lgbt
        }         else if i == 34 {
            Board::Lit
        }         else if i == 35 {
            Board::M
        }         else if i == 36 {
            Board::Mlp
        }         else if i == 37 {
            Board::Mu
        }         else if i == 38 {
            Board::N
        }         else if i == 39 {
            Board::News
        }         else if i == 40 {
            Board::O
        }         else if i == 41 {
            Board::Out
        }         else if i == 42 {
            Board::P
        }         else if i == 43 {
            Board::Po
        }         else if i == 44 {
            Board::Pol
        }         else if i == 45 {
            Board::Qa
        }         else if i == 46 {
            Board::Qst
        }         else if i == 47 {
            Board::R
        }         else if i == 48 {
            Board::R9k
        }         else if i == 49 {
            Board::S
        }         else if i == 50 {
            Board::S4s
        }         else if i == 51 {
            Board::Sci
        }         else if i == 52 {
            Board::Soc
        }         else if i == 53 {
            Board::Sp
        }         else if i == 54 {
            Board::T
        }         else if i == 55 {
            Board::Tg
        }         else if i == 56 {
            Board::Toy
        }         else if i == 57 {
            Board::Trash
        }         else if i == 58 {
            Board::Trv
        }         else if i == 59 {
            Board::Tv
        }         else if i == 60 {
            Board::U
        }         else if i == 61 {
            Board::V
        }         else if i == 62 {
            Board::Vg
        }         else if i == 63 {
            Board::Vip
        }         else if i == 64 {
            Board::Vp
        }         else if i == 65 {
            Board::Vr
        }         else if i == 66 {
            Board::W
        }         else if i == 67 {
            Board::Wg
        }         else if i == 68 {
            Board::Wsg
        }         else if i == 69 {
            Board::Wsr
        }         else if i == 70 {
            Board::X
        } else {
            Board::Y
        }
    }

    /// Whether the board keeps an archive of threads that fell off its index.
    pub open spec fn spec_is_archived(self) -> bool {
        !(self is B || self is Bant || self is F || self is Trash)
    }

    /// The board's code, as it stands in the site's URLs.
    pub fn name(self) -> (r: &'static str)
        ensures
            r@ == self.spec_name(),
    {
        match self {
            Board::Three => "3",
            Board::A => "a",
            Board::Aco => "aco",
            Board::Adv => "adv",
            Board::An => "an",
            Board::Asp => "asp",
            Board::B => "b",
            Board::Bant => "bant",
            Board::Biz => "biz",
            Board::C => "c",
            Board::Cgl => "cgl",
            Board::Ck => "ck",
            Board::Cm => "cm",
            Board::Co => "co",
            Board::D => "d",
            Board::Diy => "diy",
            Board::E => "e",
            Board::F => "f",
            Board::Fa => "fa",
            Board::Fit => "fit",
            Board::G => "g",
            Board::Gd => "gd",
            Board::Gif => "gif",
            Board::H => "h",
            Board::Hc => "hc",
            Board::His => "his",
            Board::Hm => "hm",
            Board::Hr => "hr",
            Board::I => "i",
            Board::Ic => "ic",
            Board::Int => "int",
            Board::Jp => "jp",
            Board::K => "k",
            Board::Lgbt => "lgbt",
            Board::Lit => "lit",
            Board::M => "m",
            Board::Mlp => "mlp",
            Board::Mu => "mu",
            Board::N => "n",
            Board::News => "news",
            Board::O => "o",
            Board::Out => "out",
            Board::P => "p",
            Board::Po => "po",
            Board::Pol => "pol",
            Board::Qa => "qa",
            Board::Qst => "qst",
            Board::R => "r",
            Board::R9k => "r9k",
            Board::S => "s",
            Board::S4s => "s4s",
            Board::Sci => "sci",
            Board::Soc => "soc",
            Board::Sp => "sp",
            Board::T => "t",
            Board::Tg => "tg",
            Board::Toy => "toy",
            Board::Trash => "trash",
            Board::Trv => "trv",
            Board::Tv => "tv",
            Board::U => "u",
            Board::V => "v",
            Board::Vg => "vg",
            Board::Vip => "vip",
            Board::Vp => "vp",
            Board::Vr => "vr",
            Board::W => "w",
            Board::Wg => "wg",
            Board::Wsg => "wsg",
            Board::Wsr => "wsr",
            Board::X => "x",
            Board::Y => "y",
        }
    }

    /// Whether the board has an archive endpoint.
    pub fn is_archived(self) -> (r: bool)
        ensures
            r == self.spec_is_archived(),
    {
        match self {
            Board::B | Board::Bant | Board::F | Board::Trash => false,
            _ => true,
        }
    }

    /// The board's position in the list of all boards.
    pub fn index(self) -> (r: usize)
        ensures
            r == self.spec_index(),
            r < BOARD_COUNT,
    {
        match self {
            Board::Three => 0,
            Board::A => 1,
            Board::Aco => 2,
            Board::Adv => 3,
            Board::An => 4,
            Board::Asp => 5,
            Board::B => 6,
            Board::Bant => 7,
            Board::Biz => 8,
            Board::C => 9,
            Board::Cgl => 10,
            Board::Ck => 11,
            Board::Cm => 12,
            Board::Co => 13,
            Board::D => 14,
            Board::Diy => 15,
            Board::E => 16,
            Board::F => 17,
            Board::Fa => 18,
            Board::Fit => 19,
            Board::G => 20,
            Board::Gd => 21,
            Board::Gif => 22,
            Board::H => 23,
            Board::Hc => 24,
            Board::His => 25,
            Board::Hm => 26,
            Board::Hr => 27,
            Board::I => 28,
            Board::Ic => 29,
            Board::Int => 30,
            Board::Jp => 31,
            Board::K => 32,
            Board::Lgbt => 33,
            Board::Lit => 34,
            Board::M => 35,
            Board::Mlp => 36,
            Board::Mu => 37,
            Board::N => 38,
            Board::News => 39,
            Board::O => 40,
            Board::Out => 41,
            Board::P => 42,
            Board::Po => 43,
            Board::Pol => 44,
            Board::Qa => 45,
            Board::Qst => 46,
            Board::R => 47,
            Board::R9k => 48,
            Board::S => 49,
            Board::S4s => 50,
            Board::Sci => 51,
            Board::Soc => 52,
            Board::Sp => 53,
            Board::T => 54,
            Board::Tg => 55,
            Board::Toy => 56,
            Board::Trash => 57,
            Board::Trv => 58,
            Board::Tv => 59,
            Board::U => 60,
            Board::V => 61,
            Board::Vg => 62,
            Board::Vip => 63,
            Board::Vp => 64,
            Board::Vr => 65,
            Board::W => 66,
            Board::Wg => 67,
            Board::Wsg => 68,
            Board::Wsr => 69,
            Board::X => 70,
            Board::Y => 71,
        }
    }

    /// The board at position `i` in the list of all boards.
    pub fn from_index(i: usize) -> (r: Board)
        requires
            i < BOARD_COUNT,
        ensures
            r == Board::spec_from_index(i as nat),
            r.spec_index() == i,
    {
        match i {
            0 => Board::Three,
            1 => Board::A,
            2 => Board::Aco,
            3 => Board::Adv,
            4 => Board::An,
            5 => Board::Asp,
            6 => Board::B,
            7 => Board::Bant,
            8 => Board::Biz,
            9 => Board::C,
            10 => Board::Cgl,
            11 => Board::Ck,
            12 => Board::Cm,
            13 => Board::Co,
            14 => Board::D,
            15 => Board::Diy,
            16 => Board::E,
            17 => Board::F,
            18 => Board::Fa,
            19 => Board::Fit,
            20 => Board::G,
            21 => Board::Gd,
            22 => Board::Gif,
            23 => Board::H,
            24 => Board::Hc,
            25 => Board::His,
            26 => Board::Hm,
            27 => Board::Hr,
            28 => Board::I,
            29 => Board::Ic,
            30 => Board::Int,
            31 => Board::Jp,
            32 => Board::K,
            33 => Board::Lgbt,
            34 => Board::Lit,
            35 => Board::M,
            36 => Board::Mlp,
            37 => Board::Mu,
            38 => Board::N,
            39 => Board::News,
            40 => Board::O,
            41 => Board::Out,
            42 => Board::P,
            43 => Board::Po,
            44 => Board::Pol,
            45 => Board::Qa,
            46 => Board::Qst,
            47 => Board::R,
            48 => Board::R9k,
            49 => Board::S,
            50 => Board::S4s,
            51 => Board::Sci,
            52 => Board::Soc,
            53 => Board::Sp,
            54 => Board::T,
            55 => Board::Tg,
            56 => Board::Toy,
            57 => Board::Trash,
            58 => Board::Trv,
            59 => Board::Tv,
            60 => Board::U,
            61 => Board::V,
            62 => Board::Vg,
            63 => Board::Vip,
            64 => Board::Vp,
            65 => Board::Vr,
            66 => Board::W,
            67 => Board::Wg,
            68 => Board::Wsg,
            69 => Board::Wsr,
            70 => Board::X,
            _ => Board::Y,
        }
    }
}

impl Board {
    /// The board whose code is `code`, if any.
    pub fn from_name(code: &str) -> (r: Option<Board>)
        ensures
            match r {
                Some(b) => b.spec_name() == code@,
                None => forall|b: Board| #[trigger] b.spec_name() != code@,
            },
    {
        let mut i: usize = 0;
        while i < BOARD_COUNT
            invariant
                i <= BOARD_COUNT,
                forall|j: nat| j < i ==> (#[trigger] Board::spec_from_index(j)).spec_name() != code@,
            decreases BOARD_COUNT - i,
        {
            let b = Board::from_index(i);
            if same_text(b.name(), code) {
                return Some(b);
            }
            i = i + 1;
        }
        assert forall|b: Board| #[trigger] b.spec_name() != code@ by {
            lemma_index_injective(b);
            assert(Board::spec_from_index(b.spec_index()).spec_name() != code@);
        }
        None
    }
}

/// Distinct boards stand at distinct positions.
pub proof fn lemma_index_injective(b: Board)
    ensures
        Board::spec_from_index(b.spec_index()) == b,
        b.spec_index() < BOARD_COUNT,
{
}

} // verus!
