//! The view-model of the in-game overlay: the little image-and-text boxes of
//! the top bar, and the decimal labels they show.

use vstd::prelude::*;

verus! {

/// An image handle and the text shown beside it.
#[derive(Clone, Debug)]
pub struct ImageAndTextProps {
    pub image: u16,
    pub text: String,
}

/// The image handles of the top bar's four counters.
#[derive(Clone, Copy, Debug, PartialEq, Eq, Structural)]
pub struct ShipsAndPlanetsProps {
    pub fighter_img: u16,
    pub trader_img: u16,
    pub dreadn_img: u16,
    pub planet_img: u16,
}

/// The character of one decimal digit.
pub open spec fn dec_digit_char(d: int) -> char {
    if d == 0 {
        '0'
    } else if d == 1 {
        '1'
    } else if d == 2 {
        '2'
    } else if d == 3 {
        '3'
    } else if d == 4 {
        '4'
    } else if d == 5 {
        '5'
    } else if d == 6 {
        '6'
    } else if d == 7 {
        '7'
    } else if d == 8 {
        '8'
    } else {
        '9'
    }
}

/// The decimal writing of a non-negative number, most significant digit
/// first and without leading zeroes (a lone zero for zero).
pub open spec fn dec_str(n: int) -> Seq<char>
    decreases n,
{
    if n < 10 {
        seq![dec_digit_char(n)]
    } else {
        dec_str(n / 10).push(dec_digit_char(n % 10))
    }
}

/// One digit as a string slice.
fn digit_str(d: u32) -> (s: &'static str)
    requires
        d < 10,
    ensures
        s@ =~= seq![dec_digit_char(d as int)],
{
    proof {
        reveal_strlit("0");
        reveal_strlit("1");
        reveal_strlit("2");
        reveal_strlit("3");
        reveal_strlit("4");
        reveal_strlit("5");
        reveal_strlit("6");
        reveal_strlit("7");
        reveal_strlit("8");
        reveal_strlit("9");
    }
    match d {
        0 => "0",
        1 => "1",
        2 => "2",
        3 => "3",
        4 => "4",
        5 => "5",
        6 => "6",
        7 => "7",
        8 => "8",
        _ => "9",
    }
}

/// Writes a counter in decimal.
pub fn u32_to_string(n: u32) -> (s: String)
    ensures
        s@ == dec_str(n as int),
    decreases n,
{
    if n < 10 {
        String::from_str(digit_str(n))
    } else {
        let mut s = u32_to_string(n / 10);
        s.append(digit_str(n % 10));
        proof {
            assert(dec_str((n / 10) as int).push(dec_digit_char((n % 10) as int)) =~= dec_str(
                (n / 10) as int,
            ) + seq![dec_digit_char((n % 10) as int)]);
        }
        s
    }
}

/// The fighters a player has in all: those deployed in space plus those
/// stored on planets.
pub fn fighters_total(deployed: u32, stored: u32) -> (t: u32)
    requires
        deployed + stored <= u32::MAX,
    ensures
        t == deployed + stored,
{
    deployed + stored
}

/// The label of a planet's stored-fighter counter, when it needs redrawing:
/// the count written in decimal, or nothing when the mesh already shows it.
pub fn update_count_mesh(fighters: u32, current_text: &String) -> (r: Option<String>)
    ensures
        r is Some <==> dec_str(fighters as int) != current_text@,
        r matches Some(t) ==> t@ == dec_str(fighters as int),
{
    let updated = u32_to_string(fighters);
    if updated == *current_text {
        None
    } else {
        Some(updated)
    }
}

/// The four boxes of the top bar: the fighter total (deployed plus stored)
/// under the fighter image, and the still-stubbed trader, dreadnought and
/// planet counters under theirs.
pub fn ships_and_planets_detail(
    props: &ShipsAndPlanetsProps,
    fighters_deployed: u32,
    fighters_stored: u32,
) -> (boxes: Vec<ImageAndTextProps>)
    requires
        fighters_deployed + fighters_stored <= u32::MAX,
    ensures
        boxes@.len() == 4,
        boxes@[0].image == props.fighter_img,
        boxes@[0].text@ == dec_str(fighters_deployed + fighters_stored),
        boxes@[1].image == props.trader_img,
        boxes@[1].text@ == seq!['9'],
        boxes@[2].image == props.dreadn_img,
        boxes@[2].text@ == seq!['2'],
        boxes@[3].image == props.planet_img,
        boxes@[3].text@ =~= seq!['3', '0'],
{
    proof {
        reveal_strlit("9");
        reveal_strlit("2");
        reveal_strlit("30");
    }
    let tot = fighters_total(fighters_deployed, fighters_stored);
    let mut boxes: Vec<ImageAndTextProps> = Vec::new();
    boxes.push(ImageAndTextProps { image: props.fighter_img, text: u32_to_string(tot) });
    boxes.push(ImageAndTextProps { image: props.trader_img, text: String::from_str("9") });
    boxes.push(ImageAndTextProps { image: props.dreadn_img, text: String::from_str("2") });
    boxes.push(ImageAndTextProps { image: props.planet_img, text: String::from_str("30") });
    boxes
}

} // verus!
