//! Share codes made of animal names: a number written in base 64, most significant
//! digit first, each digit spelled as one of 64 animal names and the digits joined by `-`
//! (`0` is `ant`, `65` is `eel-eel`).

use vstd::prelude::*;
use crate::text::slice_equals;

verus! {

/// The 64 digit names, in digit order.
pub open spec fn animal_names() -> Seq<Seq<char>> {
    seq![
        "ant"@, "eel"@, "mole"@, "sloth"@, "ape"@, "emu"@, "monkey"@, "snail"@,
        "bat"@, "falcon"@, "mouse"@, "snake"@, "bear"@, "fish"@, "otter"@, "spider"@,
        "bee"@, "fly"@, "parrot"@, "squid"@, "bird"@, "fox"@, "panda"@, "swan"@,
        "bison"@, "frog"@, "pig"@, "tiger"@, "camel"@, "gecko"@, "pigeon"@, "toad"@,
        "cat"@, "goat"@, "pony"@, "turkey"@, "cobra"@, "goose"@, "pug"@, "turtle"@,
        "crow"@, "hawk"@, "rabbit"@, "viper"@, "deer"@, "horse"@, "rat"@, "wasp"@,
        "dog"@, "jaguar"@, "raven"@, "whale"@, "dove"@, "koala"@, "seal"@, "wolf"@,
        "duck"@, "lion"@, "shark"@, "worm"@, "eagle"@, "lizard"@, "sheep"@, "zebra"@,
    ]
}

/// The base in which animal codes write numbers.
pub const ANIMAL_BASE: u64 = 64;

/// The name of digit `i`.
pub fn animal_name(i: u64) -> (r: &'static str)
    requires
        i < ANIMAL_BASE,
    ensures
        r@ == animal_names()[i as int],
{
    match i {
        0 => "ant",
        1 => "eel",
        2 => "mole",
        3 => "sloth",
        4 => "ape",
        5 => "emu",
        6 => "monkey",
        7 => "snail",
        8 => "bat",
        9 => "falcon",
        10 => "mouse",
        11 => "snake",
        12 => "bear",
        13 => "fish",
        14 => "otter",
        15 => "spider",
        16 => "bee",
        17 => "fly",
        18 => "parrot",
        19 => "squid",
        20 => "bird",
        21 => "fox",
        22 => "panda",
        23 => "swan",
        24 => "bison",
        25 => "frog",
        26 => "pig",
        27 => "tiger",
        28 => "camel",
        29 => "gecko",
        30 => "pigeon",
        31 => "toad",
        32 => "cat",
        33 => "goat",
        34 => "pony",
        35 => "turkey",
        36 => "cobra",
        37 => "goose",
        38 => "pug",
        39 => "turtle",
        40 => "crow",
        41 => "hawk",
        42 => "rabbit",
        43 => "viper",
        44 => "deer",
        45 => "horse",
        46 => "rat",
        47 => "wasp",
        48 => "dog",
        49 => "jaguar",
        50 => "raven",
        51 => "whale",
        52 => "dove",
        53 => "koala",
        54 => "seal",
        55 => "wolf",
        56 => "duck",
        57 => "lion",
        58 => "shark",
        59 => "worm",
        60 => "eagle",
        61 => "lizard",
        62 => "sheep",
        _ => "zebra",
    }
}

/// The first digit at or after `i` whose name is `w`.
pub open spec fn name_index_from(w: Seq<char>, i: int) -> Option<int>
    decreases 64 - i,
{
    if 0 <= i < 64 {
        if animal_names()[i] == w {
            Some(i)
        } else {
            name_index_from(w, i + 1)
        }
    } else {
        None
    }
}

/// The digit that `w` names, if it names one.
pub open spec fn animal_index(w: Seq<char>) -> Option<int> {
    name_index_from(w, 0)
}

/// The pieces of `s` between dashes, as `str::split('-')` gives them
/// (always at least one, possibly empty, piece).
pub open spec fn split_dashes(s: Seq<char>) -> Seq<Seq<char>>
    decreases s.len(),
{
    if s.len() == 0 {
        seq![Seq::empty()]
    } else {
        let prev = split_dashes(s.drop_last());
        if s.last() == '-' {
            prev.push(Seq::empty())
        } else {
            prev.update(prev.len() - 1, prev.last().push(s.last()))
        }
    }
}

/// The number that a sequence of digit names spells, most significant first.
pub open spec fn parts_value(parts: Seq<Seq<char>>) -> Option<int>
    decreases parts.len(),
{
    if parts.len() == 0 {
        Some(0)
    } else {
        let prev = parts_value(parts.drop_last());
        let digit = animal_index(parts.last());
        if prev is Some && digit is Some {
            Some(prev->0 * 64 + digit->0)
        } else {
            None
        }
    }
}

/// The id that an animal code stands for: every piece between dashes must name a digit,
/// and the number must fit in a `u64`.
pub open spec fn animal_code_value(code: Seq<char>) -> Option<u64> {
    let v = parts_value(split_dashes(code));
    if v is Some && v->0 <= u64::MAX {
        Some(v->0 as u64)
    } else {
        None
    }
}

/// The digit named by the characters of `code` from `from` up to `to`.
fn digit_named(code: &str, from: usize, to: usize) -> (r: Option<u64>)
    requires
        from <= to <= code@.len(),
    ensures
        match r {
            Some(d) => animal_index(code@.subrange(from as int, to as int)) == Some(d as int),
            None => animal_index(code@.subrange(from as int, to as int)) is None,
        },
{
    let ghost w = code@.subrange(from as int, to as int);
    let mut i: u64 = 0;
    while i < ANIMAL_BASE
        invariant
            from <= to <= code@.len(),
            w == code@.subrange(from as int, to as int),
            i <= ANIMAL_BASE,
            name_index_from(w, i as int) == name_index_from(w, 0),
        decreases ANIMAL_BASE - i,
    {
        if slice_equals(code, from, to, animal_name(i)) {
            return Some(i);
        }
        i = i + 1;
    }
    None
}

/// The id that an animal code stands for, if it stands for one.
pub fn animal_code_to_id(code: &str) -> (r: Option<u64>)
    ensures
        r == animal_code_value(code@),
{
    let n = code.unicode_len();
    let mut start: usize = 0;
    let mut i: usize = 0;
    let mut value: u64 = 0;
    let mut overflow = false;
    let mut failed = false;
    let ghost mut done: Seq<Seq<char>> = seq![];
    let ghost mut exact: int = 0;
    assert(code@.subrange(0, 0) =~= Seq::<char>::empty());
    while i < n
        invariant
            n == code@.len(),
            start <= i <= n,
            split_dashes(code@.subrange(0, i as int)) == done.push(
                code@.subrange(start as int, i as int),
            ),
            failed ==> parts_value(done) is None,
            !failed ==> parts_value(done) == Some(exact),
            !failed ==> (overflow <==> exact > u64::MAX),
            !failed && !overflow ==> value == exact,
            exact >= 0,
        decreases n - i,
    {
        let c = code.get_char(i);
        let ghost prefix = code@.subrange(0, i + 1);
        assert(prefix.drop_last() =~= code@.subrange(0, i as int));
        assert(prefix.last() == c);
        if c == '-' {
            let ghost part = code@.subrange(start as int, i as int);
            let d = digit_named(code, start, i);
            proof {
                assert(done.push(part).drop_last() =~= done);
            }
            match d {
                None => {
                    failed = true;
                },
                Some(d) => {
                    if !failed {
                        proof {
                            exact = exact * 64 + d;
                        }
                        if !overflow {
                            if value > (u64::MAX - d) / 64 {
                                overflow = true;
                            } else {
                                value = value * 64 + d;
                            }
                        }
                    }
                },
            }
            proof {
                done = done.push(part);
            }
            start = i + 1;
            assert(code@.subrange(start as int, i + 1) =~= Seq::<char>::empty());
        } else {
            assert(code@.subrange(start as int, i + 1) =~= code@.subrange(
                start as int,
                i as int,
            ).push(c));
        }
        i = i + 1;
    }
    assert(code@.subrange(0, n as int) =~= code@);
    let ghost part = code@.subrange(start as int, n as int);
    assert(done.push(part).drop_last() =~= done);
    match digit_named(code, start, n) {
        None => None,
        Some(d) => {
            if failed || overflow {
                None
            } else if value > (u64::MAX - d) / 64 {
                None
            } else {
                Some(value * 64 + d)
            }
        },
    }
}

/// Each digit name is a non-empty run of lower-case letters, and its length, first two and
/// last characters tell it apart from the others.
proof fn lemma_animal_name_facts()
    ensures
        forall|i: int| 0 <= i < 64 ==> (#[trigger] animal_names()[i]).len() > 0,
        forall|i: int, k: int|
            0 <= i < 64 && 0 <= k < animal_names()[i].len() ==> 'a' <= #[trigger] animal_names()[i][k] <= 'z',
        animal_names()[0].len() == 3 && animal_names()[0][0] == 'a' && animal_names()[0][1] == 'n' && animal_names()[0][2] == 't',
        animal_names()[1].len() == 3 && animal_names()[1][0] == 'e' && animal_names()[1][1] == 'e' && animal_names()[1][2] == 'l',
        animal_names()[2].len() == 4 && animal_names()[2][0] == 'm' && animal_names()[2][1] == 'o' && animal_names()[2][3] == 'e',
        animal_names()[3].len() == 5 && animal_names()[3][0] == 's' && animal_names()[3][1] == 'l' && animal_names()[3][4] == 'h',
        animal_names()[4].len() == 3 && animal_names()[4][0] == 'a' && animal_names()[4][1] == 'p' && animal_names()[4][2] == 'e',
        animal_names()[5].len() == 3 && animal_names()[5][0] == 'e' && animal_names()[5][1] == 'm' && animal_names()[5][2] == 'u',
        animal_names()[6].len() == 6 && animal_names()[6][0] == 'm' && animal_names()[6][1] == 'o' && animal_names()[6][5] == 'y',
        animal_names()[7].len() == 5 && animal_names()[7][0] == 's' && animal_names()[7][1] == 'n' && animal_names()[7][4] == 'l',
        animal_names()[8].len() == 3 && animal_names()[8][0] == 'b' && animal_names()[8][1] == 'a' && animal_names()[8][2] == 't',
        animal_names()[9].len() == 6 && animal_names()[9][0] == 'f' && animal_names()[9][1] == 'a' && animal_names()[9][5] == 'n',
        animal_names()[10].len() == 5 && animal_names()[10][0] == 'm' && animal_names()[10][1] == 'o' && animal_names()[10][4] == 'e',
        animal_names()[11].len() == 5 && animal_names()[11][0] == 's' && animal_names()[11][1] == 'n' && animal_names()[11][4] == 'e',
        animal_names()[12].len() == 4 && animal_names()[12][0] == 'b' && animal_names()[12][1] == 'e' && animal_names()[12][3] == 'r',
        animal_names()[13].len() == 4 && animal_names()[13][0] == 'f' && animal_names()[13][1] == 'i' && animal_names()[13][3] == 'h',
        animal_names()[14].len() == 5 && animal_names()[14][0] == 'o' && animal_names()[14][1] == 't' && animal_names()[14][4] == 'r',
        animal_names()[15].len() == 6 && animal_names()[15][0] == 's' && animal_names()[15][1] == 'p' && animal_names()[15][5] == 'r',
        animal_names()[16].len() == 3 && animal_names()[16][0] == 'b' && animal_names()[16][1] == 'e' && animal_names()[16][2] == 'e',
        animal_names()[17].len() == 3 && animal_names()[17][0] == 'f' && animal_names()[17][1] == 'l' && animal_names()[17][2] == 'y',
        animal_names()[18].len() == 6 && animal_names()[18][0] == 'p' && animal_names()[18][1] == 'a' && animal_names()[18][5] == 't',
        animal_names()[19].len() == 5 && animal_names()[19][0] == 's' && animal_names()[19][1] == 'q' && animal_names()[19][4] == 'd',
        animal_names()[20].len() == 4 && animal_names()[20][0] == 'b' && animal_names()[20][1] == 'i' && animal_names()[20][3] == 'd',
        animal_names()[21].len() == 3 && animal_names()[21][0] == 'f' && animal_names()[21][1] == 'o' && animal_names()[21][2] == 'x',
        animal_names()[22].len() == 5 && animal_names()[22][0] == 'p' && animal_names()[22][1] == 'a' && animal_names()[22][4] == 'a',
        animal_names()[23].len() == 4 && animal_names()[23][0] == 's' && animal_names()[23][1] == 'w' && animal_names()[23][3] == 'n',
        animal_names()[24].len() == 5 && animal_names()[24][0] == 'b' && animal_names()[24][1] == 'i' && animal_names()[24][4] == 'n',
        animal_names()[25].len() == 4 && animal_names()[25][0] == 'f' && animal_names()[25][1] == 'r' && animal_names()[25][3] == 'g',
        animal_names()[26].len() == 3 && animal_names()[26][0] == 'p' && animal_names()[26][1] == 'i' && animal_names()[26][2] == 'g',
        animal_names()[27].len() == 5 && animal_names()[27][0] == 't' && animal_names()[27][1] == 'i' && animal_names()[27][4] == 'r',
        animal_names()[28].len() == 5 && animal_names()[28][0] == 'c' && animal_names()[28][1] == 'a' && animal_names()[28][4] == 'l',
        animal_names()[29].len() == 5 && animal_names()[29][0] == 'g' && animal_names()[29][1] == 'e' && animal_names()[29][4] == 'o',
        animal_names()[30].len() == 6 && animal_names()[30][0] == 'p' && animal_names()[30][1] == 'i' && animal_names()[30][5] == 'n',
        animal_names()[31].len() == 4 && animal_names()[31][0] == 't' && animal_names()[31][1] == 'o' && animal_names()[31][3] == 'd',
        animal_names()[32].len() == 3 && animal_names()[32][0] == 'c' && animal_names()[32][1] == 'a' && animal_names()[32][2] == 't',
        animal_names()[33].len() == 4 && animal_names()[33][0] == 'g' && animal_names()[33][1] == 'o' && animal_names()[33][3] == 't',
        animal_names()[34].len() == 4 && animal_names()[34][0] == 'p' && animal_names()[34][1] == 'o' && animal_names()[34][3] == 'y',
        animal_names()[35].len() == 6 && animal_names()[35][0] == 't' && animal_names()[35][1] == 'u' && animal_names()[35][5] == 'y',
        animal_names()[36].len() == 5 && animal_names()[36][0] == 'c' && animal_names()[36][1] == 'o' && animal_names()[36][4] == 'a',
        animal_names()[37].len() == 5 && animal_names()[37][0] == 'g' && animal_names()[37][1] == 'o' && animal_names()[37][4] == 'e',
        animal_names()[38].len() == 3 && animal_names()[38][0] == 'p' && animal_names()[38][1] == 'u' && animal_names()[38][2] == 'g',
        animal_names()[39].len() == 6 && animal_names()[39][0] == 't' && animal_names()[39][1] == 'u' && animal_names()[39][5] == 'e',
        animal_names()[40].len() == 4 && animal_names()[40][0] == 'c' && animal_names()[40][1] == 'r' && animal_names()[40][3] == 'w',
        animal_names()[41].len() == 4 && animal_names()[41][0] == 'h' && animal_names()[41][1] == 'a' && animal_names()[41][3] == 'k',
        animal_names()[42].len() == 6 && animal_names()[42][0] == 'r' && animal_names()[42][1] == 'a' && animal_names()[42][5] == 't',
        animal_names()[43].len() == 5 && animal_names()[43][0] == 'v' && animal_names()[43][1] == 'i' && animal_names()[43][4] == 'r',
        animal_names()[44].len() == 4 && animal_names()[44][0] == 'd' && animal_names()[44][1] == 'e' && animal_names()[44][3] == 'r',
        animal_names()[45].len() == 5 && animal_names()[45][0] == 'h' && animal_names()[45][1] == 'o' && animal_names()[45][4] == 'e',
        animal_names()[46].len() == 3 && animal_names()[46][0] == 'r' && animal_names()[46][1] == 'a' && animal_names()[46][2] == 't',
        animal_names()[47].len() == 4 && animal_names()[47][0] == 'w' && animal_names()[47][1] == 'a' && animal_names()[47][3] == 'p',
        animal_names()[48].len() == 3 && animal_names()[48][0] == 'd' && animal_names()[48][1] == 'o' && animal_names()[48][2] == 'g',
        animal_names()[49].len() == 6 && animal_names()[49][0] == 'j' && animal_names()[49][1] == 'a' && animal_names()[49][5] == 'r',
        animal_names()[50].len() == 5 && animal_names()[50][0] == 'r' && animal_names()[50][1] == 'a' && animal_names()[50][4] == 'n',
        animal_names()[51].len() == 5 && animal_names()[51][0] == 'w' && animal_names()[51][1] == 'h' && animal_names()[51][4] == 'e',
        animal_names()[52].len() == 4 && animal_names()[52][0] == 'd' && animal_names()[52][1] == 'o' && animal_names()[52][3] == 'e',
        animal_names()[53].len() == 5 && animal_names()[53][0] == 'k' && animal_names()[53][1] == 'o' && animal_names()[53][4] == 'a',
        animal_names()[54].len() == 4 && animal_names()[54][0] == 's' && animal_names()[54][1] == 'e' && animal_names()[54][3] == 'l',
        animal_names()[55].len() == 4 && animal_names()[55][0] == 'w' && animal_names()[55][1] == 'o' && animal_names()[55][3] == 'f',
        animal_names()[56].len() == 4 && animal_names()[56][0] == 'd' && animal_names()[56][1] == 'u' && animal_names()[56][3] == 'k',
        animal_names()[57].len() == 4 && animal_names()[57][0] == 'l' && animal_names()[57][1] == 'i' && animal_names()[57][3] == 'n',
        animal_names()[58].len() == 5 && animal_names()[58][0] == 's' && animal_names()[58][1] == 'h' && animal_names()[58][4] == 'k',
        animal_names()[59].len() == 4 && animal_names()[59][0] == 'w' && animal_names()[59][1] == 'o' && animal_names()[59][3] == 'm',
        animal_names()[60].len() == 5 && animal_names()[60][0] == 'e' && animal_names()[60][1] == 'a' && animal_names()[60][4] == 'e',
        animal_names()[61].len() == 6 && animal_names()[61][0] == 'l' && animal_names()[61][1] == 'i' && animal_names()[61][5] == 'd',
        animal_names()[62].len() == 5 && animal_names()[62][0] == 's' && animal_names()[62][1] == 'h' && animal_names()[62][4] == 'p',
        animal_names()[63].len() == 5 && animal_names()[63][0] == 'z' && animal_names()[63][1] == 'e' && animal_names()[63][4] == 'a',
{
    reveal_strlit("ant");
    reveal_strlit("eel");
    reveal_strlit("mole");
    reveal_strlit("sloth");
    reveal_strlit("ape");
    reveal_strlit("emu");
    reveal_strlit("monkey");
    reveal_strlit("snail");
    reveal_strlit("bat");
    reveal_strlit("falcon");
    reveal_strlit("mouse");
    reveal_strlit("snake");
    reveal_strlit("bear");
    reveal_strlit("fish");
    reveal_strlit("otter");
    reveal_strlit("spider");
    reveal_strlit("bee");
    reveal_strlit("fly");
    reveal_strlit("parrot");
    reveal_strlit("squid");
    reveal_strlit("bird");
    reveal_strlit("fox");
    reveal_strlit("panda");
    reveal_strlit("swan");
    reveal_strlit("bison");
    reveal_strlit("frog");
    reveal_strlit("pig");
    reveal_strlit("tiger");
    reveal_strlit("camel");
    reveal_strlit("gecko");
    reveal_strlit("pigeon");
    reveal_strlit("toad");
    reveal_strlit("cat");
    reveal_strlit("goat");
    reveal_strlit("pony");
    reveal_strlit("turkey");
    reveal_strlit("cobra");
    reveal_strlit("goose");
    reveal_strlit("pug");
    reveal_strlit("turtle");
    reveal_strlit("crow");
    reveal_strlit("hawk");
    reveal_strlit("rabbit");
    reveal_strlit("viper");
    reveal_strlit("deer");
    reveal_strlit("horse");
    reveal_strlit("rat");
    reveal_strlit("wasp");
    reveal_strlit("dog");
    reveal_strlit("jaguar");
    reveal_strlit("raven");
    reveal_strlit("whale");
    reveal_strlit("dove");
    reveal_strlit("koala");
    reveal_strlit("seal");
    reveal_strlit("wolf");
    reveal_strlit("duck");
    reveal_strlit("lion");
    reveal_strlit("shark");
    reveal_strlit("worm");
    reveal_strlit("eagle");
    reveal_strlit("lizard");
    reveal_strlit("sheep");
    reveal_strlit("zebra");
}

/// The name of digit `d` is read back as `d`.
#[verifier::rlimit(100)]
pub proof fn lemma_animal_index_of_name(d: int)
    requires
        0 <= d < 64,
    ensures
        animal_index(animal_names()[d]) == Some(d),
{
    lemma_animal_name_facts();
    reveal_with_fuel(name_index_from, 65);
    if d == 0 {
        assert(name_index_from(animal_names()[0], 0) == Some(0int));
    } else if d == 1 {
        assert(name_index_from(animal_names()[1], 0) == Some(1int));
    } else if d == 2 {
        assert(name_index_from(animal_names()[2], 0) == Some(2int));
    } else if d == 3 {
        assert(name_index_from(animal_names()[3], 0) == Some(3int));
    } else if d == 4 {
        assert(name_index_from(animal_names()[4], 0) == Some(4int));
    } else if d == 5 {
        assert(name_index_from(animal_names()[5], 0) == Some(5int));
    } else if d == 6 {
        assert(name_index_from(animal_names()[6], 0) == Some(6int));
    } else if d == 7 {
        assert(name_index_from(animal_names()[7], 0) == Some(7int));
    } else if d == 8 {
        assert(name_index_from(animal_names()[8], 0) == Some(8int));
    } else if d == 9 {
        assert(name_index_from(animal_names()[9], 0) == Some(9int));
    } else if d == 10 {
        assert(name_index_from(animal_names()[10], 0) == Some(10int));
    } else if d == 11 {
        assert(name_index_from(animal_names()[11], 0) == Some(11int));
    } else if d == 12 {
        assert(name_index_from(animal_names()[12], 0) == Some(12int));
    } else if d == 13 {
        assert(name_index_from(animal_names()[13], 0) == Some(13int));
    } else if d == 14 {
        assert(name_index_from(animal_names()[14], 0) == Some(14int));
    } else if d == 15 {
        assert(name_index_from(animal_names()[15], 0) == Some(15int));
    } else if d == 16 {
        assert(name_index_from(animal_names()[16], 0) == Some(16int));
    } else if d == 17 {
        assert(name_index_from(animal_names()[17], 0) == Some(17int));
    } else if d == 18 {
        assert(name_index_from(animal_names()[18], 0) == Some(18int));
    } else if d == 19 {
        assert(name_index_from(animal_names()[19], 0) == Some(19int));
    } else if d == 20 {
        assert(name_index_from(animal_names()[20], 0) == Some(20int));
    } else if d == 21 {
        assert(name_index_from(animal_names()[21], 0) == Some(21int));
    } else if d == 22 {
        assert(name_index_from(animal_names()[22], 0) == Some(22int));
    } else if d == 23 {
        assert(name_index_from(animal_names()[23], 0) == Some(23int));
    } else if d == 24 {
        assert(name_index_from(animal_names()[24], 0) == Some(24int));
    } else if d == 25 {
        assert(name_index_from(animal_names()[25], 0) == Some(25int));
    } else if d == 26 {
        assert(name_index_from(animal_names()[26], 0) == Some(26int));
    } else if d == 27 {
        assert(name_index_from(animal_names()[27], 0) == Some(27int));
    } else if d == 28 {
        assert(name_index_from(animal_names()[28], 0) == Some(28int));
    } else if d == 29 {
        assert(name_index_from(animal_names()[29], 0) == Some(29int));
    } else if d == 30 {
        assert(name_index_from(animal_names()[30], 0) == Some(30int));
    } else if d == 31 {
        assert(name_index_from(animal_names()[31], 0) == Some(31int));
    } else if d == 32 {
        assert(name_index_from(animal_names()[32], 0) == Some(32int));
    } else if d == 33 {
        assert(name_index_from(animal_names()[33], 0) == Some(33int));
    } else if d == 34 {
        assert(name_index_from(animal_names()[34], 0) == Some(34int));
    } else if d == 35 {
        assert(name_index_from(animal_names()[35], 0) == Some(35int));
    } else if d == 36 {
        assert(name_index_from(animal_names()[36], 0) == Some(36int));
    } else if d == 37 {
        assert(name_index_from(animal_names()[37], 0) == Some(37int));
    } else if d == 38 {
        assert(name_index_from(animal_names()[38], 0) == Some(38int));
    } else if d == 39 {
        assert(name_index_from(animal_names()[39], 0) == Some(39int));
    } else if d == 40 {
        assert(name_index_from(animal_names()[40], 0) == Some(40int));
    } else if d == 41 {
        assert(name_index_from(animal_names()[41], 0) == Some(41int));
    } else if d == 42 {
        assert(name_index_from(animal_names()[42], 0) == Some(42int));
    } else if d == 43 {
        assert(name_index_from(animal_names()[43], 0) == Some(43int));
    } else if d == 44 {
        assert(name_index_from(animal_names()[44], 0) == Some(44int));
    } else if d == 45 {
        assert(name_index_from(animal_names()[45], 0) == Some(45int));
    } else if d == 46 {
        assert(name_index_from(animal_names()[46], 0) == Some(46int));
    } else if d == 47 {
        assert(name_index_from(animal_names()[47], 0) == Some(47int));
    } else if d == 48 {
        assert(name_index_from(animal_names()[48], 0) == Some(48int));
    } else if d == 49 {
        assert(name_index_from(animal_names()[49], 0) == Some(49int));
    } else if d == 50 {
        assert(name_index_from(animal_names()[50], 0) == Some(50int));
    } else if d == 51 {
        assert(name_index_from(animal_names()[51], 0) == Some(51int));
    } else if d == 52 {
        assert(name_index_from(animal_names()[52], 0) == Some(52int));
    } else if d == 53 {
        assert(name_index_from(animal_names()[53], 0) == Some(53int));
    } else if d == 54 {
        assert(name_index_from(animal_names()[54], 0) == Some(54int));
    } else if d == 55 {
        assert(name_index_from(animal_names()[55], 0) == Some(55int));
    } else if d == 56 {
        assert(name_index_from(animal_names()[56], 0) == Some(56int));
    } else if d == 57 {
        assert(name_index_from(animal_names()[57], 0) == Some(57int));
    } else if d == 58 {
        assert(name_index_from(animal_names()[58], 0) == Some(58int));
    } else if d == 59 {
        assert(name_index_from(animal_names()[59], 0) == Some(59int));
    } else if d == 60 {
        assert(name_index_from(animal_names()[60], 0) == Some(60int));
    } else if d == 61 {
        assert(name_index_from(animal_names()[61], 0) == Some(61int));
    } else if d == 62 {
        assert(name_index_from(animal_names()[62], 0) == Some(62int));
    } else if d == 63 {
        assert(name_index_from(animal_names()[63], 0) == Some(63int));
    }
}

/// The base-64 digits of `n`, most significant first, without leading zeros
/// (`0` has the single digit `0`).
pub open spec fn animal_digits(n: nat) -> Seq<int>
    decreases n,
{
    if n < 64 {
        seq![n as int]
    } else {
        animal_digits(n / 64).push((n % 64) as int)
    }
}

/// Pieces joined with `-` between them.
pub open spec fn join_dashes(parts: Seq<Seq<char>>) -> Seq<char>
    decreases parts.len(),
{
    if parts.len() == 0 {
        Seq::empty()
    } else if parts.len() == 1 {
        parts[0]
    } else {
        join_dashes(parts.drop_last()) + seq!['-'] + parts.last()
    }
}

/// The names of a sequence of digits.
pub open spec fn digit_names(digits: Seq<int>) -> Seq<Seq<char>> {
    digits.map_values(|d: int| animal_names()[d])
}

/// The animal code of `n`.
pub open spec fn animal_code(n: nat) -> Seq<char> {
    join_dashes(digit_names(animal_digits(n)))
}

/// `v` in reverse order, as integers.
pub open spec fn reversed_digits(v: Seq<u64>) -> Seq<int> {
    Seq::new(v.len(), |k: int| v[v.len() - 1 - k] as int)
}

/// The animal code of `id`.
pub fn id_to_animal_code(id: u64) -> (s: String)
    ensures
        s@ == animal_code(id as nat),
{
    let mut digits: Vec<u64> = Vec::new();
    let mut m: u64 = id;
    while m >= ANIMAL_BASE
        invariant
            animal_digits(id as nat) == animal_digits(m as nat) + reversed_digits(digits@),
            forall|k: int| 0 <= k < digits@.len() ==> #[trigger] digits@[k] < 64,
        decreases m,
    {
        let ghost old_digits = digits@;
        digits.push(m % ANIMAL_BASE);
        assert(reversed_digits(digits@) =~= seq![(m % 64) as int] + reversed_digits(old_digits));
        assert(animal_digits(m as nat) == animal_digits((m / 64) as nat).push((m % 64) as int));
        assert(animal_digits(m as nat) + reversed_digits(old_digits) =~= animal_digits(
            (m / 64) as nat,
        ) + reversed_digits(digits@));
        m = m / ANIMAL_BASE;
    }
    let ghost old_digits = digits@;
    digits.push(m);
    assert(animal_digits(id as nat) =~= reversed_digits(digits@));
    let ghost names = digit_names(animal_digits(id as nat));
    let total = digits.len();
    let mut s = String::new();
    let mut k: usize = 0;
    assert(names.take(0) =~= Seq::<Seq<char>>::empty());
    while k < total
        invariant
            total == digits@.len(),
            animal_digits(id as nat) == reversed_digits(digits@),
            names == digit_names(animal_digits(id as nat)),
            forall|j: int| 0 <= j < digits@.len() ==> #[trigger] digits@[j] < 64,
            k <= total,
            s@ == join_dashes(names.take(k as int)),
        decreases total - k,
    {
        let d = digits[total - 1 - k];
        assert(names[k as int] == animal_names()[d as int]);
        assert(names.take(k + 1).drop_last() =~= names.take(k as int));
        if k > 0 {
            s.append("-");
            proof {
                reveal_strlit("-");
            }
        }
        s.append(animal_name(d));
        assert(s@ =~= join_dashes(names.take(k + 1)));
        k = k + 1;
    }
    assert(names.take(total as int) =~= names);
    s
}

/// `split_dashes` never gives an empty list of pieces.
pub proof fn lemma_split_dashes_nonempty(s: Seq<char>)
    ensures
        split_dashes(s).len() >= 1,
    decreases s.len(),
{
    if s.len() > 0 {
        lemma_split_dashes_nonempty(s.drop_last());
    }
}

/// Appending dash-free characters extends the last piece.
pub proof fn lemma_split_dashes_extend(x: Seq<char>, l: Seq<char>)
    requires
        forall|k: int| 0 <= k < l.len() ==> l[k] != '-',
    ensures
        split_dashes(x + l) == split_dashes(x).update(
            split_dashes(x).len() - 1,
            split_dashes(x).last() + l,
        ),
    decreases l.len(),
{
    lemma_split_dashes_nonempty(x);
    let sx = split_dashes(x);
    if l.len() == 0 {
        assert(x + l =~= x);
        assert(sx.last() + l =~= sx.last());
        assert(sx.update(sx.len() - 1, sx.last()) =~= sx);
    } else {
        let l2 = l.drop_last();
        lemma_split_dashes_extend(x, l2);
        assert((x + l).drop_last() =~= x + l2);
        assert((x + l).last() == l.last());
        assert((sx.last() + l2).push(l.last()) =~= sx.last() + l);
        assert(split_dashes(x + l) =~= sx.update(sx.len() - 1, sx.last() + l));
    }
}

/// Splitting dash-free pieces joined with dashes gives the pieces back.
pub proof fn lemma_split_join(parts: Seq<Seq<char>>)
    requires
        parts.len() >= 1,
        forall|i: int, k: int| 0 <= i < parts.len() && 0 <= k < parts[i].len() ==> #[trigger] parts[i][k] != '-',
    ensures
        split_dashes(join_dashes(parts)) == parts,
    decreases parts.len(),
{
    let last = parts.last();
    assert forall|k: int| 0 <= k < last.len() implies last[k] != '-' by {
        assert(parts[parts.len() - 1][k] != '-');
    }
    if parts.len() == 1 {
        lemma_split_dashes_extend(Seq::empty(), last);
        assert(Seq::<char>::empty() + last =~= last);
        assert(split_dashes(Seq::<char>::empty()) == seq![Seq::<char>::empty()]);
        assert(Seq::<char>::empty() + last =~= parts[0]);
        assert(split_dashes(join_dashes(parts)) =~= parts);
    } else {
        let init = parts.drop_last();
        lemma_split_join(init);
        let y = join_dashes(init) + seq!['-'];
        assert(y.drop_last() =~= join_dashes(init));
        assert(split_dashes(y) == init.push(Seq::empty()));
        lemma_split_dashes_extend(y, last);
        assert(Seq::<char>::empty() + last =~= last);
        assert(split_dashes(join_dashes(parts)) =~= parts);
    }
}

/// The names of the digits of `n` spell `n`.
pub proof fn lemma_digit_names_value(n: nat)
    ensures
        parts_value(digit_names(animal_digits(n))) == Some(n as int),
        forall|k: int| 0 <= k < animal_digits(n).len() ==> 0 <= #[trigger] animal_digits(n)[k] < 64,
    decreases n,
{
    if n < 64 {
        lemma_animal_index_of_name(n as int);
        let ps = digit_names(animal_digits(n));
        assert(ps =~= seq![animal_names()[n as int]]);
        assert(ps.drop_last() =~= Seq::<Seq<char>>::empty());
        assert(ps.last() == animal_names()[n as int]);
        assert(parts_value(Seq::<Seq<char>>::empty()) == Some(0int));
        assert(parts_value(ps) == Some(0 * 64 + n as int));
    } else {
        lemma_digit_names_value(n / 64);
        lemma_animal_index_of_name((n % 64) as int);
        let ds = animal_digits(n / 64);
        assert(digit_names(animal_digits(n)) =~= digit_names(ds).push(animal_names()[(n % 64) as int]));
        assert(digit_names(animal_digits(n)).drop_last() =~= digit_names(ds));
        assert((n / 64) * 64 + n % 64 == n) by (nonlinear_arith);
        let ps = digit_names(animal_digits(n));
        assert(ps.last() == animal_names()[(n % 64) as int]);
        assert(parts_value(ps) == Some((n / 64) * 64 + (n % 64) as int));
    }
}

/// The animal code of an id is read back as that id.
pub proof fn lemma_animal_code_roundtrip(id: u64)
    ensures
        animal_code_value(animal_code(id as nat)) == Some(id),
{
    lemma_digit_names_value(id as nat);
    lemma_animal_name_facts();
    let parts = digit_names(animal_digits(id as nat));
    assert forall|i: int, k: int| 0 <= i < parts.len() && 0 <= k < parts[i].len() implies #[trigger] parts[i][k] != '-' by {
        let d = animal_digits(id as nat)[i];
        assert(parts[i] == animal_names()[d]);
        assert('a' <= animal_names()[d][k] <= 'z');
    }
    lemma_split_join(parts);
}

} // verus!
