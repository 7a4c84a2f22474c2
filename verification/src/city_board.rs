//! A shared board of cities with a game phase: chat lines, a start command
//! and city placements that every client hears about.
use vstd::prelude::*;
use vstd::string::StringExecFns;
use vstd::utf8::{decode_utf8, valid_utf8};

use crate::game::starts_with3;
use crate::utilities::{as_u32, copy_range, decimal, le_u32, u32_decimal, utf8_to_string};

verus! {

/// The board: a phase and the cities, each with its numbers.
pub struct CityBoardView {
    pub phase: i32,
    pub cities: Map<Seq<char>, Seq<u32>>,
}

/// `, N` for each number, in order.
pub open spec fn numbers_text(data: Seq<u32>) -> Seq<char>
    decreases data.len(),
{
    if data.len() == 0 {
        Seq::empty()
    } else {
        numbers_text(data.drop_last()) + seq![',', ' '] + decimal(data.last() as nat)
    }
}

/// The line that describes a city: `c, NAME, N, N, ...`.
pub open spec fn city_text(name: Seq<char>, data: Seq<u32>) -> Seq<char> {
    seq!['c', ',', ' '] + name + numbers_text(data)
}

/// The texts describe every city once, in some order.
pub open spec fn lists_cities(texts: Seq<Seq<char>>, cities: Map<Seq<char>, Seq<u32>>) -> bool {
    exists|names: Seq<Seq<char>>|
        {
            &&& names.no_duplicates()
            &&& names.to_set() == cities.dom()
            &&& names.len() == texts.len()
            &&& forall|i: int| 0 <= i < texts.len() ==> #[trigger] texts[i] == city_text(names[i], cities[names[i]])
        }
}

/// `msg`: a chat line.
pub open spec fn is_chat_line(b: Seq<u8>) -> bool {
    starts_with3(b, 109, 115, 103)
}

/// `sta`: start the game.
pub open spec fn is_start(b: Seq<u8>) -> bool {
    starts_with3(b, 115, 116, 97)
}

/// `plc`: place a city; two little-endian numbers follow.
pub open spec fn is_place(b: Seq<u8>) -> bool {
    starts_with3(b, 112, 108, 99)
}

/// The city that a placement puts on the board.
pub open spec fn placed_city() -> Seq<char> {
    seq!['O', 'r', 's', 'a', 'y']
}

/// The numbers of a placement: bytes 3..7 and 7..11, little-endian.
pub open spec fn placed_numbers(b: Seq<u8>) -> Seq<u32> {
    seq![le_u32(b[3], b[4], b[5], b[6]) as u32, le_u32(b[7], b[8], b[9], b[10]) as u32]
}

/// The messages the board handles: three bytes, and eleven for a placement.
pub open spec fn board_accepts(b: Seq<u8>) -> bool {
    b.len() >= 3 && (is_place(b) ==> b.len() >= 11)
}

/// The board after a message: `sta` sets the phase to 1, `plc` places the city.
pub open spec fn after_board_message(s: CityBoardView, b: Seq<u8>) -> CityBoardView {
    if is_chat_line(b) {
        s
    } else if is_start(b) {
        CityBoardView { phase: 1, ..s }
    } else if is_place(b) {
        CityBoardView { cities: s.cities.insert(placed_city(), placed_numbers(b)), ..s }
    } else {
        s
    }
}

/// The text of a chat line: `m`, then what follows `msg`.
pub open spec fn chat_line_bytes(b: Seq<u8>) -> Seq<u8> {
    seq![109u8] + b.subrange(3, b.len() as int)
}

/// The board accepts every message it can handle: any three bytes or more
/// that are not a placement, and a placement with the eleven bytes it reads
/// (the command and two four-byte numbers); it refuses only messages shorter
/// than three bytes and placements shorter than eleven.
pub proof fn lemma_board_accepts_what_it_can_read(b: Seq<u8>)
    ensures
        b.len() >= 3 && !starts_with3(b, 112, 108, 99) ==> board_accepts(b),
        starts_with3(b, 112, 108, 99) && b.len() >= 11 ==> board_accepts(b),
        board_accepts(b) ==> b.len() >= 3,
        board_accepts(b) && starts_with3(b, 112, 108, 99) ==> b.len() >= 11,
{
}

/// A chat line whose bytes are not UTF-8.
pub enum BoardError {
    NotText,
}

/// The board's cities, with distinct names.
pub struct CityBoard {
    phase: i32,
    cities: Vec<(String, Vec<u32>)>,
}

/// The names of a sequence of cities.
pub open spec fn city_names(s: Seq<(String, Vec<u32>)>) -> Seq<Seq<char>> {
    s.map_values(|c: (String, Vec<u32>)| c.0@)
}

/// The map that a sequence of cities with distinct names stands for.
pub open spec fn cities_map(s: Seq<(String, Vec<u32>)>) -> Map<Seq<char>, Seq<u32>> {
    Map::new(
        |k: Seq<char>| city_names(s).contains(k),
        |k: Seq<char>| s[choose|i: int| 0 <= i < s.len() && city_names(s)[i] == k].1@,
    )
}

proof fn lemma_cities_map_at(s: Seq<(String, Vec<u32>)>, i: int)
    requires
        city_names(s).no_duplicates(),
        0 <= i < s.len(),
    ensures
        cities_map(s).contains_key(s[i].0@),
        cities_map(s)[s[i].0@] == s[i].1@,
{
    assert(city_names(s)[i] == s[i].0@);
    let j = choose|j: int| 0 <= j < s.len() && city_names(s)[j] == s[i].0@;
    assert(city_names(s)[j] == city_names(s)[i]);
}

impl View for CityBoard {
    type V = CityBoardView;

    closed spec fn view(&self) -> CityBoardView {
        CityBoardView { phase: self.phase, cities: cities_map(self.cities@) }
    }
}

/// The line for a city: `c, `, its name, then `, N` for each number.
pub fn city_to_string(city_id: String, city_data: Vec<u32>) -> (res: String)
    ensures
        res@ == city_text(city_id@, city_data@),
{
    proof {
        reveal_strlit("c, ");
        reveal_strlit(", ");
    }
    let mut string = String::from_str("c, ");
    assert("c, "@ =~= seq!['c', ',', ' ']);
    string.append(city_id.as_str());
    assert(string@ =~= city_text(city_id@, city_data@.take(0)));
    let mut i: usize = 0;
    while i < city_data.len()
        invariant
            i <= city_data@.len(),
            string@ == city_text(city_id@, city_data@.take(i as int)),
        decreases city_data@.len() - i,
    {
        string.append(", ");
        let d = u32_decimal(city_data[i]);
        string.append(d.as_str());
        assert(city_data@.take(i + 1).drop_last() =~= city_data@.take(i as int));
        assert(numbers_text(city_data@.take(i + 1)) == numbers_text(city_data@.take(i as int)) + seq![',', ' ']
            + decimal(city_data@[i as int] as nat));
        proof {
            reveal_strlit(", ");
            assert(", "@ =~= seq![',', ' ']);
        }
        assert(string@ =~= city_text(city_id@, city_data@.take(i + 1)));
        i = i + 1;
    }
    assert(city_data@.take(city_data@.len() as int) =~= city_data@);
    string
}

/// A broadcast as it goes on the wire: the text, then `|end|`.
pub fn with_end_marker(text: String) -> (res: String)
    ensures
        res@ == text@ + seq!['|', 'e', 'n', 'd', '|'],
{
    proof {
        reveal_strlit("|end|");
    }
    let mut t = text;
    t.append("|end|");
    t
}

impl CityBoard {
    /// Whether the board can handle `message` (see `board_accepts`).
    pub fn accepts(message: &Vec<u8>) -> (res: bool)
        ensures
            res == board_accepts(message@),
            res == (message@.len() >= 3 && !(starts_with3(message@, 112, 108, 99) && message@.len() < 11)),
            starts_with3(message@, 112, 108, 99) && message@.len() >= 11 ==> res,
    {
        if message.len() < 3 {
            return false;
        }
        if message[0] == 112 && message[1] == 108 && message[2] == 99 {
            return message.len() >= 11;
        }
        true
    }

    /// Names are distinct.
    pub closed spec fn wf(&self) -> bool {
        city_names(self.cities@).no_duplicates()
    }

    /// Phase 0 and the city `Test` at 800, 800.
    pub fn new() -> (res: CityBoard)
        ensures
            res.wf(),
            res@ == (CityBoardView {
                phase: 0,
                cities: Map::empty().insert(seq!['T', 'e', 's', 't'], seq![800u32, 800u32]),
            }),
    {
        proof {
            reveal_strlit("Test");
        }
        let name = String::from_str("Test");
        assert(name@ =~= seq!['T', 'e', 's', 't']);
        let data: Vec<u32> = vec![800u32, 800u32];
        let mut cities: Vec<(String, Vec<u32>)> = Vec::new();
        cities.push((name, data));
        let res = CityBoard { phase: 0, cities };
        proof {
            assert(city_names(res.cities@) =~= seq![seq!['T', 'e', 's', 't']]);
            lemma_cities_map_at(res.cities@, 0);
            assert(res@.cities =~= Map::empty().insert(seq!['T', 'e', 's', 't'], seq![800u32, 800u32]));
        }
        res
    }

    fn place(&mut self, name: String, data: Vec<u32>)
        requires
            old(self).wf(),
        ensures
            final(self).wf(),
            final(self)@ == (CityBoardView { cities: old(self)@.cities.insert(name@, data@), ..old(self)@ }),
    {
        let ghost before = self.cities@;
        let ghost target = old(self)@.cities.insert(name@, data@);
        let mut i: usize = 0;
        while i < self.cities.len()
            invariant
                i <= self.cities@.len(),
                self.cities@ == before,
                self.phase == old(self).phase,
                city_names(before).no_duplicates(),
                target == old(self)@.cities.insert(name@, data@),
                before == old(self).cities@,
                forall|j: int| 0 <= j < i ==> city_names(before)[j] != name@,
            decreases self.cities@.len() - i,
        {
            if self.cities[i].0 == name {
                let ghost nv = name@;
                self.cities.set(i, (name, data));
                let ghost after = self.cities@;
                proof {
                    assert(city_names(after) =~= city_names(before).update(i as int, nv));
                    assert(city_names(before)[i as int] == nv);
                    assert(city_names(after) =~= city_names(before));
                    assert(city_names(before).contains(nv));
                    assert forall|k: Seq<char>| city_names(after).contains(k) <==> city_names(before).contains(k) by {
                        if city_names(after).contains(k) {
                            let j = choose|j: int| 0 <= j < city_names(after).len() && city_names(after)[j] == k;
                            assert(city_names(before)[j] == k);
                        }
                        if city_names(before).contains(k) {
                            let j = choose|j: int| 0 <= j < city_names(before).len() && city_names(before)[j] == k;
                            assert(city_names(after)[j] == k);
                        }
                    }
                    assert forall|k: Seq<char>| #[trigger] cities_map(after).contains_key(k) implies cities_map(after)[k] == target[k] by {
                        let j = choose|j: int| 0 <= j < city_names(after).len() && city_names(after)[j] == k;
                        lemma_cities_map_at(after, j);
                        if j != i {
                            lemma_cities_map_at(before, j);
                            assert(city_names(before)[j] != city_names(before)[i as int]);
                        }
                    }
                    assert(cities_map(after) =~= target);
                }
                return;
            }
            i = i + 1;
        }
        let ghost nv = name@;
        self.cities.push((name, data));
        let ghost after = self.cities@;
        proof {
            assert(city_names(after) =~= city_names(before).push(nv));
            assert(city_names(after).no_duplicates()) by {
                assert forall|a: int, b: int| 0 <= a < city_names(after).len() && 0 <= b < city_names(after).len() && a != b
                    implies city_names(after)[a] != city_names(after)[b] by {
                    if a < before.len() && b < before.len() {
                    } else if a < before.len() {
                        assert(city_names(before)[a] != nv);
                    } else {
                        assert(city_names(before)[b] != nv);
                    }
                }
            }
            assert forall|k: Seq<char>| city_names(after).contains(k) <==> (city_names(before).contains(k) || k == nv) by {
                if city_names(after).contains(k) {
                    let j = choose|j: int| 0 <= j < city_names(after).len() && city_names(after)[j] == k;
                    if j < before.len() {
                        assert(city_names(before)[j] == k);
                    }
                }
                if city_names(before).contains(k) {
                    let j = choose|j: int| 0 <= j < city_names(before).len() && city_names(before)[j] == k;
                    assert(city_names(after)[j] == k);
                }
                if k == nv {
                    assert(city_names(after)[before.len() as int] == k);
                }
            }
            assert forall|k: Seq<char>| #[trigger] cities_map(after).contains_key(k) implies cities_map(after)[k] == target[k] by {
                let j = choose|j: int| 0 <= j < city_names(after).len() && city_names(after)[j] == k;
                lemma_cities_map_at(after, j);
                if j < before.len() {
                    lemma_cities_map_at(before, j);
                }
            }
            assert(cities_map(after) =~= target);
        }
    }

    /// The line of every city, once each.
    pub fn city_lines(&self) -> (res: Vec<String>)
        requires
            self.wf(),
        ensures
            lists_cities(res@.map_values(|s: String| s@), self@.cities),
    {
        let mut res: Vec<String> = Vec::new();
        let mut i: usize = 0;
        while i < self.cities.len()
            invariant
                i <= self.cities@.len(),
                res@.len() == i,
                forall|j: int| 0 <= j < i ==> (#[trigger] res@[j])@ == city_text(self.cities@[j].0@, self.cities@[j].1@),
            decreases self.cities@.len() - i,
        {
            let line = city_to_string(self.cities[i].0.clone(), self.cities[i].1.clone());
            res.push(line);
            i = i + 1;
        }
        proof {
            let names = city_names(self.cities@);
            let texts = res@.map_values(|s: String| s@);
            assert forall|j: int| 0 <= j < texts.len() implies #[trigger] texts[j] == city_text(names[j], self@.cities[names[j]]) by {
                lemma_cities_map_at(self.cities@, j);
            }
            assert(names.to_set() =~= self@.cities.dom());
        }
        res
    }

    /// Handles a client's message (see `after_board_message`) and gives what
    /// to broadcast: the chat line (`m` first), `s` for a start, or the line
    /// of every city after a placement.
    pub fn handle_message(&mut self, message: &Vec<u8>) -> (res: Result<Vec<String>, BoardError>)
        requires
            old(self).wf(),
            board_accepts(message@),
        ensures
            final(self).wf(),
            final(self)@ == after_board_message(old(self)@, message@),
            is_chat_line(message@) ==> match res {
                Ok(v) => valid_utf8(chat_line_bytes(message@)) && v@.len() == 1 && v@[0]@ == decode_utf8(chat_line_bytes(message@)),
                Err(_) => !valid_utf8(chat_line_bytes(message@)),
            },
            !is_chat_line(message@) && is_start(message@) ==> (res matches Ok(v) && v@.len() == 1 && v@[0]@ == seq!['s']),
            !is_chat_line(message@) && !is_start(message@) && is_place(message@) ==> (res matches Ok(v)
                && lists_cities(v@.map_values(|s: String| s@), final(self)@.cities)),
            !is_chat_line(message@) && !is_start(message@) && !is_place(message@) ==> (res matches Ok(v) && v@.len() == 0),
    {
        let b0 = message[0];
        let b1 = message[1];
        let b2 = message[2];
        if b0 == 109 && b1 == 115 && b2 == 103 {
            let mut line: Vec<u8> = vec![109u8];
            let mut rest = copy_range(message, 3, message.len());
            line.append(&mut rest);
            assert(line@ =~= chat_line_bytes(message@));
            return match utf8_to_string(line) {
                Some(t) => {
                    let mut v: Vec<String> = Vec::new();
                    v.push(t);
                    Ok(v)
                },
                None => Err(BoardError::NotText),
            };
        } else if b0 == 115 && b1 == 116 && b2 == 97 {
            self.phase = 1;
            proof {
                reveal_strlit("s");
            }
            let s = String::from_str("s");
            assert(s@ =~= seq!['s']);
            let mut v: Vec<String> = Vec::new();
            v.push(s);
            return Ok(v);
        } else if b0 == 112 && b1 == 108 && b2 == 99 {
            let x = as_u32(copy_range(message, 3, 7));
            let y = as_u32(copy_range(message, 7, 11));
            proof {
                reveal_strlit("Orsay");
            }
            let name = String::from_str("Orsay");
            assert(name@ =~= placed_city());
            let data: Vec<u32> = vec![x, y];
            assert(data@ =~= placed_numbers(message@));
            self.place(name, data);
            return Ok(self.city_lines());
        }
        Ok(Vec::new())
    }
}

} // verus!
