//! Decks, and the text in which a deck is kept on disk: one line per card,
//! holding the card's number, under marker lines that open the main, the
//! extra and the side section.

use crate::text::{chars_of, contains, contains_text, number, parse_u32, trimmed};
use crate::yugioh::YugiohCard;
use vstd::prelude::*;

verus! {

/// A section of a deck, or none.
#[derive(Debug, Clone, Copy, PartialEq, Eq, Structural)]
pub enum DeckType {
    NoDeck,
    Main,
    Extra,
    Side,
}

/// A deck: the cards of each section, each card given by its position in
/// the list of all cards.
#[derive(Debug, Clone)]
pub struct YugiohDeck {
    pub main_deck: Vec<usize>,
    pub extra_deck: Vec<usize>,
    pub side_deck: Vec<usize>,
    pub been_loaded: bool,
}

/// What has been read of a deck text so far: the section that is open, the
/// cards of each section, and the numbers that no card has.
pub struct DeckScan {
    pub section: DeckType,
    pub main_deck: Seq<usize>,
    pub extra_deck: Seq<usize>,
    pub side_deck: Seq<usize>,
    pub missing: Seq<u32>,
}

/// The lines of `text`: what stands between its line feeds, before the
/// first and after the last. A text without line feed is one line.
pub open spec fn lines(text: Seq<char>) -> Seq<Seq<char>>
    decreases text.len(),
{
    if text.len() == 0 {
        seq![Seq::empty()]
    } else {
        let before = lines(text.drop_last());
        if text.last() == '\n' {
            before.push(Seq::empty())
        } else {
            before.drop_last().push(before.last().push(text.last()))
        }
    }
}

/// The position of the first of `ids` that is `id`.
pub open spec fn position(ids: Seq<u32>, id: u32) -> Option<int>
    decreases ids.len(),
{
    if ids.len() == 0 {
        None
    } else if ids[0] == id {
        Some(0)
    } else {
        match position(ids.drop_first(), id) {
            Some(at) => Some(at + 1),
            None => None,
        }
    }
}

/// The numbers of `cards`, in their order.
pub open spec fn card_ids(cards: Seq<YugiohCard>) -> Seq<u32> {
    cards.map_values(|card: YugiohCard| card.id)
}

/// The section that is open after a line that writes no number: the one
/// whose marker the line holds, the main section's marker going before the
/// extra section's and that before the side section's, or else the section
/// that was open before.
pub open spec fn marked(line: Seq<char>, section: DeckType) -> DeckType {
    if contains(line, "#main"@) {
        DeckType::Main
    } else if contains(line, "#extra"@) {
        DeckType::Extra
    } else if contains(line, "!side"@) {
        DeckType::Side
    } else {
        section
    }
}

/// What has been read once `line` is read after `scan`. A line that writes
/// a number, white space around it set aside, names a card: the first card
/// of that number joins the open section, if one is open, and a number that
/// no card has is noted as missing. Any other line may open a section.
pub open spec fn scan_line(scan: DeckScan, line: Seq<char>, ids: Seq<u32>) -> DeckScan {
    match number(trimmed(line)) {
        Some(id) => match position(ids, id) {
            Some(at) => match scan.section {
                DeckType::Main => DeckScan { main_deck: scan.main_deck.push(at as usize), ..scan },
                DeckType::Extra => DeckScan {
                    extra_deck: scan.extra_deck.push(at as usize),
                    ..scan
                },
                DeckType::Side => DeckScan { side_deck: scan.side_deck.push(at as usize), ..scan },
                DeckType::NoDeck => scan,
            },
            None => DeckScan { missing: scan.missing.push(id), ..scan },
        },
        None => DeckScan { section: marked(line, scan.section), ..scan },
    }
}

/// What has been read once all of `lines` are read, in their order, with no
/// section open at first.
pub open spec fn scan_lines(lines: Seq<Seq<char>>, ids: Seq<u32>) -> DeckScan
    decreases lines.len(),
{
    if lines.len() == 0 {
        DeckScan {
            section: DeckType::NoDeck,
            main_deck: Seq::empty(),
            extra_deck: Seq::empty(),
            side_deck: Seq::empty(),
            missing: Seq::empty(),
        }
    } else {
        scan_line(scan_lines(lines.drop_last(), ids), lines.last(), ids)
    }
}

/// `position` finds the first of `ids` that is `id`: none before it is, and
/// it finds nothing only where none is.
pub proof fn lemma_position_is_first(ids: Seq<u32>, id: u32)
    ensures
        match position(ids, id) {
            Some(at) => 0 <= at < ids.len() && ids[at] == id && forall|j: int|
                0 <= j < at ==> #[trigger] ids[j] != id,
            None => forall|j: int| 0 <= j < ids.len() ==> #[trigger] ids[j] != id,
        },
    decreases ids.len(),
{
    if ids.len() > 0 && ids[0] != id {
        let rest = ids.drop_first();
        lemma_position_is_first(rest, id);
        match position(rest, id) {
            Some(at) => {
                assert forall|j: int| 0 <= j < at + 1 implies #[trigger] ids[j] != id by {
                    if j > 0 {
                        assert(ids[j] == rest[j - 1]);
                    }
                }
            },
            None => {
                assert forall|j: int| 0 <= j < ids.len() implies #[trigger] ids[j] != id by {
                    if j > 0 {
                        assert(ids[j] == rest[j - 1]);
                    }
                }
            },
        }
    }
}

/// Every text has at least one line.
pub proof fn lemma_lines_not_empty(text: Seq<char>)
    ensures
        lines(text).len() > 0,
    decreases text.len(),
{
    if text.len() > 0 {
        lemma_lines_not_empty(text.drop_last());
    }
}

/// Every card that reading puts into a section is a position in the list
/// of cards, and the card there has a number that some line wrote.
pub proof fn lemma_scan_positions_valid(lines: Seq<Seq<char>>, ids: Seq<u32>)
    ensures
        forall|i: int|
            0 <= i < scan_lines(lines, ids).main_deck.len() ==> (#[trigger] scan_lines(
                lines,
                ids,
            ).main_deck[i]) < ids.len(),
        forall|i: int|
            0 <= i < scan_lines(lines, ids).extra_deck.len() ==> (#[trigger] scan_lines(
                lines,
                ids,
            ).extra_deck[i]) < ids.len(),
        forall|i: int|
            0 <= i < scan_lines(lines, ids).side_deck.len() ==> (#[trigger] scan_lines(
                lines,
                ids,
            ).side_deck[i]) < ids.len(),
    decreases lines.len(),
{
    if lines.len() > 0 {
        lemma_scan_positions_valid(lines.drop_last(), ids);
        match number(trimmed(lines.last())) {
            Some(id) => {
                lemma_position_is_first(ids, id);
            },
            None => {},
        }
    }
}

/// The position of the first of `cards` whose number is `id`.
pub fn find_card(cards: &[YugiohCard], id: u32) -> (r: Option<usize>)
    ensures
        match r {
            Some(at) => position(card_ids(cards@), id) == Some(at as int) && at < cards@.len(),
            None => position(card_ids(cards@), id) is None,
        },
{
    let ghost ids = card_ids(cards@);
    let mut at: usize = 0;
    while at < cards.len()
        invariant
            at <= cards@.len(),
            ids == card_ids(cards@),
            forall|j: int| 0 <= j < at ==> #[trigger] ids[j] != id,
        decreases cards@.len() - at,
    {
        if cards[at].id == id {
            proof {
                lemma_position_is_first(ids, id);
                assert(ids[at as int] == id);
            }
            return Some(at);
        }
        at += 1;
    }
    proof {
        lemma_position_is_first(ids, id);
    }
    None
}

/// Whether `card` is among `cards`.
fn holds(cards: &Vec<usize>, card: usize) -> (r: bool)
    ensures
        r == cards@.contains(card),
{
    let mut i: usize = 0;
    while i < cards.len()
        invariant
            i <= cards@.len(),
            forall|j: int| 0 <= j < i ==> cards@[j] != card,
        decreases cards@.len() - i,
    {
        if cards[i] == card {
            return true;
        }
        i += 1;
    }
    false
}

/// A deck text that is being read, line by line.
struct DeckReader {
    section: DeckType,
    deck: YugiohDeck,
    missing: Vec<u32>,
}

impl View for DeckReader {
    type V = DeckScan;

    closed spec fn view(&self) -> DeckScan {
        DeckScan {
            section: self.section,
            main_deck: self.deck.main_deck@,
            extra_deck: self.deck.extra_deck@,
            side_deck: self.deck.side_deck@,
            missing: self.missing@,
        }
    }
}

impl DeckReader {
    /// Reads one more line.
    fn read_line(
        &mut self,
        line: &[char],
        cards: &[YugiohCard],
        main: &[char],
        extra: &[char],
        side: &[char],
    )
        requires
            main@ == "#main"@,
            extra@ == "#extra"@,
            side@ == "!side"@,
        ensures
            final(self)@ == scan_line(old(self)@, line@, card_ids(cards@)),
            final(self).deck.been_loaded == old(self).deck.been_loaded,
    {
        match parse_u32(line) {
            Some(id) => match find_card(cards, id) {
                Some(at) => match self.section {
                    DeckType::Main => self.deck.main_deck.push(at),
                    DeckType::Extra => self.deck.extra_deck.push(at),
                    DeckType::Side => self.deck.side_deck.push(at),
                    DeckType::NoDeck => (),
                },
                None => self.missing.push(id),
            },
            None => {
                if contains_text(line, main) {
                    self.section = DeckType::Main;
                } else if contains_text(line, extra) {
                    self.section = DeckType::Extra;
                } else if contains_text(line, side) {
                    self.section = DeckType::Side;
                }
            },
        }
    }
}

impl YugiohDeck {
    /// A deck without cards.
    pub fn new(been_loaded: bool) -> (r: Self)
        ensures
            r.main_deck@ == Seq::<usize>::empty(),
            r.extra_deck@ == Seq::<usize>::empty(),
            r.side_deck@ == Seq::<usize>::empty(),
            r.been_loaded == been_loaded,
    {
        Self { main_deck: Vec::new(), extra_deck: Vec::new(), side_deck: Vec::new(), been_loaded }
    }

    /// The deck that `text` describes, its cards given by their positions
    /// in `cards`, and beside it the numbers in `text` that no card has, in
    /// the order of their lines.
    pub fn from_text(text: &str, cards: &[YugiohCard]) -> (r: (Self, Vec<u32>))
        ensures
            r.0.main_deck@ == scan_lines(lines(text@), card_ids(cards@)).main_deck,
            r.0.extra_deck@ == scan_lines(lines(text@), card_ids(cards@)).extra_deck,
            r.0.side_deck@ == scan_lines(lines(text@), card_ids(cards@)).side_deck,
            r.0.been_loaded,
            r.1@ == scan_lines(lines(text@), card_ids(cards@)).missing,
            forall|i: int| 0 <= i < r.0.main_deck@.len() ==> (#[trigger] r.0.main_deck@[i]) < cards@.len(),
            forall|i: int|
                0 <= i < r.0.extra_deck@.len() ==> (#[trigger] r.0.extra_deck@[i]) < cards@.len(),
            forall|i: int| 0 <= i < r.0.side_deck@.len() ==> (#[trigger] r.0.side_deck@[i]) < cards@.len(),
    {
        let ghost ids = card_ids(cards@);
        let main = chars_of("#main");
        let extra = chars_of("#extra");
        let side = chars_of("!side");
        let mut reader = DeckReader {
            section: DeckType::NoDeck,
            deck: YugiohDeck::new(true),
            missing: Vec::new(),
        };
        let mut line: Vec<char> = Vec::new();
        proof {
            assert(text@.take(0) == Seq::<char>::empty());
            assert(lines(Seq::<char>::empty()).drop_last() == Seq::<Seq<char>>::empty());
        }
        for c in it: text.chars()
            invariant
                it.seq() == text@,
                ids == card_ids(cards@),
                main@ == "#main"@,
                extra@ == "#extra"@,
                side@ == "!side"@,
                reader.deck.been_loaded,
                line@ == lines(text@.take(it.index() as int)).last(),
                reader@ == scan_lines(lines(text@.take(it.index() as int)).drop_last(), ids),
        {
            proof {
                let k = it.index() as int;
                let before = lines(text@.take(k));
                lemma_lines_not_empty(text@.take(k));
                assert(text@.take(k + 1).drop_last() == text@.take(k));
                assert(text@.take(k + 1).last() == c);
                if c == '\n' {
                    assert(before.push(Seq::empty()).drop_last() == before);
                } else {
                    assert(before.drop_last().push(before.last().push(c)).drop_last()
                        == before.drop_last());
                }
            }
            if c == '\n' {
                reader.read_line(line.as_slice(), cards, main.as_slice(), extra.as_slice(), side.as_slice());
                line = Vec::new();
            } else {
                line.push(c);
            }
        }
        proof {
            assert(text@.take(text@.len() as int) == text@);
            lemma_lines_not_empty(text@);
            lemma_scan_positions_valid(lines(text@), ids);
        }
        reader.read_line(line.as_slice(), cards, main.as_slice(), extra.as_slice(), side.as_slice());
        (reader.deck, reader.missing)
    }

    /// The section that holds `card`: the main one before the extra one,
    /// and that before the side one.
    pub fn contains_card(&self, card: usize) -> (r: DeckType)
        ensures
            r == if self.main_deck@.contains(card) {
                DeckType::Main
            } else if self.extra_deck@.contains(card) {
                DeckType::Extra
            } else if self.side_deck@.contains(card) {
                DeckType::Side
            } else {
                DeckType::NoDeck
            },
    {
        if holds(&self.main_deck, card) {
            DeckType::Main
        } else if holds(&self.extra_deck, card) {
            DeckType::Extra
        } else if holds(&self.side_deck, card) {
            DeckType::Side
        } else {
            DeckType::NoDeck
        }
    }
}

} // verus!
