//! The order in which cards are listed: by name or by number, upwards or
//! downwards.

use crate::yugioh::YugiohCard;
use vstd::prelude::*;
use vstd::utf8::encode_utf8;

verus! {

/// What cards are ordered by.
#[derive(Debug, Clone, Copy, PartialEq, Eq, Structural)]
pub enum SortingType {
    Name,
    Id,
}

/// Whether the order goes upwards or downwards.
#[derive(Debug, Clone, Copy, PartialEq, Eq, Structural)]
pub enum SortOrder {
    Asc,
    Dsc,
}

/// An order of cards.
#[derive(Debug, Clone, Copy, PartialEq, Eq, Structural)]
pub struct SortingMode {
    pub stype: SortingType,
    pub order: SortOrder,
}

/// How one thing stands to another in an order.
#[derive(Debug, Clone, Copy, PartialEq, Eq, Structural)]
pub enum Rank {
    Less,
    Equal,
    Greater,
}

/// How `a` stands to `b` when bytes are compared one by one from the start
/// and, where one text ends before they differ, the shorter comes first.
pub open spec fn ranked(a: Seq<u8>, b: Seq<u8>) -> Rank
    decreases a.len(),
{
    if a.len() == 0 && b.len() == 0 {
        Rank::Equal
    } else if a.len() == 0 {
        Rank::Less
    } else if b.len() == 0 {
        Rank::Greater
    } else if a[0] < b[0] {
        Rank::Less
    } else if a[0] > b[0] {
        Rank::Greater
    } else {
        ranked(a.drop_first(), b.drop_first())
    }
}

/// How the number `a` stands to the number `b`.
pub open spec fn ranked_ids(a: u32, b: u32) -> Rank {
    if a < b {
        Rank::Less
    } else if a > b {
        Rank::Greater
    } else {
        Rank::Equal
    }
}

/// The rank seen from the other side.
pub open spec fn reversed(rank: Rank) -> Rank {
    match rank {
        Rank::Less => Rank::Greater,
        Rank::Equal => Rank::Equal,
        Rank::Greater => Rank::Less,
    }
}

impl SortingMode {
    /// How `a` stands to `b` in this order: by the bytes of their names as
    /// UTF-8 or by their numbers, and the other way round where the order
    /// goes downwards.
    pub open spec fn ranks(self, a: YugiohCard, b: YugiohCard) -> Rank {
        let upwards = match self.stype {
            SortingType::Name => ranked(encode_utf8(a.name@), encode_utf8(b.name@)),
            SortingType::Id => ranked_ids(a.id, b.id),
        };
        match self.order {
            SortOrder::Asc => upwards,
            SortOrder::Dsc => reversed(upwards),
        }
    }
}

/// Seen from the other side, a rank is reversed.
pub proof fn lemma_ranked_antisymmetric(a: Seq<u8>, b: Seq<u8>)
    ensures
        ranked(b, a) == reversed(ranked(a, b)),
    decreases a.len(),
{
    if a.len() > 0 && b.len() > 0 && a[0] == b[0] {
        lemma_ranked_antisymmetric(a.drop_first(), b.drop_first());
    }
}

/// Two texts rank equal exactly when they are the same.
pub proof fn lemma_ranked_equal(a: Seq<u8>, b: Seq<u8>)
    ensures
        ranked(a, b) == Rank::Equal <==> a == b,
    decreases a.len(),
{
    if a.len() > 0 && b.len() > 0 && a[0] == b[0] {
        lemma_ranked_equal(a.drop_first(), b.drop_first());
        if a.drop_first() == b.drop_first() {
            assert(a =~= seq![a[0]] + a.drop_first());
            assert(b =~= seq![b[0]] + b.drop_first());
        }
    } else if a.len() == 0 && b.len() == 0 {
        assert(a =~= b);
    }
}

/// What comes no later than something that comes no later than a third
/// comes no later than the third, and strictly before it where either step
/// is strict.
pub proof fn lemma_ranked_transitive(a: Seq<u8>, b: Seq<u8>, c: Seq<u8>)
    requires
        ranked(a, b) != Rank::Greater,
        ranked(b, c) != Rank::Greater,
    ensures
        ranked(a, c) != Rank::Greater,
        ranked(a, b) == Rank::Less || ranked(b, c) == Rank::Less ==> ranked(a, c) == Rank::Less,
    decreases a.len(),
{
    if a.len() > 0 && b.len() > 0 && c.len() > 0 && a[0] == b[0] && b[0] == c[0] {
        lemma_ranked_transitive(a.drop_first(), b.drop_first(), c.drop_first());
    }
}

/// Every order of cards is total: seen from the other side a rank is
/// reversed, and ranks follow one another as in `lemma_ranked_transitive`.
pub proof fn lemma_ranks_total(mode: SortingMode, a: YugiohCard, b: YugiohCard, c: YugiohCard)
    ensures
        mode.ranks(b, a) == reversed(mode.ranks(a, b)),
        mode.ranks(a, a) == Rank::Equal,
        mode.ranks(a, b) != Rank::Greater && mode.ranks(b, c) != Rank::Greater ==> mode.ranks(
            a,
            c,
        ) != Rank::Greater,
        (mode.ranks(a, b) == Rank::Less && mode.ranks(b, c) != Rank::Greater) || (mode.ranks(a, b)
            != Rank::Greater && mode.ranks(b, c) == Rank::Less) ==> mode.ranks(a, c)
            == Rank::Less,
{
    let na = encode_utf8(a.name@);
    let nb = encode_utf8(b.name@);
    let nc = encode_utf8(c.name@);
    lemma_ranked_antisymmetric(na, nb);
    lemma_ranked_equal(na, na);
    match mode.order {
        SortOrder::Asc => {
            if ranked(na, nb) != Rank::Greater && ranked(nb, nc) != Rank::Greater {
                lemma_ranked_transitive(na, nb, nc);
            }
        },
        SortOrder::Dsc => {
            lemma_ranked_antisymmetric(nb, nc);
            lemma_ranked_antisymmetric(na, nc);
            if ranked(nc, nb) != Rank::Greater && ranked(nb, na) != Rank::Greater {
                lemma_ranked_transitive(nc, nb, na);
            }
        },
    }
}

/// Whether, where cards are listed in the order `mode`, the card at
/// position `x` of `cards` stands no later than the card at position `y`.
/// The greater of two cards stands first; of two cards that rank equal, the
/// one further back in `cards` stands first.
pub open spec fn listed_no_later(
    mode: SortingMode,
    cards: Seq<YugiohCard>,
    x: usize,
    y: usize,
) -> bool {
    match mode.ranks(cards[x as int], cards[y as int]) {
        Rank::Greater => true,
        Rank::Equal => x >= y,
        Rank::Less => false,
    }
}

/// Whether `listing` lists positions of `cards` in the order `mode`.
pub open spec fn is_listed(mode: SortingMode, cards: Seq<YugiohCard>, listing: Seq<usize>) -> bool {
    &&& forall|i: int| 0 <= i < listing.len() ==> (#[trigger] listing[i]) < cards.len()
    &&& forall|i: int, j: int|
        0 <= i < j < listing.len() ==> listed_no_later(mode, cards, listing[i], listing[j])
}

/// Of two positions one stands no later than the other; each stands no
/// later than the other only where they are the same position; and what
/// stands no later than something that stands no later than a third stands
/// no later than the third. So a listing of given positions, none of them
/// twice, is settled by its order.
pub proof fn lemma_listed_total(
    mode: SortingMode,
    cards: Seq<YugiohCard>,
    x: usize,
    y: usize,
    z: usize,
)
    ensures
        listed_no_later(mode, cards, x, y) || listed_no_later(mode, cards, y, x),
        listed_no_later(mode, cards, x, y) && listed_no_later(mode, cards, y, x) ==> x == y,
        listed_no_later(mode, cards, x, y) && listed_no_later(mode, cards, y, z)
            ==> listed_no_later(mode, cards, x, z),
{
    lemma_ranks_total(mode, cards[x as int], cards[y as int], cards[z as int]);
    lemma_ranks_total(mode, cards[z as int], cards[y as int], cards[x as int]);
    lemma_ranks_total(mode, cards[x as int], cards[z as int], cards[y as int]);
}

/// Two listings of the same positions, none of them twice, in the same
/// order are the same listing.
pub proof fn lemma_listing_settled(
    mode: SortingMode,
    cards: Seq<YugiohCard>,
    a: Seq<usize>,
    b: Seq<usize>,
)
    requires
        is_listed(mode, cards, a),
        is_listed(mode, cards, b),
        a.no_duplicates(),
        b.no_duplicates(),
        a.to_multiset() == b.to_multiset(),
    ensures
        a == b,
    decreases a.len(),
{
    broadcast use vstd::seq_lib::group_to_multiset_ensures;

    assert(a.len() == a.to_multiset().len());
    assert(b.len() == b.to_multiset().len());
    if a.len() > 0 {
        assert(b.contains(a[0])) by {
            assert(a.contains(a[0]));
            assert(a.to_multiset().count(a[0]) > 0);
        }
        assert(a.contains(b[0])) by {
            assert(b.contains(b[0]));
            assert(b.to_multiset().count(b[0]) > 0);
        }
        let i = choose|i: int| 0 <= i < b.len() && b[i] == a[0];
        let j = choose|j: int| 0 <= j < a.len() && a[j] == b[0];
        lemma_listed_total(mode, cards, a[0], b[0], a[0]);
        lemma_listed_total(mode, cards, a[0], a[0], a[0]);
        assert(listed_no_later(mode, cards, b[0], a[0])) by {
            if i > 0 {
                assert(listed_no_later(mode, cards, b[0], b[i]));
            }
        }
        assert(listed_no_later(mode, cards, a[0], b[0])) by {
            if j > 0 {
                assert(listed_no_later(mode, cards, a[0], a[j]));
            }
        }
        assert(a[0] == b[0]);
        let a_rest = a.drop_first();
        let b_rest = b.drop_first();
        assert(a_rest == a.remove(0));
        assert(b_rest == b.remove(0));
        assert(a_rest.to_multiset() == b_rest.to_multiset());
        assert(a_rest.no_duplicates()) by {
            assert forall|x: int, y: int|
                0 <= x < a_rest.len() && 0 <= y < a_rest.len() && x != y implies a_rest[x]
                != a_rest[y] by {
                assert(a_rest[x] == a[x + 1] && a_rest[y] == a[y + 1]);
            }
        }
        assert(b_rest.no_duplicates()) by {
            assert forall|x: int, y: int|
                0 <= x < b_rest.len() && 0 <= y < b_rest.len() && x != y implies b_rest[x]
                != b_rest[y] by {
                assert(b_rest[x] == b[x + 1] && b_rest[y] == b[y + 1]);
            }
        }
        assert(is_listed(mode, cards, a_rest)) by {
            assert forall|x: int| 0 <= x < a_rest.len() implies (#[trigger] a_rest[x])
                < cards.len() by {
                assert(a_rest[x] == a[x + 1]);
            }
            assert forall|x: int, y: int| 0 <= x < y < a_rest.len() implies listed_no_later(
                mode,
                cards,
                a_rest[x],
                a_rest[y],
            ) by {
                assert(a_rest[x] == a[x + 1] && a_rest[y] == a[y + 1]);
            }
        }
        assert(is_listed(mode, cards, b_rest)) by {
            assert forall|x: int| 0 <= x < b_rest.len() implies (#[trigger] b_rest[x])
                < cards.len() by {
                assert(b_rest[x] == b[x + 1]);
            }
            assert forall|x: int, y: int| 0 <= x < y < b_rest.len() implies listed_no_later(
                mode,
                cards,
                b_rest[x],
                b_rest[y],
            ) by {
                assert(b_rest[x] == b[x + 1] && b_rest[y] == b[y + 1]);
            }
        }
        lemma_listing_settled(mode, cards, a_rest, b_rest);
        assert(a =~= seq![a[0]] + a_rest);
        assert(b =~= seq![b[0]] + b_rest);
    } else {
        assert(a =~= b);
    }
}

/// How `a` stands to `b`, byte by byte.
pub fn rank_bytes(a: &[u8], b: &[u8]) -> (r: Rank)
    ensures
        r == ranked(a@, b@),
{
    let mut i: usize = 0;
    assert(a@.skip(0) == a@ && b@.skip(0) == b@);
    while i < a.len() && i < b.len()
        invariant
            i <= a@.len(),
            i <= b@.len(),
            ranked(a@, b@) == ranked(a@.skip(i as int), b@.skip(i as int)),
        decreases a@.len() - i,
    {
        if a[i] < b[i] {
            return Rank::Less;
        }
        if a[i] > b[i] {
            return Rank::Greater;
        }
        assert(a@.skip(i as int).drop_first() == a@.skip(i + 1));
        assert(b@.skip(i as int).drop_first() == b@.skip(i + 1));
        i += 1;
    }
    if i < b.len() {
        Rank::Less
    } else if i < a.len() {
        Rank::Greater
    } else {
        Rank::Equal
    }
}

impl SortingMode {
    /// Whether the card at position `x` is listed no later than the one at
    /// position `y`.
    fn no_later(&self, cards: &[YugiohCard], x: usize, y: usize) -> (r: bool)
        requires
            x < cards@.len(),
            y < cards@.len(),
        ensures
            r == listed_no_later(*self, cards@, x, y),
    {
        match self.compare(&cards[x], &cards[y]) {
            Rank::Greater => true,
            Rank::Equal => x >= y,
            Rank::Less => false,
        }
    }

    /// Where `x` goes in `listing` so that it stays in order.
    fn insertion_point(&self, cards: &[YugiohCard], listing: &Vec<usize>, x: usize) -> (at: usize)
        requires
            is_listed(*self, cards@, listing@),
            x < cards@.len(),
        ensures
            at <= listing@.len(),
            forall|i: int| 0 <= i < at ==> listed_no_later(*self, cards@, #[trigger] listing@[i], x),
            forall|i: int|
                at <= i < listing@.len() ==> listed_no_later(
                    *self,
                    cards@,
                    x,
                    #[trigger] listing@[i],
                ),
    {
        let mut low: usize = 0;
        let mut high: usize = listing.len();
        while low < high
            invariant
                low <= high <= listing@.len(),
                is_listed(*self, cards@, listing@),
                x < cards@.len(),
                forall|i: int|
                    0 <= i < low ==> listed_no_later(*self, cards@, #[trigger] listing@[i], x),
                forall|i: int|
                    high <= i < listing@.len() ==> listed_no_later(
                        *self,
                        cards@,
                        x,
                        #[trigger] listing@[i],
                    ),
            decreases high - low,
        {
            let middle = low + (high - low) / 2;
            let pivot = listing[middle];
            if self.no_later(cards, pivot, x) {
                assert forall|i: int| 0 <= i < middle + 1 implies listed_no_later(
                    *self,
                    cards@,
                    #[trigger] listing@[i],
                    x,
                ) by {
                    lemma_listed_total(*self, cards@, listing@[i], pivot, x);
                    lemma_listed_total(*self, cards@, pivot, pivot, pivot);
                }
                low = middle + 1;
            } else {
                assert forall|i: int| middle <= i < listing@.len() implies listed_no_later(
                    *self,
                    cards@,
                    x,
                    #[trigger] listing@[i],
                ) by {
                    lemma_listed_total(*self, cards@, pivot, x, x);
                    lemma_listed_total(*self, cards@, x, pivot, listing@[i]);
                    lemma_listed_total(*self, cards@, pivot, pivot, pivot);
                }
                high = middle;
            }
        }
        low
    }

    /// The positions `found`, each a position of `cards`, listed in this
    /// order.
    pub fn arrange(&self, cards: &[YugiohCard], found: &Vec<usize>) -> (r: Vec<usize>)
        requires
            forall|i: int| 0 <= i < found@.len() ==> (#[trigger] found@[i]) < cards@.len(),
        ensures
            is_listed(*self, cards@, r@),
            r@.to_multiset() == found@.to_multiset(),
    {
        let mut listing: Vec<usize> = Vec::new();
        let mut k: usize = 0;
        assert(found@.take(0) == Seq::<usize>::empty());
        while k < found.len()
            invariant
                k <= found@.len(),
                forall|i: int| 0 <= i < found@.len() ==> (#[trigger] found@[i]) < cards@.len(),
                is_listed(*self, cards@, listing@),
                listing@.to_multiset() == found@.take(k as int).to_multiset(),
            decreases found@.len() - k,
        {
            let x = found[k];
            let at = self.insertion_point(cards, &listing, x);
            let ghost before = listing@;
            listing.insert(at, x);
            proof {
                broadcast use vstd::seq_lib::group_to_multiset_ensures;

                assert(found@.take(k + 1) == found@.take(k as int).push(x));
                assert forall|i: int, j: int| 0 <= i < j < listing@.len() implies listed_no_later(
                    *self,
                    cards@,
                    listing@[i],
                    listing@[j],
                ) by {
                    if j < at {
                        assert(listing@[i] == before[i] && listing@[j] == before[j]);
                    } else if j == at {
                        assert(listing@[i] == before[i]);
                    } else if i < at {
                        assert(listing@[i] == before[i] && listing@[j] == before[j - 1]);
                    } else if i == at {
                        assert(listing@[j] == before[j - 1]);
                    } else {
                        assert(listing@[i] == before[i - 1] && listing@[j] == before[j - 1]);
                    }
                }
                assert forall|i: int| 0 <= i < listing@.len() implies (#[trigger] listing@[i])
                    < cards@.len() by {
                    if i < at {
                        assert(listing@[i] == before[i]);
                    } else if i > at {
                        assert(listing@[i] == before[i - 1]);
                    }
                }
            }
            k += 1;
        }
        assert(found@.take(found@.len() as int) == found@);
        listing
    }

    /// How `a` stands to `b` in this order.
    pub fn compare(&self, a: &YugiohCard, b: &YugiohCard) -> (r: Rank)
        ensures
            r == self.ranks(*a, *b),
    {
        let upwards = match self.stype {
            SortingType::Name => rank_bytes(a.name.as_str().as_bytes(), b.name.as_str().as_bytes()),
            SortingType::Id => if a.id < b.id {
                Rank::Less
            } else if a.id > b.id {
                Rank::Greater
            } else {
                Rank::Equal
            },
        };
        match self.order {
            SortOrder::Asc => upwards,
            SortOrder::Dsc => match upwards {
                Rank::Less => Rank::Greater,
                Rank::Equal => Rank::Equal,
                Rank::Greater => Rank::Less,
            },
        }
    }
}

} // verus!
