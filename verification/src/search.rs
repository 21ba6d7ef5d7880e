//! Finding cards by name: a criterion is turned into a wildcard pattern,
//! and a card is found where the pattern matches its name.

use crate::sorting::{is_listed, SortingMode};
use crate::text::{chars_of, contains, has_char, occurs_at, string_of};
use crate::yugioh::YugiohCard;
use vstd::prelude::*;
use wildmatch::WildMatch;

verus! {

/// What the user looks for.
#[derive(Debug, Clone, PartialEq, Eq)]
pub struct YugiohCardSearchCriteria {
    pub string: String,
}

/// Whether `pattern` matches the whole of `input`, where `?` in the pattern
/// stands for any one character and `*` for any run of characters, the
/// empty run too, and every other character for itself.
pub open spec fn wild_matches(pattern: Seq<char>, input: Seq<char>) -> bool
    decreases pattern.len(), input.len(),
{
    if pattern.len() == 0 {
        input.len() == 0
    } else if pattern[0] == '*' {
        wild_matches(pattern.drop_first(), input) || (input.len() > 0 && wild_matches(
            pattern,
            input.drop_first(),
        ))
    } else {
        input.len() > 0 && (pattern[0] == '?' || pattern[0] == input[0]) && wild_matches(
            pattern.drop_first(),
            input.drop_first(),
        )
    }
}

/// What `str::to_lowercase` of std makes of a text.
pub uninterp spec fn lowercase(s: Seq<char>) -> Seq<char>;

/// The punctuation that is set aside where the criterion does not use it.
pub open spec fn special_chars() -> Seq<char> {
    seq!['-', '(', ')', '[', ']', '{', '}', '+', '.', '\\', '^', '$', '|', '"', '\'', '!']
}

/// The pattern that the criterion `wild` stands for. The criterion may
/// stand anywhere in a name, so the pattern starts and ends with `*`; a `!`
/// at the start or at the end of the criterion ties it to the start or to
/// the end of the name, and is left out of the pattern.
pub open spec fn anchored(wild: Seq<char>) -> Seq<char> {
    let tail = if wild.len() > 0 && wild.last() == '!' {
        wild.drop_last()
    } else {
        wild.push('*')
    };
    if tail.len() > 0 && tail[0] == '!' {
        tail.drop_first()
    } else {
        seq!['*'] + tail
    }
}

/// The punctuation that `pattern` does not use, in the order of
/// `special_chars`.
pub open spec fn unused_special(pattern: Seq<char>) -> Seq<char> {
    special_chars().filter(|c: char| !pattern.contains(c))
}

/// `s` without the characters that are among `special`.
pub open spec fn cleaned(s: Seq<char>, special: Seq<char>) -> Seq<char> {
    s.filter(|c: char| !special.contains(c))
}

/// Whether the criterion `wild` finds the name `string`: the pattern that
/// the criterion stands for matches the name, once the punctuation that the
/// pattern does not use is set aside.
pub open spec fn wild_match(wild: Seq<char>, string: Seq<char>) -> bool {
    wild_matches(anchored(wild), cleaned(string, unused_special(anchored(wild))))
}

/// `WildMatch::new(pattern).matches(input)` of wildmatch: whether the
/// pattern matches the whole input, with `?` for any one character, `*` for
/// any run of characters and no escape character.
#[verifier::external_body]
fn wildcard_matches(pattern: &str, input: &str) -> (r: bool)
    ensures
        r == wild_matches(pattern@, input@),
{
    WildMatch::new(pattern).matches(input)
}

/// `str::to_lowercase` of std: the lowercase equivalent of `s`, which for
/// the empty text is the empty text.
pub assume_specification[ str::to_lowercase ](s: &str) -> (r: String)
    ensures
        r@ == lowercase(s@),
        s@.len() == 0 ==> r@.len() == 0,
;

/// A pattern that is one `*` matches every input.
pub proof fn lemma_star_matches_all(input: Seq<char>)
    ensures
        wild_matches(seq!['*'], input),
    decreases input.len(),
{
    let star = seq!['*'];
    assert(star[0] == '*');
    if input.len() > 0 {
        lemma_star_matches_all(input.drop_first());
    } else {
        assert(star.drop_first().len() == 0);
        assert(wild_matches(star.drop_first(), input));
    }
}

/// The empty criterion finds every name.
pub proof fn lemma_empty_criterion_matches_all(string: Seq<char>)
    ensures
        anchored(Seq::empty()) == seq!['*', '*'],
        wild_match(Seq::empty(), string),
{
    let pattern = anchored(Seq::empty());
    assert(pattern == seq!['*', '*']);
    assert(pattern.drop_first() == seq!['*']);
    lemma_star_matches_all(cleaned(string, unused_special(pattern)));
}

/// Whether `pattern` matches `input` from position `from` on.
pub open spec fn matches_from(pattern: Seq<char>, input: Seq<char>, from: int) -> bool {
    0 <= from <= input.len() && wild_matches(pattern, input.skip(from))
}

/// Whether `wild` is a criterion without wildcard and without a tie to
/// either end of the name.
pub open spec fn is_plain(wild: Seq<char>) -> bool {
    &&& forall|i: int| 0 <= i < wild.len() ==> (#[trigger] wild[i]) != '*' && wild[i] != '?'
    &&& wild.len() > 0 ==> wild[0] != '!' && wild.last() != '!'
}

/// A pattern that starts with `*` matches an input exactly when the rest
/// of the pattern matches the input from some position on.
pub proof fn lemma_star_then_pattern(pattern: Seq<char>, input: Seq<char>)
    ensures
        wild_matches(seq!['*'] + pattern, input) <==> exists|from: int|
            matches_from(pattern, input, from),
    decreases input.len(),
{
    let starred = seq!['*'] + pattern;
    assert(starred[0] == '*');
    assert(starred.drop_first() == pattern);
    assert(input.skip(0) == input);
    if input.len() > 0 {
        let rest = input.drop_first();
        lemma_star_then_pattern(pattern, rest);
        if wild_matches(starred, input) {
            if wild_matches(pattern, input) {
                assert(matches_from(pattern, input, 0));
            } else {
                let from = choose|from: int| matches_from(pattern, rest, from);
                assert(rest.skip(from) == input.skip(from + 1));
                assert(matches_from(pattern, input, from + 1));
            }
        }
        if exists|from: int| matches_from(pattern, input, from) {
            let from = choose|from: int| matches_from(pattern, input, from);
            if from > 0 {
                assert(rest.skip(from - 1) == input.skip(from));
                assert(matches_from(pattern, rest, from - 1));
            }
        }
    } else {
        if wild_matches(starred, input) {
            assert(matches_from(pattern, input, 0));
        }
        if exists|from: int| matches_from(pattern, input, from) {
            let from = choose|from: int| matches_from(pattern, input, from);
            assert(from == 0);
        }
    }
}

/// A text without wildcard, followed by `*`, matches the inputs that start
/// with the text.
pub proof fn lemma_text_then_star(text: Seq<char>, input: Seq<char>)
    requires
        forall|i: int| 0 <= i < text.len() ==> (#[trigger] text[i]) != '*' && text[i] != '?',
    ensures
        wild_matches(text.push('*'), input) <==> text.len() <= input.len() && input.take(
            text.len() as int,
        ) == text,
    decreases text.len(),
{
    let pattern = text.push('*');
    if text.len() == 0 {
        assert(pattern == seq!['*']);
        lemma_star_matches_all(input);
        assert(input.take(0) == text);
    } else {
        assert(pattern[0] == text[0]);
        assert(pattern.drop_first() == text.drop_first().push('*'));
        if input.len() > 0 {
            assert forall|i: int| 0 <= i < text.drop_first().len() implies (
            #[trigger] text.drop_first()[i]) != '*' && text.drop_first()[i] != '?' by {
                assert(text.drop_first()[i] == text[i + 1]);
            }
            lemma_text_then_star(text.drop_first(), input.drop_first());
            let rest = input.drop_first();
            let rest_len = text.len() - 1;
            if text.len() <= input.len() && input.take(text.len() as int) == text {
                assert(input[0] == input.take(text.len() as int)[0]);
                assert(rest.take(rest_len) =~= text.drop_first()) by {
                    assert forall|i: int| 0 <= i < rest_len implies rest.take(rest_len)[i]
                        == text.drop_first()[i] by {
                        assert(rest.take(rest_len)[i] == input.take(text.len() as int)[i + 1]);
                    }
                }
            }
            if input[0] == text[0] && rest_len <= rest.len() && rest.take(rest_len)
                == text.drop_first() {
                assert(input.take(text.len() as int) =~= text) by {
                    assert forall|i: int| 0 <= i < text.len() implies input.take(
                        text.len() as int,
                    )[i] == text[i] by {
                        if i > 0 {
                            assert(input[i] == rest.take(rest_len)[i - 1]);
                            assert(text[i] == text.drop_first()[i - 1]);
                        }
                    }
                }
            }
        }
    }
}

/// A criterion without wildcard and without a tie to either end finds the
/// names that hold it somewhere, once the punctuation that the criterion
/// does not use is set aside in the name.
pub proof fn lemma_plain_criterion_is_substring(wild: Seq<char>, string: Seq<char>)
    requires
        is_plain(wild),
    ensures
        anchored(wild) == seq!['*'] + wild.push('*'),
        wild_match(wild, string) <==> contains(
            cleaned(string, unused_special(anchored(wild))),
            wild,
        ),
{
    let pattern = anchored(wild);
    assert(wild.push('*')[0] != '!') by {
        if wild.len() > 0 {
            assert(wild.push('*')[0] == wild[0]);
        }
    }
    let name = cleaned(string, unused_special(pattern));
    lemma_star_then_pattern(wild.push('*'), name);
    if wild_match(wild, string) {
        let from = choose|from: int| matches_from(wild.push('*'), name, from);
        lemma_text_then_star(wild, name.skip(from));
        assert(name.skip(from).take(wild.len() as int) == name.subrange(
            from,
            from + wild.len(),
        ));
        assert(occurs_at(name, wild, from));
    }
    if contains(name, wild) {
        let at = choose|at: int| occurs_at(name, wild, at);
        lemma_text_then_star(wild, name.skip(at));
        assert(name.skip(at).take(wild.len() as int) == name.subrange(at, at + wild.len()));
        assert(matches_from(wild.push('*'), name, at));
    }
}

/// The punctuation that is set aside is what `special_chars` lists and the
/// pattern does not use.
pub proof fn lemma_unused_special(pattern: Seq<char>, c: char)
    ensures
        unused_special(pattern).contains(c) <==> special_chars().contains(c)
            && !pattern.contains(c),
{
    let pred = |c: char| !pattern.contains(c);
    let unused = unused_special(pattern);
    if unused.contains(c) {
        let i = choose|i: int| 0 <= i < unused.len() && unused[i] == c;
        special_chars().lemma_filter_pred(pred, i);
        special_chars().lemma_filter_contains_rev(pred, c);
    }
    if special_chars().contains(c) && !pattern.contains(c) {
        let i = choose|i: int| 0 <= i < special_chars().len() && special_chars()[i] == c;
        special_chars().lemma_filter_contains(pred, i);
    }
}

/// Setting aside the punctuation that a pattern does not use leaves the
/// pattern as it is.
pub proof fn lemma_pattern_stays(pattern: Seq<char>)
    ensures
        cleaned(pattern, unused_special(pattern)) == pattern,
{
    let special = unused_special(pattern);
    let keep = |c: char| !special.contains(c);
    assert forall|i: int| 0 <= i < pattern.len() implies keep(#[trigger] pattern[i]) by {
        lemma_unused_special(pattern, pattern[i]);
    }
    lemma_filter_all(pattern, keep);
}

/// Filtering by what holds of every element changes nothing.
proof fn lemma_filter_all(s: Seq<char>, keep: spec_fn(char) -> bool)
    requires
        forall|i: int| 0 <= i < s.len() ==> keep(#[trigger] s[i]),
    ensures
        s.filter(keep) == s,
    decreases s.len(),
{
    reveal(Seq::filter);
    if s.len() > 0 {
        let front = s.drop_last();
        assert forall|i: int| 0 <= i < front.len() implies keep(#[trigger] front[i]) by {
            assert(front[i] == s[i]);
        }
        lemma_filter_all(front, keep);
        assert(front.push(s.last()) == s);
    }
}

/// `string` without the characters that are among `special_chars`.
pub fn clean_string(string: String, special_chars: Vec<char>) -> (r: String)
    ensures
        r@ == cleaned(string@, special_chars@),
{
    let ghost keep = |c: char| !special_chars@.contains(c);
    let mut kept = String::new();
    proof {
        reveal(Seq::filter);
        assert(string@.take(0).filter(keep) == Seq::<char>::empty());
    }
    for c in it: string.as_str().chars()
        invariant
            it.seq() == string@,
            keep == |c: char| !special_chars@.contains(c),
            kept@ == string@.take(it.index() as int).filter(keep),
    {
        proof {
            reveal(Seq::filter);
            let k = it.index() as int;
            assert(string@.take(k + 1).drop_last() == string@.take(k));
            assert(string@.take(k + 1).last() == c);
        }
        if !has_char(special_chars.as_slice(), c) {
            kept.push(c);
        }
    }
    assert(string@.take(string@.len() as int) == string@);
    kept
}

/// The punctuation that `pattern` does not use.
fn unused_special_chars(pattern: &[char]) -> (r: Vec<char>)
    ensures
        r@ == unused_special(pattern@),
{
    let special = vec![
        '-', '(', ')', '[', ']', '{', '}', '+', '.', '\\', '^', '$', '|', '"', '\'', '!',
    ];
    assert(special@ == special_chars());
    let ghost unused_by = |c: char| !pattern@.contains(c);
    let mut unused: Vec<char> = Vec::new();
    proof {
        reveal(Seq::filter);
        assert(special@.take(0).filter(unused_by) == Seq::<char>::empty());
    }
    let mut i: usize = 0;
    while i < special.len()
        invariant
            i <= special@.len(),
            special@ == special_chars(),
            unused_by == |c: char| !pattern@.contains(c),
            unused@ == special@.take(i as int).filter(unused_by),
        decreases special@.len() - i,
    {
        proof {
            reveal(Seq::filter);
            assert(special@.take(i + 1).drop_last() == special@.take(i as int));
        }
        if !has_char(pattern, special[i]) {
            unused.push(special[i]);
        }
        i += 1;
    }
    assert(special@.take(special@.len() as int) == special@);
    unused
}

/// Whether the criterion `wild` finds the name `string`.
pub fn match_wild(wild: String, string: String) -> (r: bool)
    ensures
        r == wild_match(wild@, string@),
{
    let mut pattern = chars_of(wild.as_str());
    let n = pattern.len();
    if n > 0 && pattern[n - 1] == '!' {
        pattern.pop();
    } else {
        pattern.push('*');
    }
    if pattern.len() > 0 && pattern[0] == '!' {
        pattern.remove(0);
    } else {
        pattern.insert(0, '*');
    }
    assert(pattern@ == anchored(wild@));
    let special = unused_special_chars(pattern.as_slice());
    proof {
        lemma_pattern_stays(pattern@);
    }
    let also_special = special.clone();
    assert(also_special@ =~= special@);
    let wild = clean_string(string_of(pattern.as_slice()), also_special);
    let string = clean_string(string, special);
    wildcard_matches(wild.as_str(), string.as_str())
}

impl YugiohCardSearchCriteria {
    /// The empty criterion.
    pub fn new() -> (r: Self)
        ensures
            r.string@ == Seq::<char>::empty(),
    {
        Self { string: String::new() }
    }

    /// Whether the criterion finds `card`: whether, both in lowercase, it
    /// finds the card's name. The empty criterion finds every card.
    pub fn matches(self, card: &YugiohCard) -> (r: bool)
        ensures
            r == wild_match(lowercase(self.string@), lowercase(card.name@)),
            self.string@.len() == 0 ==> r,
    {
        let wild = self.string.as_str().to_lowercase();
        let name = card.name.as_str().to_lowercase();
        proof {
            if self.string@.len() == 0 {
                assert(wild@ == Seq::<char>::empty());
                lemma_empty_criterion_matches_all(name@);
            }
        }
        match_wild(wild, name)
    }

    /// The positions of the cards that the criterion finds, in the order
    /// of `cards`.
    pub fn search(&self, cards: &[YugiohCard]) -> (r: Vec<usize>)
        ensures
            forall|i: int, j: int| 0 <= i < j < r@.len() ==> r@[i] < r@[j],
            forall|i: int| 0 <= i < r@.len() ==> (#[trigger] r@[i]) < cards@.len(),
            forall|at: int|
                0 <= at < cards@.len() ==> (r@.contains(at as usize) <==> wild_match(
                    lowercase(self.string@),
                    lowercase(#[trigger] cards@[at].name@),
                )),
    {
        let wild = self.string.as_str().to_lowercase();
        let mut found: Vec<usize> = Vec::new();
        let mut at: usize = 0;
        while at < cards.len()
            invariant
                at <= cards@.len(),
                wild@ == lowercase(self.string@),
                forall|i: int, j: int| 0 <= i < j < found@.len() ==> found@[i] < found@[j],
                forall|i: int| 0 <= i < found@.len() ==> (#[trigger] found@[i]) < at,
                forall|k: int|
                    0 <= k < at ==> (found@.contains(k as usize) <==> wild_match(
                        wild@,
                        lowercase(#[trigger] cards@[k].name@),
                    )),
            decreases cards@.len() - at,
        {
            let name = cards[at].name.as_str().to_lowercase();
            let ghost before = found@;
            if match_wild(wild.clone(), name) {
                found.push(at);
                assert(found@.last() == at);
            }
            assert forall|k: int| 0 <= k < at + 1 implies (found@.contains(k as usize)
                <==> wild_match(wild@, lowercase(#[trigger] cards@[k].name@))) by {
                if found@.contains(k as usize) && !before.contains(k as usize) {
                    let i = choose|i: int| 0 <= i < found@.len() && found@[i] == k as usize;
                    if i < before.len() {
                        assert(before[i] == k as usize);
                    }
                }
                if before.contains(k as usize) {
                    let i = choose|i: int| 0 <= i < before.len() && before[i] == k as usize;
                    assert(found@[i] == k as usize);
                }
            }
            at += 1;
        }
        found
    }

    /// The positions of the cards that the criterion finds, each once, in
    /// the order `sorting`.
    pub fn listing(&self, cards: &[YugiohCard], sorting: SortingMode) -> (r: Vec<usize>)
        ensures
            is_listed(sorting, cards@, r@),
            r@.no_duplicates(),
            forall|at: int|
                0 <= at < cards@.len() ==> (r@.contains(at as usize) <==> wild_match(
                    lowercase(self.string@),
                    lowercase(#[trigger] cards@[at].name@),
                )),
    {
        let found = self.search(cards);
        let listing = sorting.arrange(cards, &found);
        proof {
            broadcast use vstd::seq_lib::group_to_multiset_ensures;

            assert(found@.no_duplicates());
            found@.lemma_multiset_has_no_duplicates();
            listing@.lemma_multiset_has_no_duplicates_conv();
            assert forall|at: int| 0 <= at < cards@.len() implies (listing@.contains(at as usize)
                <==> wild_match(lowercase(self.string@), lowercase(#[trigger] cards@[at].name@))) by {
                assert(listing@.contains(at as usize) <==> listing@.to_multiset().count(
                    at as usize,
                ) > 0);
                assert(found@.contains(at as usize) <==> found@.to_multiset().count(at as usize)
                    > 0);
            }
        }
        listing
    }
}

} // verus!
