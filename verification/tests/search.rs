use yugioh_deck_builder::search::{clean_string, match_wild, YugiohCardSearchCriteria};
use yugioh_deck_builder::yugioh::{RawCardImage, RawCardPrice, RawYugiohCard, YugiohCard};

fn card(name: &str) -> YugiohCard {
    YugiohCard::from_raw(RawYugiohCard {
        id: 1,
        name: name.to_string(),
        card_type: String::new(),
        desc: String::new(),
        race: String::new(),
        archetype: None,
        card_sets: None,
        card_images: vec![RawCardImage {
            id: 1,
            image_url: String::new(),
            image_url_small: String::new(),
        }],
        card_prices: vec![RawCardPrice {
            cardmarket_price: String::new(),
            tcgplayer_price: String::new(),
            ebay_price: String::new(),
            amazon_price: String::new(),
            coolstuffinc_price: String::new(),
        }],
    })
}

fn criteria(string: &str) -> YugiohCardSearchCriteria {
    YugiohCardSearchCriteria { string: string.to_string() }
}

fn wild(pattern: &str, name: &str) -> bool {
    match_wild(pattern.to_string(), name.to_string())
}

#[test]
fn blue_eyes_finds_blue_eyes_white_dragon() {
    assert!(criteria("Blue-Eyes").matches(&card("Blue-Eyes White Dragon")));
}

#[test]
fn empty_criterion_finds_every_card() {
    for name in ["Blue-Eyes White Dragon", "", "!", "*", "?", "青眼の白龍", "a-b(c)[d]{e}+.\\^$|\"'!"] {
        assert!(YugiohCardSearchCriteria::new().matches(&card(name)), "{:?}", name);
        assert!(criteria("").matches(&card(name)), "{:?}", name);
    }
    assert_eq!(YugiohCardSearchCriteria::new().string, "");
}

#[test]
fn criterion_is_found_anywhere_in_the_name() {
    let dragon = card("Blue-Eyes White Dragon");
    assert!(criteria("blue").matches(&dragon));
    assert!(criteria("white").matches(&dragon));
    assert!(criteria("dragon").matches(&dragon));
    assert!(criteria("eyes white").matches(&dragon));
    assert!(criteria("n").matches(&dragon));
    assert!(!criteria("red").matches(&dragon));
    assert!(!criteria("dragons").matches(&dragon));
    assert!(!criteria("white  dragon").matches(&dragon));
}

#[test]
fn letter_case_is_set_aside() {
    let dragon = card("Blue-Eyes White Dragon");
    assert!(criteria("BLUE-EYES").matches(&dragon));
    assert!(criteria("bLuE").matches(&dragon));
    assert!(criteria("blue").matches(&card("BLUE-EYES WHITE DRAGON")));
    assert!(criteria("ÉCLAIR").matches(&card("éclair")));
    assert!(!match_wild("BLUE".to_string(), "blue".to_string()));
    assert!(!match_wild("blue".to_string(), "BLUE".to_string()));
}

#[test]
fn punctuation_in_the_name_is_set_aside_unless_asked_for() {
    let dragon = card("Blue-Eyes White Dragon");
    assert!(criteria("blueeyes").matches(&dragon));
    assert!(criteria("blue-eyes").matches(&dragon));
    assert!(!criteria("blue eyes").matches(&dragon));
    assert!(!criteria("blue-eyes").matches(&card("Blueeyes")));
    assert!(criteria("d.d. warrior").matches(&card("D.D. Warrior Lady")));
    assert!(criteria("dd warrior").matches(&card("D.D. Warrior Lady")));
    assert!(!criteria("d.d warrior").matches(&card("D.D. Warrior Lady")));
    assert!(criteria("number 39").matches(&card("Number 39: Utopia")));
    assert!(criteria("ojama (").matches(&card("Ojama (Token)")));
    assert!(!criteria("ojama (").matches(&card("Ojama Token")));
}

#[test]
fn exclamation_mark_ties_the_criterion_to_an_end() {
    let dragon = card("Blue-Eyes White Dragon");
    assert!(criteria("!blue").matches(&dragon));
    assert!(!criteria("!white").matches(&dragon));
    assert!(criteria("dragon!").matches(&dragon));
    assert!(!criteria("white!").matches(&dragon));
    assert!(criteria("!blue-eyes white dragon!").matches(&dragon));
    assert!(!criteria("!blue-eyes white!").matches(&dragon));
    assert!(criteria("!blue*dragon!").matches(&dragon));
    assert!(criteria("!").matches(&dragon));
    assert!(criteria("!").matches(&card("")));
    assert!(!criteria("!!").matches(&dragon));
    assert!(criteria("!!").matches(&card("")));
    assert!(!criteria("!!!").matches(&card("")));
    assert!(criteria("!!!").matches(&card("!")));
    assert!(criteria("a!b").matches(&card("xa!bx")));
    assert!(!criteria("a!b").matches(&card("xabx")));
}

#[test]
fn wildcards_in_the_criterion() {
    let dragon = card("Blue-Eyes White Dragon");
    assert!(criteria("blue*dragon").matches(&dragon));
    assert!(criteria("b??e").matches(&dragon));
    assert!(criteria("!????-eyes").matches(&dragon));
    assert!(!criteria("!???-eyes").matches(&dragon));
    assert!(!criteria("dragon*blue").matches(&dragon));
    assert!(criteria("*").matches(&dragon));
    assert!(criteria("***").matches(&card("")));
    assert!(criteria("?").matches(&dragon));
    assert!(!criteria("?").matches(&card("")));
    assert!(!criteria("!?!").matches(&card("ab")));
    assert!(criteria("!?!").matches(&card("a")));
    assert!(criteria("!?????????????????????!").matches(&dragon));
    assert!(!criteria("!??????????????????????!").matches(&dragon));
    assert!(criteria("!????-?????????????????!").matches(&dragon));
}

#[test]
fn match_wild_on_plain_strings() {
    assert!(wild("", ""));
    assert!(wild("", "anything"));
    assert!(wild("cat", "dog_cat_dog"));
    assert!(wild("!cat!", "cat"));
    assert!(!wild("!cat!", "cats"));
    assert!(!wild("!cat!", "a cat"));
    assert!(wild("!c?t!", "cot"));
    assert!(!wild("dog", "cat"));
    assert!(wild("a", "-a-"));
    assert!(wild("!a!", "-a-"));
    assert!(!wild("!a-!", "-a-"));
    assert!(wild("!-a-!", "-a-"));
    assert!(wild("!ab!", "(a)[b]{}+.\\^$|\"'"));
    assert!(wild("!a'b!", "a'b"));
    assert!(!wild("!a'b!", "ab"));
}

#[test]
fn clean_string_leaves_out_the_listed_characters() {
    assert_eq!(clean_string("Blue-Eyes".to_string(), vec!['-']), "BlueEyes");
    assert_eq!(clean_string("D.D. (x)".to_string(), vec!['.', '(', ')']), "DD x");
    assert_eq!(clean_string("abc".to_string(), Vec::new()), "abc");
    assert_eq!(clean_string("aaa".to_string(), vec!['a']), "");
    assert_eq!(clean_string(String::new(), vec!['a']), "");
    assert_eq!(clean_string("abcabc".to_string(), vec!['c', 'a', 'c']), "bb");
    assert_eq!(clean_string("青眼の白龍".to_string(), vec!['の']), "青眼白龍");
    let mut expected = "a-b".to_string();
    for c in ['-', 'x'] {
        expected = expected.replace(c, "");
    }
    assert_eq!(clean_string("a-b".to_string(), vec!['-', 'x']), expected);
}

#[test]
fn search_lists_the_positions_of_the_cards_found() {
    let cards = vec![
        card("Blue-Eyes White Dragon"),
        card("Dark Magician"),
        card("Blue-Eyes Toon Dragon"),
        card("Red-Eyes Black Dragon"),
        card("Kuriboh"),
    ];
    assert_eq!(criteria("blue-eyes").search(&cards), vec![0, 2]);
    assert_eq!(criteria("DRAGON").search(&cards), vec![0, 2, 3]);
    assert_eq!(criteria("dragon!").search(&cards), vec![0, 2, 3]);
    assert_eq!(criteria("!dark").search(&cards), vec![1]);
    assert_eq!(criteria("eyes").search(&cards), vec![0, 2, 3]);
    assert_eq!(criteria("toon").search(&cards), vec![2]);
    assert_eq!(criteria("exodia").search(&cards), Vec::<usize>::new());
    assert_eq!(criteria("").search(&cards), vec![0, 1, 2, 3, 4]);
    assert_eq!(YugiohCardSearchCriteria::new().search(&cards), vec![0, 1, 2, 3, 4]);
    assert_eq!(criteria("").search(&[]), Vec::<usize>::new());
    for wanted in ["blue", "k", "!r", "n!", "a*a", "?"] {
        let found = criteria(wanted).search(&cards);
        for (at, card) in cards.iter().enumerate() {
            assert_eq!(found.contains(&at), criteria(wanted).matches(card), "{:?} {}", wanted, at);
        }
    }
}
