use nazonazo::dictionary::{Dictionary, DictionaryError};
use nazonazo::text::{grapheme_vec, sort_key, Sorted};

fn words(ws: &[&str]) -> Vec<String> {
    ws.iter().map(|w| w.to_string()).collect()
}

#[test]
fn sorted_key_of_listen() {
    assert_eq!("listen".to_string().sorted(), "eilnst");
    assert_eq!(sort_key("silent"), "eilnst");
}

#[test]
fn sorted_key_ignores_grapheme_order() {
    assert_eq!(sort_key("tinsel"), sort_key("listen"));
    assert_eq!(sort_key("enlist"), sort_key("inlets"));
}

#[test]
fn sorted_key_of_sorted_key_is_itself() {
    let key = sort_key("listen");
    assert_eq!(sort_key(&key), key);
}

#[test]
fn sorted_key_keeps_grapheme_clusters_whole() {
    // "e" with a combining acute accent is one cluster and stays together.
    let word = "be\u{301}a";
    assert_eq!(grapheme_vec(word).len(), 3);
    assert_eq!(sort_key(word), "abe\u{301}");
}

#[test]
fn sorted_key_of_japanese_word() {
    assert_eq!(sort_key("りんご"), "ごりん");
}

#[test]
fn sorted_key_of_empty_word() {
    assert_eq!(sort_key(""), "");
    assert_eq!(grapheme_vec("").len(), 0);
}

#[test]
fn load_lowercases_and_drops_repeats() {
    let d = Dictionary::from_words(words(&["Listen", "listen", "SILENT"]), None).unwrap();
    assert_eq!(d.len(), 2);
    assert_eq!(d.get(0), "listen");
    assert_eq!(d.get(1), "silent");
    assert!(d.contains("silent"));
    assert!(!d.contains("Silent"));
    assert_eq!(d.full_len(), None);
    assert!(!d.contains_ex("silent"));
}

#[test]
fn load_refuses_empty_word_list() {
    match Dictionary::from_words(Vec::new(), Some(words(&["word"]))) {
        Err(e) => assert_eq!(e, DictionaryError::EmptyWordList),
        Ok(_) => panic!("an empty word list was accepted"),
    }
}

#[test]
fn full_list_is_loaded_and_indexed() {
    let d = Dictionary::from_words(words(&["listen"]), Some(words(&["Enlist", "tinsel", "apple"])))
        .unwrap();
    assert_eq!(d.full_len(), Some(3));
    assert!(d.contains_ex("enlist"));
    assert!(!d.contains_ex("listen"));
    let class = d.full_anagram_class("eilnst").unwrap();
    assert_eq!(class, &words(&["enlist", "tinsel"]));
    assert!(d.full_anagram_class("xyz").is_none());
}

#[test]
fn every_word_is_in_its_own_anagram_class() {
    let d = Dictionary::from_words(words(&["listen", "silent", "apple", "tinsel", "papel"]), None)
        .unwrap();
    for i in 0..d.len() {
        let w = d.get(i).clone();
        let class = d.anagram_class(&sort_key(&w)).unwrap();
        assert!(class.contains(&w));
    }
    assert_eq!(d.anagram_class("eilnst").unwrap(), &words(&["listen", "silent", "tinsel"]));
    assert_eq!(d.anagram_class("aelpp").unwrap(), &words(&["apple", "papel"]));
    assert!(d.anagram_class("abc").is_none());
}

#[test]
fn pick_draws_a_quiz_word() {
    let d = Dictionary::from_words(words(&["listen", "silent", "apple"]), None).unwrap();
    for _ in 0..20 {
        let w = d.pick();
        assert!(d.contains(w));
    }
}
