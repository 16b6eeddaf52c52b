use yawc::words::WordList;
use yawc::words::is_valid_word;
use yawc::words::is_wf_word;
use yawc::words::str_eq;

fn strings(words: &[&str]) -> Vec<String> {
    words.iter().map(|w| w.to_string()).collect()
}

#[test]
fn wordlist_rejects_an_empty_secret_set() {
    assert!(WordList::new(Vec::new(), strings(&["slate"])).is_none());
}

#[test]
fn wordlist_rejects_malformed_words() {
    assert!(WordList::new(strings(&["abc"]), Vec::new()).is_none());
    assert!(WordList::new(strings(&["Crane"]), Vec::new()).is_none());
    assert!(WordList::new(strings(&["crane"]), strings(&["sl8te"])).is_none());
    assert!(WordList::new(strings(&["cranes"]), Vec::new()).is_none());
}

#[test]
fn wordlist_accepts_well_formed_lists() {
    assert!(WordList::new(strings(&["crane", "slate"]), strings(&["pound"])).is_some());
    assert!(WordList::new(strings(&["crane"]), Vec::new()).is_some());
}

#[test]
fn valid_words_come_from_either_set() {
    let l = WordList::new(strings(&["crane", "slate"]), strings(&["pound"])).unwrap();
    assert!(is_valid_word(&l, "crane"));
    assert!(is_valid_word(&l, "slate"));
    assert!(is_valid_word(&l, "pound"));
    assert!(!is_valid_word(&l, "zzzzz"));
    assert!(!is_valid_word(&l, "cran"));
}

#[test]
fn random_secret_is_a_member_of_the_secret_set() {
    let l = WordList::new(strings(&["crane", "slate", "pound"]), Vec::new()).unwrap();
    for _ in 0..50 {
        let w = l.random_secret();
        assert!(["crane", "slate", "pound"].contains(&w.as_str()));
    }
    let single = WordList::new(strings(&["crane"]), Vec::new()).unwrap();
    assert_eq!(single.random_secret().as_str(), "crane");
}

#[test]
fn str_eq_compares_by_characters() {
    assert!(str_eq("crane", "crane"));
    assert!(!str_eq("crane", "crate"));
    assert!(!str_eq("crane", "cran"));
    assert!(str_eq("", ""));
}

#[test]
fn well_formed_words_are_five_lowercase_letters() {
    assert!(is_wf_word("crane"));
    assert!(!is_wf_word("cran"));
    assert!(!is_wf_word("cranes"));
    assert!(!is_wf_word("crAne"));
    assert!(!is_wf_word("cr4ne"));
    assert!(!is_wf_word(""));
}
