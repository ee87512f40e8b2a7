use nazonazo::bot::{
    get_dictionary, select_dictionary_from_str, CheckResult, DictionarySelector, Lang, Library,
    SelectorError, Status,
};
use nazonazo::dictionary::Dictionary;
use nazonazo::hint::Hint;
use nazonazo::session::{BotState, ContestError};

fn dict(ws: &[&str], full: Option<&[&str]>) -> Dictionary {
    Dictionary::from_words(
        ws.iter().map(|w| w.to_string()).collect(),
        full.map(|f| f.iter().map(|w| w.to_string()).collect()),
    )
    .unwrap()
}

fn library() -> Library {
    Library::new(
        dict(&["listen", "silent"], Some(&["enlist", "tinsel", "listen"])),
        dict(&["りんご"], None),
        dict(&["pomme"], None),
        dict(&["apfel"], None),
        dict(&["mela"], None),
        dict(&["яблоко"], None),
        dict(&["pomo"], None),
    )
}

fn holding(answer: &str, start: u64) -> Status {
    Status::Holding(answer.to_string(), Lang::En, start)
}

#[test]
fn example_scenario_classifies_guesses() {
    let lib = library();
    let s = holding("listen", 0);
    assert!(matches!(s.answer_check(&lib, "silent"), CheckResult::Anagram("silent")));
    assert!(matches!(s.answer_check(&lib, "xyz"), CheckResult::WA));
    assert!(matches!(s.answer_check(&lib, "listen"), CheckResult::Assumed("listen")));
}

#[test]
fn exact_answer_takes_precedence() {
    // "listen" is also a quiz word and a further acceptable word with the
    // same letters; it is still the intended answer.
    let lib = library();
    let s = holding("listen", 0);
    assert!(s.is_anagram(&lib, "listen"));
    assert!(s.is_anagram_by_full(&lib, "listen"));
    assert!(matches!(s.answer_check(&lib, "LISTEN"), CheckResult::Assumed("LISTEN")));
}

#[test]
fn further_acceptable_word_is_full() {
    let lib = library();
    let s = holding("listen", 0);
    assert!(matches!(s.answer_check(&lib, "Enlist"), CheckResult::Full("Enlist")));
    assert!(!s.is_anagram(&lib, "enlist"));
}

#[test]
fn standing_by_classifies_everything_wrong() {
    let lib = library();
    let s = Status::StandingBy;
    assert!(matches!(s.answer_check(&lib, "listen"), CheckResult::WA));
    assert!(s.ans().is_err());
    assert!(s.elapsed(10).is_none());
    assert!(s.get_dictionary(&lib).is_err());
}

#[test]
fn status_queries() {
    let s = Status::Contesting("listen".to_string(), Lang::En, (2, 3), 100);
    assert!(s.is_contesting());
    assert!(!s.is_holding());
    assert!(!s.is_standing_by());
    assert_eq!(s.ans().unwrap(), "listen");
    assert_eq!(s.get_contest_num(), Some((2, 3)));
    assert!(!s.is_contest_end());
    assert_eq!(s.elapsed(1600), Some(1500));
    assert_eq!(s.elapsed(50), Some(0));
    let last = Status::Contesting("listen".to_string(), Lang::En, (3, 3), 100);
    assert!(last.is_contest_end());
}

#[test]
fn languages_by_code_and_symbol() {
    assert_eq!(Lang::from_code("fr"), Some(Lang::Fr));
    assert_eq!(Lang::from_code("eo"), Some(Lang::Eo));
    assert_eq!(Lang::from_code("xx"), None);
    assert_eq!(Lang::En.as_symbol(), "英単語");
    assert_eq!(Lang::Eo.as_symbol(), "エスペラント単語");
    let lib = library();
    assert!(get_dictionary(&lib, Lang::Ja).contains("りんご"));
    assert!(select_dictionary_from_str(&lib, "de").unwrap().contains("apfel"));
    assert!(select_dictionary_from_str(&lib, "zz").is_none());
}

#[test]
fn selector_configuration() {
    let lib = library();
    let mut sel = DictionarySelector::new();
    assert_eq!(sel.select(&lib).1, Lang::En);
    assert_eq!(sel.set(Vec::new()), Err(SelectorError::NoLanguage));
    assert_eq!(sel.select(&lib).1, Lang::En);
    assert_eq!(sel.set(vec![Lang::Ja]), Ok(()));
    for _ in 0..10 {
        assert_eq!(sel.select(&lib).1, Lang::Ja);
    }
    assert_eq!(sel.set(vec![Lang::Fr, Lang::De, Lang::Fr]), Ok(()));
    assert_eq!(sel.select_at(&lib, 0).1, Lang::Fr);
    assert_eq!(sel.select_at(&lib, 1).1, Lang::De);
    for _ in 0..20 {
        let (d, l) = sel.select(&lib);
        assert!(l == Lang::Fr || l == Lang::De);
        assert!(d.contains(if l == Lang::Fr { "pomme" } else { "apfel" }));
    }
}

#[test]
fn single_quiz_solved() {
    let lib = library();
    let mut st = BotState::new();
    let r = st.prob(&lib, Lang::Ja, 1000);
    assert_eq!(r, vec!["ソートなぞなぞ ソート前の 単語 な〜んだ？\n`ごりん`".to_string()]);
    assert!(matches!(&st.stat, Status::Holding(a, Lang::Ja, 1000) if a == "りんご"));
    let busy = st.prob(&lib, Lang::En, 1200);
    assert_eq!(busy, vec!["前回の出題が解かれていません\n問題: `ごりん`".to_string()]);
    assert!(st.answer_check(&lib, "alice", "ringo", 2000).is_empty());
    let r = st.answer_check(&lib, "alice", "りんご", 2500);
    assert_eq!(r, vec!["alice さん、正解です！\n正解は\"りんご\"でした！ [1.500 sec]".to_string()]);
    assert!(st.stat.is_standing_by());
}

#[test]
fn single_quiz_stays_open_on_another_accepted_word() {
    let lib = library();
    let mut st = BotState::new();
    st.stat = holding("listen", 0);
    let r = st.answer_check(&lib, "bob", "SILENT", 10);
    assert_eq!(r, vec!["bob さん、silent は非想定解ですが正解です！".to_string()]);
    assert!(st.stat.is_holding());
    let r = st.answer_check(&lib, "bob", "tinsel", 10);
    assert_eq!(r, vec!["bob さん、tinsel は出題辞書にない非想定解ですが正解です！".to_string()]);
    assert!(st.stat.is_holding());
}

#[test]
fn giveup_reveals_answer() {
    let lib = library();
    let mut st = BotState::new();
    assert_eq!(st.giveup(&lib, 0), vec!["現在問題は出ていません。".to_string()]);
    st.prob(&lib, Lang::De, 0);
    assert_eq!(st.giveup(&lib, 5), vec!["正解は \"apfel\" でした...".to_string()]);
    assert!(st.stat.is_standing_by());
}

#[test]
fn contest_ends_after_last_round() {
    let lib = library();
    let mut st = BotState::new();
    let r = st.contest(&lib, 3, vec![Lang::It], 0).unwrap();
    assert_eq!(
        r,
        vec!["3問のコンテストを始めます。\n問 1 (1/3)\nソートなぞなぞ ソート前の 伊単語 な〜んだ？\n`aelm`".to_string()]
    );
    assert_eq!(st.stat.get_contest_num(), Some((1, 3)));
    let r = st.answer_check(&lib, "alice", "mela", 2000);
    assert_eq!(r.len(), 2);
    assert_eq!(r[0], "alice さん、正解です！\n正解は\"mela\"でした！ [2.000 sec]");
    assert_eq!(r[1], "問 2 (2/3)\nソートなぞなぞ ソート前の 伊単語 な〜んだ？\naelm");
    assert_eq!(st.stat.get_contest_num(), Some((2, 3)));
    let r = st.giveup(&lib, 3000);
    assert_eq!(r.len(), 2);
    assert_eq!(r[0], "正解は \"mela\" でした...");
    assert_eq!(st.stat.get_contest_num(), Some((3, 3)));
    assert!(st.stat.is_contest_end());
    let r = st.answer_check(&lib, "bob", "MELA", 4000);
    assert_eq!(r.len(), 2);
    assert_eq!(
        r[1],
        "3問連続のコンテストが終了しました。\n1st: bob, 1 AC, average speed = 1.000 sec\n2nd: alice, 1 AC, average speed = 2.000 sec\n"
    );
    assert!(st.stat.is_standing_by());
    assert!(st.answer_check(&lib, "bob", "mela", 5000).is_empty());
}

#[test]
fn contest_anagram_resolves_round_and_credits() {
    let lib = library();
    let mut st = BotState::new();
    st.contest(&lib, 1, vec![Lang::En], 0).unwrap();
    st.stat = Status::Contesting("listen".to_string(), Lang::En, (1, 1), 0);
    let r = st.answer_check(&lib, "carol", "silent", 1234);
    assert_eq!(r[0], "carol さん、silent は非想定解ですが正解です！");
    assert_eq!(
        r[1],
        "1問連続のコンテストが終了しました。\n1st: carol, 1 AC, average speed = 1.234 sec\n"
    );
    assert!(st.stat.is_standing_by());
}

#[test]
fn contest_refusals() {
    let lib = library();
    let mut st = BotState::new();
    assert_eq!(st.contest(&lib, 0, vec![Lang::En], 0).err(), Some(ContestError::NoRounds));
    assert_eq!(st.contest(&lib, 2, Vec::new(), 0).err(), Some(ContestError::NoLanguage));
    assert!(st.stat.is_standing_by());
    st.contest(&lib, 2, vec![Lang::Ru], 0).unwrap();
    let busy = st.contest(&lib, 2, vec![Lang::Ru], 0).unwrap();
    assert_eq!(busy, vec!["現在コンテスト中です\n問題: `бклооя`".to_string()]);
}

#[test]
fn unrated_ends_contest_without_standings() {
    let lib = library();
    let mut st = BotState::new();
    assert_eq!(st.unrated(), vec!["現在コンテストは開催されていません。".to_string()]);
    st.contest(&lib, 5, vec![Lang::Eo, Lang::Fr], 0).unwrap();
    assert_eq!(st.unrated(), vec!["コンテストを中止します。".to_string()]);
    assert!(st.stat.is_standing_by());
}

#[test]
fn hint_boundaries() {
    let lib = library();
    let mut st = BotState::new();
    assert_eq!(st.hint(&lib, Hint::First(1), 0), vec!["問題が出てないですよ？".to_string()]);
    st.stat = holding("listen", 0);
    assert_eq!(st.hint(&lib, Hint::First(0), 0), vec!["ゼロ文字ヒントはだせません。".to_string()]);
    assert_eq!(st.hint(&lib, Hint::Random(7), 0), vec!["ヒントが文字数を超えていますｗ".to_string()]);
    assert!(st.stat.is_holding());
    let r = st.hint(&lib, Hint::First(2), 0);
    assert_eq!(r, vec!["答えの先頭 2 文字は... => `li` ".to_string()]);
    let r = st.hint(&lib, Hint::First(5), 0);
    assert_eq!(
        r,
        vec![
            "答えが一意に定まるためギブアップとみなされました！".to_string(),
            "正解は \"listen\" でした...".to_string(),
        ]
    );
    assert!(st.stat.is_standing_by());
    st.stat = holding("listen", 0);
    let r = st.hint(&lib, Hint::Random(6), 0);
    assert_eq!(r[0], "答えが一意に定まるためギブアップとみなされました！");
    assert!(st.stat.is_standing_by());
}

#[test]
fn random_hint_reveals_exactly_n_positions() {
    let lib = library();
    let mut st = BotState::new();
    st.stat = holding("listen", 0);
    for n in 1..=4usize {
        let r = st.hint(&lib, Hint::Random(n), 0);
        assert_eq!(r.len(), 1);
        let prefix = format!("ランダムヒント {} 文字... => `", n);
        let hint = r[0].strip_prefix(&prefix).unwrap().strip_suffix("` ").unwrap();
        let chars: Vec<char> = hint.chars().collect();
        assert_eq!(chars.len(), 6);
        let shown: Vec<usize> = (0..6).filter(|i| chars[*i] != '*').collect();
        assert_eq!(shown.len(), n);
        for i in shown {
            assert_eq!(chars[i], "listen".chars().nth(i).unwrap());
        }
        assert!(st.stat.is_holding());
    }
}
