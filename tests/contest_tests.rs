use indexmap::IndexMap;
use nazonazo::contest::{aggregates, credit, ContestData};
use nazonazo::hint::{check_hint, first_graphemes, masked_graphemes, random_positions, HintVerdict};
use nazonazo::messages::{number_text, seconds_text};

fn data(ms: &[u64]) -> ContestData {
    ContestData { time: ms.to_vec() }
}

#[test]
fn leaderboard_orders_by_solves_then_mean_time() {
    let mut m = IndexMap::new();
    m.insert("participant-1".to_string(), data(&[2000, 2000, 2000]));
    m.insert("participant-2".to_string(), data(&[1000, 1000, 1000]));
    m.insert("participant-3".to_string(), data(&[5000]));
    assert_eq!(
        aggregates(&m),
        "1st: participant-2, 3 AC, average speed = 1.000 sec\n\
         2nd: participant-1, 3 AC, average speed = 2.000 sec\n\
         3rd: participant-3, 1 AC, average speed = 5.000 sec\n"
    );
}

#[test]
fn leaderboard_ties_keep_first_solve_order() {
    let mut m = IndexMap::new();
    for name in ["d", "c", "b", "a"] {
        m.insert(name.to_string(), data(&[700]));
    }
    assert_eq!(
        aggregates(&m),
        "1st: d, 1 AC, average speed = 0.700 sec\n2nd: c, 1 AC, average speed = 0.700 sec\n\
         3rd: b, 1 AC, average speed = 0.700 sec\n4th: a, 1 AC, average speed = 0.700 sec\n"
    );
}

#[test]
fn leaderboard_ordinals_past_ten() {
    let mut m = IndexMap::new();
    for i in 0..13u64 {
        m.insert(format!("p{}", i), data(&[1000 + i]));
    }
    let text = aggregates(&m);
    let lines: Vec<&str> = text.lines().collect();
    assert_eq!(lines.len(), 13);
    assert!(lines[10].starts_with("11th: p10,"));
    assert!(lines[11].starts_with("12th: p11,"));
    assert!(lines[12].starts_with("13th: p12,"));
    assert_eq!(aggregates(&IndexMap::new()), "");
}

#[test]
fn summary_and_key() {
    let d = data(&[1000, 1001]);
    assert_eq!(d.as_string(), "2 AC, average speed = 1.001 sec");
    assert_eq!(d.key(), (usize::MAX - 2, 1001));
    let e = data(&[1000, 1000, 1001]);
    assert_eq!(e.key(), (usize::MAX - 3, 1000));
    let mut f = ContestData::new();
    f.add_time(42);
    assert_eq!(f.as_string(), "1 AC, average speed = 0.042 sec");
}

#[test]
fn crediting_keeps_first_solve_order() {
    let mut m: IndexMap<String, ContestData> = IndexMap::new();
    credit(&mut m, "bob", 100);
    credit(&mut m, "amy", 200);
    credit(&mut m, "bob", 300);
    assert_eq!(m.len(), 2);
    assert_eq!(m.get_index(0).unwrap().0, "bob");
    assert_eq!(m.get("bob").unwrap().time, vec![100, 300]);
    assert_eq!(m.get("amy").unwrap().time, vec![200]);
}

#[test]
fn number_formats() {
    assert_eq!(number_text(0), "0");
    assert_eq!(number_text(1234567), "1234567");
    assert_eq!(seconds_text(1500), "1.500");
    assert_eq!(seconds_text(5), "0.005");
    assert_eq!(seconds_text(12050), "12.050");
}

#[test]
fn hint_verdicts() {
    assert_eq!(check_hint(0, 6), HintVerdict::ZeroLength);
    assert_eq!(check_hint(6, 6), HintVerdict::GivesUp);
    assert_eq!(check_hint(5, 6), HintVerdict::GivesUp);
    assert_eq!(check_hint(7, 6), HintVerdict::TooLong);
    assert_eq!(check_hint(4, 6), HintVerdict::Valid);
    assert_eq!(check_hint(1, 1), HintVerdict::GivesUp);
    assert_eq!(check_hint(0, 0), HintVerdict::ZeroLength);
}

#[test]
fn hint_text_builders() {
    let g: Vec<String> = ["l", "i", "s", "t"].iter().map(|s| s.to_string()).collect();
    assert_eq!(first_graphemes(&g, 2), "li");
    assert_eq!(first_graphemes(&g, 0), "");
    assert_eq!(masked_graphemes(&g, &vec![0, 2]), "l*s*");
    assert_eq!(masked_graphemes(&g, &vec![]), "****");
}

#[test]
fn random_positions_are_distinct_and_in_range() {
    for n in 0..=8usize {
        let mut p = random_positions(8, n);
        assert_eq!(p.len(), n);
        assert!(p.iter().all(|i| *i < 8));
        p.sort();
        p.dedup();
        assert_eq!(p.len(), n);
    }
}
