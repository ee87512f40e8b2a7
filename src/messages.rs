//! The texts that the quiz replies with.
use vstd::prelude::*;
use vstd::string::*;

verus! {

/// The decimal digit for `d < 10`.
pub open spec fn digit_char(d: nat) -> char {
    seq!['0', '1', '2', '3', '4', '5', '6', '7', '8', '9'][d as int]
}

/// The decimal form of `n`, without sign or padding.
pub open spec fn decimal(n: nat) -> Seq<char>
    decreases n,
{
    if n < 10 {
        seq![digit_char(n)]
    } else {
        decimal(n / 10) + seq![digit_char(n % 10)]
    }
}

/// The zeros that pad a number below 1000 to three digits.
pub open spec fn pad3(d: nat) -> Seq<char> {
    if d < 10 {
        "00"@
    } else if d < 100 {
        "0"@
    } else {
        ""@
    }
}

/// A duration in milliseconds, written in seconds with three decimals.
pub open spec fn seconds(ms: nat) -> Seq<char> {
    decimal(ms / 1000) + "."@ + pad3(ms % 1000) + decimal(ms % 1000)
}

/// The decimal digit `d < 10` as text.
fn digit_text(d: u128) -> (r: &'static str)
    requires
        d < 10,
    ensures
        r@ == seq![digit_char(d as nat)],
{
    proof {
        reveal_strlit("0");
        reveal_strlit("1");
        reveal_strlit("2");
        reveal_strlit("3");
        reveal_strlit("4");
        reveal_strlit("5");
        reveal_strlit("6");
        reveal_strlit("7");
        reveal_strlit("8");
        reveal_strlit("9");
    }
    let r = if d == 0 {
        "0"
    } else if d == 1 {
        "1"
    } else if d == 2 {
        "2"
    } else if d == 3 {
        "3"
    } else if d == 4 {
        "4"
    } else if d == 5 {
        "5"
    } else if d == 6 {
        "6"
    } else if d == 7 {
        "7"
    } else if d == 8 {
        "8"
    } else {
        "9"
    };
    assert(r@ =~= seq![digit_char(d as nat)]);
    r
}

/// The decimal digits of `n`, most significant first.
fn decimal_string(n: u128) -> (r: String)
    ensures
        r@ == decimal(n as nat),
{
    let mut m = n;
    let mut s = String::new();
    while m >= 10
        invariant
            decimal(n as nat) == decimal(m as nat) + s@,
        decreases m,
    {
        let ghost old_s = s@;
        s = String::from_str(digit_text(m % 10)).concat(s.as_str());
        assert(decimal(m as nat) == decimal((m / 10) as nat) + seq![digit_char((m % 10) as nat)]);
        assert(decimal((m / 10) as nat) + s@ =~= decimal((m / 10) as nat) + seq![digit_char((m % 10) as nat)] + old_s);
        m = m / 10;
    }
    String::from_str(digit_text(m)).concat(s.as_str())
}

/// The decimal form of `n`.
pub fn number_text(n: u128) -> (r: String)
    ensures
        r@ == decimal(n as nat),
{
    decimal_string(n)
}

/// A duration in milliseconds, in seconds with three decimals.
pub fn seconds_text(ms: u128) -> (r: String)
    ensures
        r@ == seconds(ms as nat),
{
    let frac = ms % 1000;
    let pad = if frac < 10 {
        "00"
    } else if frac < 100 {
        "0"
    } else {
        ""
    };
    decimal_string(ms / 1000).concat(".").concat(pad).concat(decimal_string(frac).as_str())
}

/// A quiz being posed: the language's name and the sorted key.
pub open spec fn problem(symbol: Seq<char>, key: Seq<char>) -> Seq<char> {
    "ソートなぞなぞ ソート前の "@ + symbol + " な〜んだ？\n`"@ + key + "`"@
}

pub fn problem_text(symbol: &str, key: &str) -> (r: String)
    ensures
        r@ == problem(symbol@, key@),
{
    String::from_str("ソートなぞなぞ ソート前の ").concat(symbol).concat(" な〜んだ？\n`").concat(
        key,
    ).concat("`")
}

/// A contest round being posed.
pub open spec fn contest_round(current: nat, number: nat, symbol: Seq<char>, key: Seq<char>) -> Seq<
    char,
> {
    "問 "@ + decimal(current) + " ("@ + decimal(current) + "/"@ + decimal(number)
        + ")\nソートなぞなぞ ソート前の "@ + symbol + " な〜んだ？\n"@ + key
}

pub fn contest_round_text(current: u32, number: u32, symbol: &str, key: &str) -> (r: String)
    ensures
        r@ == contest_round(current as nat, number as nat, symbol@, key@),
{
    let cur = number_text(current as u128);
    String::from_str("問 ").concat(cur.as_str()).concat(" (").concat(cur.as_str()).concat(
        "/",
    ).concat(number_text(number as u128).as_str()).concat(")\nソートなぞなぞ ソート前の ").concat(
        symbol,
    ).concat(" な〜んだ？\n").concat(key)
}

/// A contest starting, with its first round.
pub open spec fn contest_start(number: nat, symbol: Seq<char>, key: Seq<char>) -> Seq<char> {
    decimal(number) + "問のコンテストを始めます。\n問 1 (1/"@ + decimal(number)
        + ")\nソートなぞなぞ ソート前の "@ + symbol + " な〜んだ？\n`"@ + key + "`"@
}

pub fn contest_start_text(number: u32, symbol: &str, key: &str) -> (r: String)
    ensures
        r@ == contest_start(number as nat, symbol@, key@),
{
    let num = number_text(number as u128);
    num.clone().concat("問のコンテストを始めます。\n問 1 (1/").concat(num.as_str()).concat(
        ")\nソートなぞなぞ ソート前の ",
    ).concat(symbol).concat(" な〜んだ？\n`").concat(key).concat("`")
}

/// The intended answer found, with the time it took.
pub open spec fn correct(name: Seq<char>, answer: Seq<char>, ms: nat) -> Seq<char> {
    name + " さん、正解です！\n正解は\""@ + answer + "\"でした！ ["@ + seconds(ms) + " sec]"@
}

pub fn correct_text(name: &str, answer: &str, ms: u64) -> (r: String)
    ensures
        r@ == correct(name@, answer@, ms as nat),
{
    String::from_str(name).concat(" さん、正解です！\n正解は\"").concat(answer).concat(
        "\"でした！ [",
    ).concat(seconds_text(ms as u128).as_str()).concat(" sec]")
}

/// Another quiz word with the answer's letters, accepted.
pub open spec fn anagram_accepted(name: Seq<char>, word: Seq<char>) -> Seq<char> {
    name + " さん、"@ + word + " は非想定解ですが正解です！"@
}

pub fn anagram_accepted_text(name: &str, word: &str) -> (r: String)
    ensures
        r@ == anagram_accepted(name@, word@),
{
    String::from_str(name).concat(" さん、").concat(word).concat(" は非想定解ですが正解です！")
}

/// A further acceptable word with the answer's letters, accepted.
pub open spec fn full_accepted(name: Seq<char>, word: Seq<char>) -> Seq<char> {
    name + " さん、"@ + word + " は出題辞書にない非想定解ですが正解です！"@
}

pub fn full_accepted_text(name: &str, word: &str) -> (r: String)
    ensures
        r@ == full_accepted(name@, word@),
{
    String::from_str(name).concat(" さん、").concat(word).concat(
        " は出題辞書にない非想定解ですが正解です！",
    )
}

/// A contest over, with its standings.
pub open spec fn contest_over(number: nat, standings: Seq<char>) -> Seq<char> {
    decimal(number) + "問連続のコンテストが終了しました。\n"@ + standings
}

pub fn contest_over_text(number: u32, standings: &str) -> (r: String)
    ensures
        r@ == contest_over(number as nat, standings@),
{
    number_text(number as u128).concat("問連続のコンテストが終了しました。\n").concat(standings)
}

/// The answer revealed.
pub open spec fn answer_revealed(answer: Seq<char>) -> Seq<char> {
    "正解は \""@ + answer + "\" でした..."@
}

pub fn reveal_text(answer: &str) -> (r: String)
    ensures
        r@ == answer_revealed(answer@),
{
    String::from_str("正解は \"").concat(answer).concat("\" でした...")
}

/// A new quiz refused while a single quiz is open.
pub open spec fn still_holding(key: Seq<char>) -> Seq<char> {
    "前回の出題が解かれていません\n問題: `"@ + key + "`"@
}

pub fn still_holding_text(key: &str) -> (r: String)
    ensures
        r@ == still_holding(key@),
{
    String::from_str("前回の出題が解かれていません\n問題: `").concat(key).concat("`")
}

/// A new quiz refused during a contest.
pub open spec fn still_contesting(key: Seq<char>) -> Seq<char> {
    "現在コンテスト中です\n問題: `"@ + key + "`"@
}

pub fn still_contesting_text(key: &str) -> (r: String)
    ensures
        r@ == still_contesting(key@),
{
    String::from_str("現在コンテスト中です\n問題: `").concat(key).concat("`")
}

/// A hint of the first graphemes.
pub open spec fn first_hint(n: nat, hint: Seq<char>) -> Seq<char> {
    "答えの先頭 "@ + decimal(n) + " 文字は... => `"@ + hint + "` "@
}

pub fn first_hint_text(n: usize, hint: &str) -> (r: String)
    ensures
        r@ == first_hint(n as nat, hint@),
{
    String::from_str("答えの先頭 ").concat(number_text(n as u128).as_str()).concat(
        " 文字は... => `",
    ).concat(hint).concat("` ")
}

/// A hint of graphemes at random positions.
pub open spec fn random_hint(n: nat, hint: Seq<char>) -> Seq<char> {
    "ランダムヒント "@ + decimal(n) + " 文字... => `"@ + hint + "` "@
}

pub fn random_hint_text(n: usize, hint: &str) -> (r: String)
    ensures
        r@ == random_hint(n as nat, hint@),
{
    String::from_str("ランダムヒント ").concat(number_text(n as u128).as_str()).concat(
        " 文字... => `",
    ).concat(hint).concat("` ")
}

pub open spec fn no_quiz() -> Seq<char> {
    "現在問題は出ていません。"@
}

pub open spec fn no_quiz_for_hint() -> Seq<char> {
    "問題が出てないですよ？"@
}

pub open spec fn zero_hint() -> Seq<char> {
    "ゼロ文字ヒントはだせません。"@
}

pub open spec fn hint_gives_up() -> Seq<char> {
    "答えが一意に定まるためギブアップとみなされました！"@
}

pub open spec fn hint_too_long() -> Seq<char> {
    "ヒントが文字数を超えていますｗ"@
}

pub open spec fn contest_aborted() -> Seq<char> {
    "コンテストを中止します。"@
}

pub open spec fn no_contest() -> Seq<char> {
    "現在コンテストは開催されていません。"@
}

/// A fixed reply.
pub enum Notice {
    NoQuiz,
    NoQuizForHint,
    ZeroHint,
    HintGivesUp,
    HintTooLong,
    ContestAborted,
    NoContest,
}

pub open spec fn notice(n: Notice) -> Seq<char> {
    match n {
        Notice::NoQuiz => no_quiz(),
        Notice::NoQuizForHint => no_quiz_for_hint(),
        Notice::ZeroHint => zero_hint(),
        Notice::HintGivesUp => hint_gives_up(),
        Notice::HintTooLong => hint_too_long(),
        Notice::ContestAborted => contest_aborted(),
        Notice::NoContest => no_contest(),
    }
}

pub fn notice_text(n: Notice) -> (r: String)
    ensures
        r@ == notice(n),
{
    match n {
        Notice::NoQuiz => String::from_str("現在問題は出ていません。"),
        Notice::NoQuizForHint => String::from_str("問題が出てないですよ？"),
        Notice::ZeroHint => String::from_str("ゼロ文字ヒントはだせません。"),
        Notice::HintGivesUp => String::from_str("答えが一意に定まるためギブアップとみなされました！"),
        Notice::HintTooLong => String::from_str("ヒントが文字数を超えていますｗ"),
        Notice::ContestAborted => String::from_str("コンテストを中止します。"),
        Notice::NoContest => String::from_str("現在コンテストは開催されていません。"),
    }
}

} // verus!
