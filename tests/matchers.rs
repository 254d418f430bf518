use rexify::{
    Alpha, AnyChar, Digit, Literal, Matcher, Number, Optional, Range, Repeat, Repeat1,
    RepeatUntil, Rex, Rule, Select, Space, Span,
};

fn chars(s: &str) -> Vec<char> {
    s.chars().collect()
}

fn pieces(text: &[char], caps: &[Span]) -> Vec<String> {
    caps.iter().map(|(s, e)| text[*s..*e].iter().collect()).collect()
}

fn captured(m: &impl Matcher, s: &str) -> Option<(usize, Vec<String>)> {
    let text = chars(s);
    m.capture(&text).map(|(n, caps)| (n, pieces(&text, &caps)))
}

#[test]
fn alpha_find() {
    let rex = Rex::new(vec![Alpha::new().into_rule()]);
    assert_eq!(rex.find(&chars("123123a")), Some(6));
    assert_eq!(rex.find(&chars("123123")), None);
}

#[test]
fn any_char_find() {
    let rex = Rex::new(vec![AnyChar::new().into_rule()]);
    assert_eq!(rex.find(&chars("a")), Some(0));
    assert_eq!(AnyChar::new().match_with(&chars("")), None);
}

#[test]
fn literal_find() {
    let rex = Rex::new(vec![Literal::new("Hello").into_rule()]);
    assert_eq!(rex.find(&chars("123456 Hello, World!")), Some(7));
    assert_eq!(captured(&rex, "Hello!"), Some((5, vec!["Hello".to_string()])));
    assert_eq!(rex.match_with(&chars("Hell")), None);
}

#[test]
fn empty_literal_matches_nothing_consumed() {
    assert_eq!(captured(&Literal::new(""), "abc"), Some((0, vec![String::new()])));
}

#[test]
fn number_find() {
    let rex = Rex::new(vec![Number::new().into_rule()]);
    assert_eq!(rex.find(&chars("aaaaa 123456 Hello, World!")), Some(6));
    assert_eq!(captured(&Number::new(), "123456 x"), Some((6, vec!["123456".to_string()])));
    assert_eq!(Number::new().match_with(&chars("x1")), None);
}

#[test]
fn digit_find() {
    let rex = Rex::new(vec![Digit::new().into_rule()]);
    assert_eq!(rex.find(&chars("aaaaa 1 Hello, World!")), Some(6));
    assert_eq!(Digit::new().match_with(&chars("42")), Some(1));
}

#[test]
fn range_find() {
    let rex = Rex::new(vec![Range::new('a', 'e').into_rule()]);
    assert_eq!(rex.find(&chars("123456 Hello, World!")), Some(8));
    assert_eq!(Range::new('e', 'a').find(&chars("abcde")), None);
}

#[test]
fn space_find() {
    assert_eq!(Space::new().find(&chars("ab c")), Some(2));
    assert_eq!(captured(&Space::new(), "\u{3000}x"), Some((1, vec!["\u{3000}".to_string()])));
    assert_eq!(Space::new().match_with(&chars("x ")), None);
}

#[test]
fn repeat_find() {
    let rex = Rex::new(vec![Repeat::new(Literal::new("Hello")).into_rule()]);
    assert_eq!(rex.find(&chars("123456 HelloHello, World!")), Some(0));
    assert_eq!(Repeat::new(Literal::new("Hello")).match_with(&chars("HelloHello, World!")), Some(10));
}

#[test]
fn repeat_until_find() {
    let rex = Rex::new(vec![RepeatUntil::new(AnyChar::new(), Literal::new("Hello")).into_rule()]);
    assert_eq!(rex.find(&chars("aaHelloHello, World!")), Some(0));
    assert_eq!(
        captured(&rex, "aaHelloHello, World!"),
        Some((7, vec!["a".to_string(), "a".to_string(), "Hello".to_string()]))
    );
}

#[test]
fn repeat_until_lowercase_then_xyz() {
    let m = RepeatUntil::new(Range::new('a', 'z'), Literal::new("XYZ"));
    assert_eq!(
        captured(&m, "aaXYZ"),
        Some((5, vec!["a".to_string(), "a".to_string(), "XYZ".to_string()]))
    );
    assert_eq!(m.match_with(&chars("aaXYZ")), Some(5));
}

#[test]
fn repeat_until_fails_without_terminator() {
    let m = RepeatUntil::new(Range::new('a', 'z'), Literal::new("XYZ"));
    assert_eq!(m.match_with(&chars("aa1XYZ")), None);
    assert_eq!(m.match_with(&chars("aaa")), None);
}

#[test]
fn repeat_until_fails_on_zero_length_step() {
    let m = RepeatUntil::new(Optional::new(Literal::new("q")), Literal::new("z"));
    assert_eq!(m.match_with(&chars("abc")), None);
    assert_eq!(m.match_with(&chars("qqz")), Some(3));
}

#[test]
fn repeat_until_terminator_checked_first() {
    let m = RepeatUntil::new(AnyChar::new(), AnyChar::new());
    assert_eq!(captured(&m, "abc"), Some((1, vec!["a".to_string()])));
}

#[test]
fn repeat1_find() {
    let rex = Rex::new(vec![Repeat1::new(Literal::new("Hello")).into_rule()]);
    assert_eq!(rex.find(&chars("123456World!")), None);
}

#[test]
fn repeat1_is_one_then_repeat() {
    let text = chars("12a");
    assert_eq!(Repeat1::new(Digit::new()).match_with(&text), Some(2));
    assert_eq!(Repeat::new(Digit::new()).match_with(&text), Some(2));
    assert_eq!(Repeat1::new(Digit::new()).match_with(&chars("abc")), None);
    assert_eq!(Repeat::new(Digit::new()).match_with(&chars("abc")), Some(0));
}

#[test]
fn repeat_stops_on_zero_length() {
    let m = Repeat::new(Optional::new(Literal::new("q")));
    assert_eq!(captured(&m, "abc"), Some((0, vec![])));
    assert_eq!(captured(&m, "qqa"), Some((2, vec!["q".to_string(), "q".to_string()])));
    assert_eq!(Repeat1::new(Optional::new(Literal::new("q"))).match_with(&chars("abc")), None);
}

#[test]
fn optional_find() {
    let rex = Rex::new(vec![Optional::new(Literal::new("Hello")).into_rule()]);
    assert_eq!(rex.find(&chars("123456World!")), Some(0));
}

#[test]
fn optional_result() {
    let m = Optional::new(Literal::new("x"));
    assert_eq!(captured(&m, "yz"), Some((0, vec![])));
    assert_eq!(captured(&m, "xy"), Some((1, vec!["x".to_string()])));
}

#[test]
fn select_find() {
    let rex = Rex::new(vec![Select::new(vec![
        Literal::new("Hello").into_rule(),
        Literal::new("hello").into_rule(),
    ])
    .into_rule()]);
    assert_eq!(rex.find(&chars("123456 hello, Hello, World!")), Some(7));
}

#[test]
fn select_first_match_wins() {
    let m = Select::new(vec![Literal::new("ab").into_rule(), Literal::new("abc").into_rule()]);
    assert_eq!(captured(&m, "abcd"), Some((2, vec!["ab".to_string()])));
    let n = Select::new(vec![Literal::new("x").into_rule(), Literal::new("abc").into_rule()]);
    assert_eq!(n.match_with(&chars("abcd")), Some(3));
}

#[test]
fn select_empty_never_matches() {
    assert_eq!(Select::new(vec![]).match_with(&chars("abc")), None);
}

#[test]
fn digits_then_anything() {
    let rex = Rex::new(vec![
        Repeat1::new(Digit::new()).into_rule(),
        Repeat::new(AnyChar::new()).into_rule(),
    ]);
    let text = chars("asdija123102abc");
    assert_eq!(rex.find(&text), Some(6));
    let expected: Vec<String> =
        ["1", "2", "3", "1", "0", "2", "a", "b", "c"].iter().map(|s| s.to_string()).collect();
    let (n, caps) = rex.capture(&text[6..]).unwrap();
    assert_eq!(n, 9);
    assert_eq!(pieces(&text[6..], &caps), expected);
}

#[test]
fn number_run_then_anything() {
    let rex = Rex::new(vec![
        Repeat1::new(Number::new()).into_rule(),
        Repeat1::new(AnyChar::new()).into_rule(),
    ]);
    let text = chars("asdija123102abc");
    assert_eq!(rex.find(&text), Some(6));
    assert_eq!(
        captured(&rex, "123102abc"),
        Some((
            9,
            vec!["123102".to_string(), "a".to_string(), "b".to_string(), "c".to_string()]
        ))
    );
}

#[test]
fn find_not_found() {
    let rex = Rex::new(vec![Literal::new("zz").into_rule()]);
    assert_eq!(rex.find(&chars("abcabc")), None);
    let empty = Rex::new(vec![]);
    assert_eq!(empty.find(&chars("")), None);
    assert_eq!(empty.find(&chars("a")), Some(0));
    assert_eq!(Optional::new(Literal::new("x")).find(&chars("")), None);
}

#[test]
fn sequence_does_not_backtrack() {
    let rex = Rex::new(vec![Repeat::new(AnyChar::new()).into_rule(), Literal::new("x").into_rule()]);
    assert_eq!(rex.match_with(&chars("xxxx")), None);
    assert_eq!(rex.find(&chars("xxxx")), None);
}

#[test]
fn match_and_capture_agree() {
    let rules: Vec<Rule> = vec![
        Repeat1::new(Digit::new()).into_rule(),
        Optional::new(Space::new()).into_rule(),
        Alpha::new().into_rule(),
    ];
    let rex = Rex::new(rules);
    for s in ["12 a", "12a", "a", "12 ", ""] {
        let text = chars(s);
        assert_eq!(rex.match_with(&text), rex.capture(&text).map(|(n, _)| n));
    }
    assert_eq!(captured(&rex, "12 a"), Some((4, vec![
        "1".to_string(),
        "2".to_string(),
        " ".to_string(),
        "a".to_string(),
    ])));
}

#[test]
fn multibyte_characters_count_once() {
    let text = chars("ééa1");
    assert_eq!(Digit::new().find(&text), Some(3));
    assert_eq!(Literal::new("éa").find(&text), Some(1));
    assert_eq!(Repeat::new(Range::new('à', 'ÿ')).match_with(&text), Some(2));
}

#[test]
fn captures_are_spans_of_the_text() {
    let rex = Rex::new(vec![Literal::new("ab").into_rule(), Repeat::new(Digit::new()).into_rule()]);
    assert_eq!(rex.capture(&chars("ab12x")), Some((4, vec![(0, 2), (2, 3), (3, 4)])));
}

#[test]
fn found_position_matches_its_suffix() {
    let rex = Rex::new(vec![Literal::new("ab").into_rule(), Digit::new().into_rule()]);
    let text = chars("xab ab7ab");
    let i = rex.find(&text).unwrap();
    assert_eq!(i, 4);
    assert_eq!(rex.match_with(&text[i..]), Some(3));
    for j in 0..i {
        assert_eq!(rex.match_with(&text[j..]), None);
    }
}
