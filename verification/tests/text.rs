use netshare::text::{
    chars_of, contains_at, is_white, line_ranges, second_word, split_ranges, starts_with_at, substring,
    trim_range, Sep,
};

fn pieces(s: &str, r: &[(usize, usize)]) -> Vec<String> {
    r.iter().map(|(a, b)| substring(s, *a, *b)).collect()
}

#[test]
fn lines_like_std() {
    for s in ["a\r\nb\n\nc\r", "", "\n", "x\n", "one", "a\n\n", "\r\n\r"] {
        let t = chars_of(s);
        let got = pieces(s, &line_ranges(&t));
        let want: Vec<String> = s.lines().map(|l| l.to_string()).collect();
        assert_eq!(got, want, "lines of {:?}", s);
    }
}

#[test]
fn split_like_std() {
    let s = "a,,b,";
    let t = chars_of(s);
    let got = pieces(s, &split_ranges(&t, 0, t.len(), Sep::Char(',')));
    assert_eq!(got, vec!["a", "", "b", ""]);
}

#[test]
fn trim_and_words() {
    let s = " \u{3000} two  words\t";
    let t = chars_of(s);
    let (a, b) = trim_range(&t, 0, t.len());
    assert_eq!(substring(s, a, b), s.trim());
    let (c, d) = second_word(&t, 0, t.len()).unwrap();
    assert_eq!(substring(s, c, d), "words");
    assert!(second_word(&t, 0, 3).is_none());
    assert!(is_white('\u{85}'));
    assert!(!is_white('x'));
}

#[test]
fn prefix_and_search() {
    let t = chars_of("sink_name=netshare_sink x");
    let p = chars_of("netshare");
    assert!(contains_at(&t, 0, t.len(), &p));
    assert!(!contains_at(&t, 0, 12, &p));
    assert!(starts_with_at(&t, 10, t.len(), &p));
    assert!(contains_at(&t, 3, 3, &chars_of("")));
}
