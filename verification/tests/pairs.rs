use ols_adherence::{parse_counts, split_pair, split_pairs, CountError, PairText};

fn pair(x: &str, y: Option<&str>) -> PairText {
    PairText { x: String::from(x), y: y.map(String::from) }
}

#[test]
fn line_of_pairs() {
    assert_eq!(
        split_pairs("0:1,1:3,2:5,3:7"),
        vec![
            pair("0", Some("1")),
            pair("1", Some("3")),
            pair("2", Some("5")),
            pair("3", Some("7")),
        ]
    );
    assert_eq!(split_pairs("0.1:0.25"), vec![pair("0.1", Some("0.25"))]);
}

#[test]
fn pair_without_a_colon_has_no_response() {
    assert_eq!(split_pair("0.5"), pair("0.5", None));
    assert_eq!(split_pair(""), pair("", None));
    assert_eq!(split_pairs("0:1,2"), vec![pair("0", Some("1")), pair("2", None)]);
}

#[test]
fn pair_is_cut_at_the_first_two_colons() {
    assert_eq!(split_pair("1:2:3"), pair("1", Some("2")));
    assert_eq!(split_pair(":"), pair("", Some("")));
    assert_eq!(split_pair("1:"), pair("1", Some("")));
    assert_eq!(split_pair(":2"), pair("", Some("2")));
}

#[test]
fn empty_line_has_one_empty_pair() {
    assert_eq!(split_pairs(""), vec![pair("", None)]);
    assert_eq!(split_pairs("0:1,"), vec![pair("0", Some("1")), pair("", None)]);
}

#[test]
fn pairs_keep_their_blanks() {
    assert_eq!(split_pairs(" 0 : 1 "), vec![pair(" 0 ", Some(" 1 "))]);
}

#[test]
fn pairs_are_those_of_std() {
    for line in ["", "a", "a:b", "a:b,c:d", "a:b:c,d", ",", ":,:", "1:2,,3:4", "\u{e9}:\u{3000}"] {
        let expected: Vec<PairText> = line
            .split(',')
            .map(|p| {
                let mut it = p.split(':');
                PairText { x: String::from(it.next().unwrap()), y: it.next().map(String::from) }
            })
            .collect();
        assert_eq!(split_pairs(line), expected, "{:?}", line);
    }
}

#[test]
fn line_of_counts() {
    assert_eq!(parse_counts("10,20,30"), Ok(vec![10, 20, 30]));
    assert_eq!(parse_counts("0"), Ok(vec![0]));
    assert_eq!(parse_counts("+1,002"), Ok(vec![1, 2]));
}

#[test]
fn first_bad_count_decides_the_error() {
    assert_eq!(parse_counts(""), Err(CountError::Empty));
    assert_eq!(parse_counts("1,,x"), Err(CountError::Empty));
    assert_eq!(parse_counts("1,x,"), Err(CountError::InvalidDigit));
    assert_eq!(parse_counts("1, 2"), Err(CountError::InvalidDigit));
    assert_eq!(
        parse_counts("1,99999999999999999999999999999,x"),
        Err(CountError::TooLarge)
    );
    assert_eq!(parse_counts("1,2,"), Err(CountError::Empty));
}

#[test]
fn lines_of_counts_are_those_of_std() {
    for line in ["1,2,3", "", ",", "1,,2", "7", "a,b", "1,+2,-3", "00,01", "5,5.0"] {
        let expected: Option<Vec<usize>> =
            line.split(',').map(|s| s.parse::<usize>().ok()).collect();
        assert_eq!(parse_counts(line).ok(), expected, "{:?}", line);
    }
}
