use webscout::text::{chars_of, contains, parse_u64_in, same_text, split_ranges, trim_range};

fn parse(s: &str) -> Option<u64> {
    let c = chars_of(s);
    parse_u64_in(&c, 0, c.len())
}

#[test]
fn parse_u64_like_std() {
    for s in ["0", "42", "+7", "+", "", "-1", "18446744073709551615", "18446744073709551616", "1 ", "٣", "007"] {
        assert_eq!(parse(s), s.parse::<u64>().ok(), "input {:?}", s);
    }
}

#[test]
fn trim_like_std() {
    for s in ["  a b  ", "\u{3000}x\u{2029}", "", "   ", "\u{200b}y"] {
        let c = chars_of(s);
        let (a, b) = trim_range(&c, 0, c.len());
        let got: String = c[a..b].iter().collect();
        assert_eq!(got, s.trim());
    }
}

#[test]
fn split_like_std() {
    for s in ["a,b,,c", "", ",", "abc", "x,"] {
        let c = chars_of(s);
        let pieces: Vec<String> = split_ranges(&c, 0, c.len(), ',')
            .iter()
            .map(|(a, b)| c[*a..*b].iter().collect())
            .collect();
        let expected: Vec<String> = s.split(',').map(|p| p.to_string()).collect();
        assert_eq!(pieces, expected);
    }
}

#[test]
fn contains_and_same_text() {
    assert!(contains(&chars_of("hello world"), &chars_of("o w")));
    assert!(contains(&chars_of("abc"), &chars_of("")));
    assert!(!contains(&chars_of("ab"), &chars_of("abc")));
    assert!(same_text("ab", "ab"));
    assert!(!same_text("ab", "aB"));
}
