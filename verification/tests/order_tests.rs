use proxypass::order::{chars_le, sort_texts};

fn chars(s: &str) -> Vec<char> {
    s.chars().collect()
}

#[test]
fn text_order_by_code_point() {
    assert!(chars_le(&chars("abc"), &chars("abd")));
    assert!(!chars_le(&chars("abd"), &chars("abc")));
    assert!(chars_le(&chars("ab"), &chars("abc")));
    assert!(!chars_le(&chars("abc"), &chars("ab")));
    assert!(chars_le(&chars(""), &chars("")));
    assert!(chars_le(&chars("Z"), &chars("a")));
    assert!(chars_le(&chars("z"), &chars("é")));
}

#[test]
fn sort_texts_matches_std_sort() {
    let names: Vec<String> = ["b", "a", "ä", "B", "", "ab", "a"].iter().map(|s| s.to_string()).collect();
    let mut expected = names.clone();
    expected.sort();
    assert_eq!(sort_texts(&names), expected);
    assert_eq!(sort_texts(&Vec::new()), Vec::<String>::new());
}
