use trimbot::text::{
    chars_of, digit_of, join_path, join_texts, push_decimal, same_text, trim_trailing_slashes,
};

fn decimal_string(n: u64) -> String {
    let mut s = String::from("n=");
    push_decimal(&mut s, n);
    s
}

#[test]
fn decimal_of_numbers() {
    assert_eq!(decimal_string(0), "n=0");
    assert_eq!(decimal_string(7), "n=7");
    assert_eq!(decimal_string(10), "n=10");
    assert_eq!(decimal_string(1080), "n=1080");
    assert_eq!(decimal_string(u64::MAX), "n=18446744073709551615");
}

#[test]
fn digits() {
    assert_eq!(digit_of('0'), Some(0));
    assert_eq!(digit_of('9'), Some(9));
    assert_eq!(digit_of('a'), None);
    assert_eq!(digit_of('/'), None);
    assert_eq!(digit_of(':'), None);
    assert_eq!(digit_of('٣'), None);
}

#[test]
fn characters_not_bytes() {
    assert_eq!(chars_of("été"), vec!['é', 't', 'é']);
    assert_eq!(chars_of(""), Vec::<char>::new());
}

#[test]
fn text_equality() {
    assert!(same_text("720p", "720p"));
    assert!(!same_text("720p", "720P"));
    assert!(same_text("", ""));
}

#[test]
fn slashes_at_the_end_go() {
    assert_eq!(trim_trailing_slashes("/tmp/"), "/tmp");
    assert_eq!(trim_trailing_slashes("/tmp///"), "/tmp");
    assert_eq!(trim_trailing_slashes("/tmp"), "/tmp");
    assert_eq!(trim_trailing_slashes("/"), "");
    assert_eq!(trim_trailing_slashes("///"), "");
    assert_eq!(trim_trailing_slashes(""), "");
    assert_eq!(trim_trailing_slashes("/a/b/"), "/a/b");
    assert_eq!(trim_trailing_slashes("/données/"), "/données");
}

#[test]
fn paths_are_joined_with_one_slash() {
    assert_eq!(join_path("/tmp", "x.mp4"), "/tmp/x.mp4");
    assert_eq!(join_path("/tmp/", "x.mp4"), "/tmp/x.mp4");
    assert_eq!(join_path("", "x.mp4"), "/x.mp4");
    assert_eq!(join_path("/", "x.mp4"), "/x.mp4");
}

#[test]
fn texts_are_joined_with_the_separator_between() {
    let parts = vec!["a".to_string(), "b".to_string(), "c".to_string()];
    assert_eq!(join_texts(&parts, ", "), "a, b, c");
    assert_eq!(join_texts(&parts[..1].to_vec(), ", "), "a");
    assert_eq!(join_texts(&vec![], ", "), "");
    assert_eq!(join_texts(&vec!["".to_string(), "".to_string()], "-"), "-");
}
