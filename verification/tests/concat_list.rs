use trimbot::concat_list::{entry, join_lines, list_text, parse_concat_list};

fn words(items: &[&str]) -> Vec<String> {
    items.iter().map(|s| s.to_string()).collect()
}

#[test]
fn entries_are_read_in_order() {
    assert_eq!(
        parse_concat_list("file 'a.mp4'\nfile 'b.mp4'\nfile 'c.mp4'\n"),
        words(&["a.mp4", "b.mp4", "c.mp4"])
    );
}

#[test]
fn last_line_needs_no_line_feed() {
    assert_eq!(parse_concat_list("file 'a.mp4'\nfile 'b.mp4'"), words(&["a.mp4", "b.mp4"]));
    assert_eq!(parse_concat_list("file 'a.mp4'"), words(&["a.mp4"]));
}

#[test]
fn carriage_return_before_a_line_feed_belongs_to_the_line_end() {
    assert_eq!(parse_concat_list("file 'a.mp4'\r\nfile 'b.mp4'\r\n"), words(&["a.mp4", "b.mp4"]));
}

#[test]
fn carriage_return_at_the_very_end_stays_in_the_line() {
    assert_eq!(parse_concat_list("file 'a.mp4'\nfile 'b.mp4'\r"), words(&["a.mp4"]));
    assert_eq!(parse_concat_list("file 'a.mp4'\r\r\n"), Vec::<String>::new());
}

#[test]
fn lines_that_are_no_entries_are_passed_over() {
    let text = "# comment\n\nfile 'a.mp4'\nFile 'x.mp4'\n file 'y.mp4'\nfile 'z.mp4' \nfile \"q.mp4\"\nduration 5\nfile 'b.mp4'\n";
    assert_eq!(parse_concat_list(text), words(&["a.mp4", "b.mp4"]));
}

#[test]
fn list_without_entries_names_nothing() {
    assert_eq!(parse_concat_list(""), Vec::<String>::new());
    assert_eq!(parse_concat_list("\n\n\n"), Vec::<String>::new());
    assert_eq!(parse_concat_list("a.mp4\nb.mp4\n"), Vec::<String>::new());
    assert_eq!(parse_concat_list("file '"), Vec::<String>::new());
    assert_eq!(parse_concat_list("file '\nfile\n'"), Vec::<String>::new());
}

#[test]
fn path_is_taken_as_it_stands_between_the_quotes() {
    assert_eq!(parse_concat_list("file ''"), words(&[""]));
    assert_eq!(parse_concat_list("file 'it's here.mp4'"), words(&["it's here.mp4"]));
    assert_eq!(parse_concat_list("file '/mnt/vidéos/été 2024.mp4'\n"), words(&["/mnt/vidéos/été 2024.mp4"]));
    assert_eq!(parse_concat_list("file 'C:\\clips\\a.mp4'\r\n"), words(&["C:\\clips\\a.mp4"]));
    assert_eq!(parse_concat_list("file '''"), words(&["'"]));
}

#[test]
fn entry_quotes_the_path() {
    assert_eq!(entry("a.mp4"), "file 'a.mp4'");
    assert_eq!(entry(""), "file ''");
}

#[test]
fn written_list_ends_every_line() {
    assert_eq!(list_text(&words(&["a.mp4", "b.mp4"])), "file 'a.mp4'\nfile 'b.mp4'\n");
    assert_eq!(list_text(&vec![]), "");
}

#[test]
fn written_list_reads_back() {
    let paths = words(&["/tmp/w/clip_0.mp4", "/tmp/w/clip_1.mp4", "/tmp/w/clip_2.mp4"]);
    assert_eq!(parse_concat_list(&list_text(&paths)), paths);
}

#[test]
fn lines_are_joined_by_line_feeds() {
    assert_eq!(join_lines(&words(&["file 'a'", "file 'b'"])), "file 'a'\nfile 'b'");
    assert_eq!(join_lines(&words(&["one"])), "one");
    assert_eq!(join_lines(&vec![]), "");
    assert_eq!(
        parse_concat_list(&join_lines(&words(&["file 'a'", "file 'b'"]))),
        words(&["a", "b"])
    );
}
