use trimbot::args;
use trimbot::error::ErrorKind;
use trimbot::resolution::Resolution;
use trimbot::seconds::Seconds;

fn words(items: &[&str]) -> Vec<String> {
    items.iter().map(|s| s.to_string()).collect()
}

fn at(text: &str) -> Seconds {
    Seconds::parse(text).unwrap()
}

#[test]
fn transcode_encodes_to_h264_and_aac() {
    assert_eq!(
        args::transcode("in.mov", "out.mp4"),
        words(&[
            "-i", "in.mov", "-c:v", "libx264", "-c:a", "aac", "-movflags", "+faststart", "-y",
            "out.mp4",
        ])
    );
}

#[test]
fn encode_puts_the_scale_filter_before_the_codecs() {
    assert_eq!(
        args::encode("in.mov", "out.mp4", Resolution::Hd720),
        words(&[
            "-i", "in.mov", "-vf", "scale=-2:720", "-c:v", "libx264", "-c:a", "aac", "-movflags",
            "+faststart", "-y", "out.mp4",
        ])
    );
    assert_eq!(args::encode("a", "b", Resolution::Source), args::transcode("a", "b"));
}

#[test]
fn remux_copies_the_streams() {
    assert_eq!(
        args::remux("step.mp4", "out.mp4"),
        words(&["-i", "step.mp4", "-c", "copy", "-y", "out.mp4"])
    );
}

#[test]
fn probe_asks_for_the_format_as_json() {
    assert_eq!(
        args::probe("clip.mp4"),
        words(&["-v", "quiet", "-print_format", "json", "-show_format", "clip.mp4"])
    );
    assert_eq!(
        args::probe_streams("clip.mp4"),
        words(&[
            "-v", "quiet", "-print_format", "json", "-show_format", "-show_streams", "clip.mp4",
        ])
    );
}

#[test]
fn trim_seeks_to_the_start_and_takes_the_difference() {
    assert_eq!(
        args::trim("in.mp4", at("1.5"), at("4"), "out.mp4"),
        Ok(words(&[
            "-ss", "1.5", "-i", "in.mp4", "-t", "2.5", "-c:v", "libx264", "-c:a", "aac",
            "-movflags", "+faststart", "-y", "out.mp4",
        ]))
    );
}

#[test]
fn trim_is_refused_unless_the_end_is_after_the_start() {
    for (start, end) in [("2", "2"), ("2", "1"), ("0", "-0.000001"), ("0", "0")] {
        let err = args::trim("in.mp4", at(start), at(end), "out.mp4").unwrap_err();
        assert_eq!(err.kind, ErrorKind::Validation);
        assert_eq!(err.message, "Invalid trim duration");
    }
    assert!(args::trim("in.mp4", at("2"), at("2.000001"), "out.mp4").is_ok());
    assert!(args::trim("in.mp4", at("-3"), at("-2"), "out.mp4").is_ok());
}

#[test]
fn trim_writes_a_difference_wider_than_the_range_of_times() {
    let r = args::trim(
        "in.mp4",
        Seconds { micros: i64::MIN },
        Seconds { micros: i64::MAX },
        "out.mp4",
    )
    .unwrap();
    assert_eq!(r[1], "-9223372036854.775808");
    assert_eq!(r[5], "18446744073709.551615");
}

#[test]
fn split_cuts_before_and_after_the_split_point() {
    let (left, right) =
        args::split("in.mp4", at("4"), "left.mp4", "right.mp4", at("10.5")).unwrap();
    assert_eq!(
        left,
        words(&[
            "-ss", "0", "-i", "in.mp4", "-t", "4", "-c:v", "libx264", "-c:a", "aac", "-movflags",
            "+faststart", "-y", "left.mp4",
        ])
    );
    assert_eq!(
        right,
        words(&[
            "-ss", "4", "-i", "in.mp4", "-t", "6.5", "-c:v", "libx264", "-c:a", "aac",
            "-movflags", "+faststart", "-y", "right.mp4",
        ])
    );
}

#[test]
fn split_below_the_floor_is_refused() {
    let err = args::split("in.mp4", at("0.1"), "l.mp4", "r.mp4", at("10.0")).unwrap_err();
    assert_eq!(err.kind, ErrorKind::Validation);
    assert_eq!(err.message, "Split would create segments too short (< 0.2s)");
}

#[test]
fn split_outside_the_clip_is_refused() {
    for (split, total) in [("0", "10"), ("-1", "10"), ("10", "10"), ("11", "10"), ("1", "0")] {
        let err = args::split("in.mp4", at(split), "l.mp4", "r.mp4", at(total)).unwrap_err();
        assert_eq!(err.kind, ErrorKind::Validation);
        assert_eq!(err.message, "Invalid split time");
    }
}

#[test]
fn split_that_leaves_a_short_part_is_refused() {
    for (split, total) in [("0.199999", "10"), ("9.9", "10"), ("9.800001", "10"), ("0.1", "0.2")] {
        let err = args::split("in.mp4", at(split), "l.mp4", "r.mp4", at(total)).unwrap_err();
        assert_eq!(err.kind, ErrorKind::Validation);
        assert_eq!(err.message, "Split would create segments too short (< 0.2s)");
    }
    assert!(args::split("in.mp4", at("0.2"), "l.mp4", "r.mp4", at("10")).is_ok());
    assert!(args::split("in.mp4", at("9.8"), "l.mp4", "r.mp4", at("10")).is_ok());
    assert!(args::split("in.mp4", at("0.2"), "l.mp4", "r.mp4", at("0.4")).is_ok());
}

#[test]
fn fade_in_and_out_are_chained_for_video_and_audio() {
    assert_eq!(
        args::fade("in.mp4", "out.mp4", Some(at("1")), Some(at("2.5")), at("10")),
        words(&[
            "-i",
            "in.mp4",
            "-vf",
            "fade=t=in:st=0:d=1,fade=t=out:st=7.5:d=2.5",
            "-af",
            "afade=t=in:st=0:d=1,afade=t=out:st=7.5:d=2.5",
            "-c:v",
            "libx264",
            "-c:a",
            "aac",
            "-movflags",
            "+faststart",
            "-y",
            "out.mp4",
        ])
    );
}

#[test]
fn fade_in_alone() {
    let r = args::fade("in.mp4", "out.mp4", Some(at("0.5")), None, at("10"));
    assert_eq!(r[2..6], words(&["-vf", "fade=t=in:st=0:d=0.5", "-af", "afade=t=in:st=0:d=0.5"]));
    assert_eq!(r.len(), 14);
}

#[test]
fn fade_out_alone() {
    let r = args::fade("in.mp4", "out.mp4", None, Some(at("3")), at("10"));
    assert_eq!(
        r[2..6],
        words(&["-vf", "fade=t=out:st=7:d=3", "-af", "afade=t=out:st=7:d=3"])
    );
    let r = args::fade("in.mp4", "out.mp4", Some(at("0")), Some(at("3")), at("10"));
    assert_eq!(r[3], "fade=t=out:st=7:d=3");
}

#[test]
fn fade_that_is_absent_or_not_positive_is_left_out() {
    let plain = args::transcode("in.mp4", "out.mp4");
    assert_eq!(args::fade("in.mp4", "out.mp4", None, None, at("10")), plain);
    assert_eq!(args::fade("in.mp4", "out.mp4", Some(at("0")), Some(at("-1")), at("10")), plain);
}

#[test]
fn fade_out_longer_than_the_clip_starts_at_zero() {
    let r = args::fade("in.mp4", "out.mp4", None, Some(at("5")), at("3"));
    assert_eq!(r[3], "fade=t=out:st=0:d=5");
    assert_eq!(r[5], "afade=t=out:st=0:d=5");
}

#[test]
fn demuxer_reads_the_list_as_one_input() {
    assert_eq!(
        args::concat_demuxer("list.txt", "out.mp4", Resolution::Source),
        words(&[
            "-f", "concat", "-safe", "0", "-i", "list.txt", "-c:v", "libx264", "-c:a", "aac",
            "-movflags", "+faststart", "-y", "out.mp4",
        ])
    );
    assert_eq!(
        args::concat_demuxer("list.txt", "out.mp4", Resolution::Hd1080)[6..8],
        words(&["-vf", "scale=-2:1080"])
    );
}

#[test]
fn filter_graph_names_every_input_and_both_outputs() {
    let paths = words(&["a.mp4", "b.mp4", "c.mp4"]);
    assert_eq!(
        args::concat_filter(&paths, "out.mp4", Resolution::Hd720),
        Ok(words(&[
            "-i",
            "a.mp4",
            "-i",
            "b.mp4",
            "-i",
            "c.mp4",
            "-filter_complex",
            "[0:v][0:a][1:v][1:a][2:v][2:a]concat=n=3:v=1:a=1[v][a]",
            "-vf",
            "scale=-2:720",
            "-map",
            "[v]",
            "-map",
            "[a]",
            "-c:v",
            "libx264",
            "-c:a",
            "aac",
            "-movflags",
            "+faststart",
            "-y",
            "out.mp4",
        ]))
    );
}

#[test]
fn filter_graph_counts_in_decimal() {
    let paths: Vec<String> = (0..12).map(|i| format!("clip{}.mp4", i)).collect();
    let r = args::concat_filter(&paths, "out.mp4", Resolution::Source).unwrap();
    assert!(r[25].ends_with("[10:v][10:a][11:v][11:a]concat=n=12:v=1:a=1[v][a]"));
    assert_eq!(r[26], "-map");
}

#[test]
fn filter_graph_without_inputs_is_refused() {
    let err = args::concat_filter(&vec![], "out.mp4", Resolution::Source).unwrap_err();
    assert_eq!(err.kind, ErrorKind::Validation);
    assert_eq!(err.message, "No valid input files found in concat list");
}

#[test]
fn crossfade_offset_is_the_clamped_difference() {
    let d = at("1");
    assert_eq!(args::offset_of_crossfade(at("5"), d), at("4"));
    assert_eq!(args::offset_of_crossfade(at("1"), d), at("0"));
    assert_eq!(args::offset_of_crossfade(at("0.5"), d), at("0"));
    assert_eq!(args::offset_of_crossfade(at("-3"), d), at("0"));
    assert_eq!(args::offset_of_crossfade(at("1.000001"), d), at("0.000001"));
}

#[test]
fn crossfade_names_duration_and_offset_in_the_graph() {
    assert_eq!(
        args::crossfade("left.mp4", "right.mp4", at("1.5"), at("3.25"), "step.mp4"),
        words(&[
            "-i",
            "left.mp4",
            "-i",
            "right.mp4",
            "-filter_complex",
            "[0:v][1:v]xfade=transition=fade:duration=1.5:offset=3.25[v];[0:a][1:a]acrossfade=d=1.5[a]",
            "-map",
            "[v]",
            "-map",
            "[a]",
            "-c:v",
            "libx264",
            "-c:a",
            "aac",
            "-movflags",
            "+faststart",
            "-y",
            "step.mp4",
        ])
    );
}
