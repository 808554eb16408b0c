//! The argument lists of the engine's invocations.

use crate::error::{plain_failure, ErrorKind, ExportError};
use crate::resolution::{scale_args, Resolution};
use crate::seconds::{seconds_text, Seconds};
use crate::text::{decimal, joined, push_arg, push_decimal, push_owned};
use vstd::prelude::*;
use vstd::string::*;

verus! {

/// The arguments that end every encoding invocation: H.264 video, AAC audio,
/// the index at the front of the file, and the output, overwritten if it exists.
pub open spec fn encode_tail(output: Seq<char>) -> Seq<Seq<char>> {
    seq!["-c:v"@, "libx264"@, "-c:a"@, "aac"@, "-movflags"@, "+faststart"@, "-y"@, output]
}

/// Re-encodes `input` to `output`, scaled to `resolution`.
pub open spec fn encode_args(input: Seq<char>, output: Seq<char>, resolution: Resolution) -> Seq<
    Seq<char>,
> {
    seq!["-i"@, input] + scale_args(resolution) + encode_tail(output)
}

/// Copies the streams of `input` to `output` without encoding them again.
pub open spec fn remux_args(input: Seq<char>, output: Seq<char>) -> Seq<Seq<char>> {
    seq!["-i"@, input, "-c"@, "copy"@, "-y"@, output]
}

/// Asks the inspection tool for the format of `path` as JSON.
pub open spec fn probe_args(path: Seq<char>) -> Seq<Seq<char>> {
    seq!["-v"@, "quiet"@, "-print_format"@, "json"@, "-show_format"@, path]
}

/// Asks the inspection tool for the format and the streams of `path` as JSON.
pub open spec fn probe_streams_args(path: Seq<char>) -> Seq<Seq<char>> {
    seq!["-v"@, "quiet"@, "-print_format"@, "json"@, "-show_format"@, "-show_streams"@, path]
}

/// Cuts `duration` microseconds out of `input`, from `start` on.
pub open spec fn cut_args(
    input: Seq<char>,
    start: Seq<char>,
    duration: int,
    output: Seq<char>,
) -> Seq<Seq<char>> {
    seq!["-ss"@, start, "-i"@, input, "-t"@, seconds_text(duration)] + encode_tail(output)
}

/// Cuts the part of `input` from `start` to `end` out.
pub open spec fn trim_args(input: Seq<char>, start: int, end: int, output: Seq<char>) -> Seq<
    Seq<char>,
> {
    cut_args(input, seconds_text(start), end - start, output)
}

/// The shortest part, in microseconds, that a split may leave on either side.
pub const MIN_SEGMENT_MICROS: i64 = 200_000;

/// The split point lies outside the clip, or at one of its ends.
pub open spec fn split_outside(split: int, total: int) -> bool {
    split <= 0 || split >= total
}

/// One of the two parts of the split would be shorter than the shortest allowed.
pub open spec fn split_too_short(split: int, total: int) -> bool {
    split < MIN_SEGMENT_MICROS || total - split < MIN_SEGMENT_MICROS
}

/// Cuts the part of `input` before the split point out.
pub open spec fn split_left_args(input: Seq<char>, split: int, output: Seq<char>) -> Seq<
    Seq<char>,
> {
    cut_args(input, "0"@, split, output)
}

/// Cuts the part of `input` from the split point to the end out.
pub open spec fn split_right_args(
    input: Seq<char>,
    split: int,
    total: int,
    output: Seq<char>,
) -> Seq<Seq<char>> {
    cut_args(input, seconds_text(split), total - split, output)
}

/// A fade is applied where a duration is given and positive.
pub open spec fn fade_applies(duration: Option<int>) -> bool {
    duration matches Some(d) && d > 0
}

/// Where a fade-out of `fade_out` microseconds starts in a clip of `total`:
/// that long before the end, or at the start where the clip is shorter.
pub open spec fn fade_out_start(total: int, fade_out: int) -> int {
    if total > fade_out {
        total - fade_out
    } else {
        0
    }
}

/// The filter `name` (`fade` for video, `afade` for audio) fading in over the
/// first `duration` microseconds.
pub open spec fn fade_in_filter(name: Seq<char>, duration: int) -> Seq<char> {
    name + "=t=in:st=0:d="@ + seconds_text(duration)
}

/// The filter `name` fading out over `duration` microseconds from `start` on.
pub open spec fn fade_out_filter(name: Seq<char>, start: int, duration: int) -> Seq<char> {
    name + "=t=out:st="@ + seconds_text(start) + ":d="@ + seconds_text(duration)
}

/// The fade filters of one stream: the fade-in where one applies, then the
/// fade-out where one applies.
pub open spec fn fade_filters(
    name: Seq<char>,
    fade_in: Option<int>,
    fade_out: Option<int>,
    total: int,
) -> Seq<Seq<char>> {
    let head = if fade_applies(fade_in) {
        seq![fade_in_filter(name, fade_in->Some_0)]
    } else {
        Seq::<Seq<char>>::empty()
    };
    let tail = if fade_applies(fade_out) {
        seq![fade_out_filter(name, fade_out_start(total, fade_out->Some_0), fade_out->Some_0)]
    } else {
        Seq::<Seq<char>>::empty()
    };
    head + tail
}

/// The option `flag` with `filters` chained by commas, or nothing where there
/// is no filter.
pub open spec fn filter_option(flag: Seq<char>, filters: Seq<Seq<char>>) -> Seq<Seq<char>> {
    if filters.len() == 0 {
        Seq::<Seq<char>>::empty()
    } else {
        seq![flag, joined(filters, ","@)]
    }
}

/// Re-encodes `input` to `output` with the fades applied to video and audio.
pub open spec fn fade_args(
    input: Seq<char>,
    output: Seq<char>,
    fade_in: Option<int>,
    fade_out: Option<int>,
    total: int,
) -> Seq<Seq<char>> {
    seq!["-i"@, input] + filter_option("-vf"@, fade_filters("fade"@, fade_in, fade_out, total))
        + filter_option("-af"@, fade_filters("afade"@, fade_in, fade_out, total)) + encode_tail(
        output,
    )
}

/// Joins the clips that the concat list at `list_path` names, as one stream of
/// segments, and encodes the result to `output`, scaled to `resolution`.
pub open spec fn demuxer_args(
    list_path: Seq<char>,
    output: Seq<char>,
    resolution: Resolution,
) -> Seq<Seq<char>> {
    seq!["-f"@, "concat"@, "-safe"@, "0"@, "-i"@, list_path] + scale_args(resolution)
        + encode_tail(output)
}

/// Each of `paths` as an input of its own, in their order.
pub open spec fn input_args(paths: Seq<Seq<char>>) -> Seq<Seq<char>>
    decreases paths.len(),
{
    if paths.len() == 0 {
        Seq::<Seq<char>>::empty()
    } else {
        input_args(paths.drop_last()) + seq!["-i"@, paths.last()]
    }
}

/// The video and the audio stream of input `i`, as a filter graph names them.
pub open spec fn stream_pair(i: nat) -> Seq<char> {
    "["@ + decimal(i) + ":v]["@ + decimal(i) + ":a]"@
}

/// The streams of the inputs 0 to `n - 1`, input by input.
pub open spec fn stream_pairs(n: nat) -> Seq<char>
    decreases n,
{
    if n == 0 {
        Seq::<char>::empty()
    } else {
        stream_pairs((n - 1) as nat) + stream_pair((n - 1) as nat)
    }
}

/// The filter graph that joins `n` inputs end to end into one video stream
/// `[v]` and one audio stream `[a]`.
pub open spec fn concat_graph(n: nat) -> Seq<char> {
    stream_pairs(n) + "concat=n="@ + decimal(n) + ":v=1:a=1[v][a]"@
}

/// The options that pick the streams `[v]` and `[a]` of a filter graph.
pub open spec fn map_args() -> Seq<Seq<char>> {
    seq!["-map"@, "[v]"@, "-map"@, "[a]"@]
}

/// Joins `paths` by a filter graph and encodes the result to `output`, scaled
/// to `resolution`.
pub open spec fn filter_concat_args(
    paths: Seq<Seq<char>>,
    output: Seq<char>,
    resolution: Resolution,
) -> Seq<Seq<char>> {
    input_args(paths) + seq!["-filter_complex"@, concat_graph(paths.len())] + scale_args(
        resolution,
    ) + map_args() + encode_tail(output)
}

/// Where the crossfade of `duration` microseconds starts in a left clip of
/// `left` microseconds: that long before its end, and never before its start.
pub open spec fn crossfade_offset(left: int, duration: int) -> int {
    if left > duration {
        left - duration
    } else {
        0
    }
}

/// The filter graph of one crossfade: the video of the first input dissolves
/// into that of the second over `duration` microseconds from `offset` on, and
/// the audio crosses over a span of the same length.
pub open spec fn crossfade_graph(duration: int, offset: int) -> Seq<char> {
    "[0:v][1:v]xfade=transition=fade:duration="@ + seconds_text(duration) + ":offset="@
        + seconds_text(offset) + "[v];[0:a][1:a]acrossfade=d="@ + seconds_text(duration) + "[a]"@
}

/// Merges `left` and `right` with one crossfade and encodes the result to `target`.
pub open spec fn crossfade_args(
    left: Seq<char>,
    right: Seq<char>,
    duration: int,
    offset: int,
    target: Seq<char>,
) -> Seq<Seq<char>> {
    seq!["-i"@, left, "-i"@, right, "-filter_complex"@, crossfade_graph(duration, offset)]
        + map_args() + encode_tail(target)
}

/// A time, where one is given, as a number of microseconds.
pub open spec fn micros_of(t: Option<Seconds>) -> Option<int> {
    match t {
        Some(s) => Some(s.micros as int),
        None => None,
    }
}

/// Appends the arguments that end every encoding invocation.
pub fn push_encode_tail(args: &mut Vec<String>, output: &str)
    ensures
        final(args).deep_view() == old(args).deep_view() + encode_tail(output@),
{
    push_arg(args, "-c:v");
    push_arg(args, "libx264");
    push_arg(args, "-c:a");
    push_arg(args, "aac");
    push_arg(args, "-movflags");
    push_arg(args, "+faststart");
    push_arg(args, "-y");
    push_arg(args, output);
    assert(args.deep_view() =~= old(args).deep_view() + encode_tail(output@));
}

/// The arguments that re-encode `input` to `output`, scaled to `resolution`.
pub fn encode(input: &str, output: &str, resolution: Resolution) -> (args: Vec<String>)
    ensures
        args.deep_view() == encode_args(input@, output@, resolution),
{
    let mut args: Vec<String> = Vec::new();
    push_arg(&mut args, "-i");
    push_arg(&mut args, input);
    resolution.push_scale_args(&mut args);
    push_encode_tail(&mut args, output);
    assert(args.deep_view() =~= encode_args(input@, output@, resolution));
    args
}

/// The arguments that transcode `input` to an MP4 at `output`.
pub fn transcode(input: &str, output: &str) -> (args: Vec<String>)
    ensures
        args.deep_view() == encode_args(input@, output@, Resolution::Source),
{
    encode(input, output, Resolution::Source)
}

/// The arguments that copy the streams of `input` to `output`.
pub fn remux(input: &str, output: &str) -> (args: Vec<String>)
    ensures
        args.deep_view() == remux_args(input@, output@),
{
    let mut args: Vec<String> = Vec::new();
    push_arg(&mut args, "-i");
    push_arg(&mut args, input);
    push_arg(&mut args, "-c");
    push_arg(&mut args, "copy");
    push_arg(&mut args, "-y");
    push_arg(&mut args, output);
    assert(args.deep_view() =~= remux_args(input@, output@));
    args
}

/// The arguments that ask for the format of `path`.
pub fn probe(path: &str) -> (args: Vec<String>)
    ensures
        args.deep_view() == probe_args(path@),
{
    let mut args: Vec<String> = Vec::new();
    push_arg(&mut args, "-v");
    push_arg(&mut args, "quiet");
    push_arg(&mut args, "-print_format");
    push_arg(&mut args, "json");
    push_arg(&mut args, "-show_format");
    push_arg(&mut args, path);
    assert(args.deep_view() =~= probe_args(path@));
    args
}

/// The arguments that ask for the format and the streams of `path`.
pub fn probe_streams(path: &str) -> (args: Vec<String>)
    ensures
        args.deep_view() == probe_streams_args(path@),
{
    let mut args: Vec<String> = Vec::new();
    push_arg(&mut args, "-v");
    push_arg(&mut args, "quiet");
    push_arg(&mut args, "-print_format");
    push_arg(&mut args, "json");
    push_arg(&mut args, "-show_format");
    push_arg(&mut args, "-show_streams");
    push_arg(&mut args, path);
    assert(args.deep_view() =~= probe_streams_args(path@));
    args
}

/// The arguments that cut `duration` out of `input`, from `start` on.
fn cut(input: &str, start: String, duration: String, output: &str) -> (args: Vec<String>)
    ensures
        args.deep_view() == seq!["-ss"@, start@, "-i"@, input@, "-t"@, duration@] + encode_tail(
            output@,
        ),
{
    let mut args: Vec<String> = Vec::new();
    push_arg(&mut args, "-ss");
    push_owned(&mut args, start);
    push_arg(&mut args, "-i");
    push_arg(&mut args, input);
    push_arg(&mut args, "-t");
    push_owned(&mut args, duration);
    push_encode_tail(&mut args, output);
    assert(args.deep_view() =~= seq!["-ss"@, start@, "-i"@, input@, "-t"@, duration@]
        + encode_tail(output@));
    args
}

/// The arguments that cut the part of `input` from `start` to `end` out into
/// `output`. A validation error where `end` is not after `start`.
pub fn trim(input: &str, start: Seconds, end: Seconds, output: &str) -> (r: Result<
    Vec<String>,
    ExportError,
>)
    ensures
        r is Err <==> end.micros <= start.micros,
        r matches Err(e) ==> e@ == plain_failure(ErrorKind::Validation, "Invalid trim duration"@),
        r matches Ok(args) ==> args.deep_view() == trim_args(
            input@,
            start.micros as int,
            end.micros as int,
            output@,
        ),
{
    if end.micros <= start.micros {
        return Err(ExportError::plain(ErrorKind::Validation, "Invalid trim duration"));
    }
    Ok(cut(input, start.to_text(), end.text_since(start), output))
}

/// The two argument lists that split `input`, of `total` length, at
/// `split_time`: the part before it into `left_output`, the part after it into
/// `right_output`. A validation error where the split point is not inside the
/// clip, or where a part would be shorter than a fifth of a second.
pub fn split(
    input: &str,
    split_time: Seconds,
    left_output: &str,
    right_output: &str,
    total: Seconds,
) -> (r: Result<(Vec<String>, Vec<String>), ExportError>)
    ensures
        r is Err <==> split_outside(split_time.micros as int, total.micros as int)
            || split_too_short(split_time.micros as int, total.micros as int),
        split_outside(split_time.micros as int, total.micros as int) ==> r is Err && r->Err_0@
            == plain_failure(ErrorKind::Validation, "Invalid split time"@),
        !split_outside(split_time.micros as int, total.micros as int) && split_too_short(
            split_time.micros as int,
            total.micros as int,
        ) ==> r is Err && r->Err_0@ == plain_failure(
            ErrorKind::Validation,
            "Split would create segments too short (< 0.2s)"@,
        ),
        r matches Ok(parts) ==> parts.0.deep_view() == split_left_args(
            input@,
            split_time.micros as int,
            left_output@,
        ) && parts.1.deep_view() == split_right_args(
            input@,
            split_time.micros as int,
            total.micros as int,
            right_output@,
        ),
{
    if split_time.micros <= 0 || split_time.micros >= total.micros {
        return Err(ExportError::plain(ErrorKind::Validation, "Invalid split time"));
    }
    if split_time.micros < MIN_SEGMENT_MICROS || total.micros - split_time.micros
        < MIN_SEGMENT_MICROS {
        return Err(
            ExportError::plain(
                ErrorKind::Validation,
                "Split would create segments too short (< 0.2s)",
            ),
        );
    }
    let left = cut(input, String::from_str("0"), split_time.to_text(), left_output);
    let right = cut(input, split_time.to_text(), total.text_since(split_time), right_output);
    Ok((left, right))
}

/// The fade filters of one stream, chained by commas, where any applies.
fn fade_chain(
    name: &str,
    fade_in: Option<Seconds>,
    fade_out: Option<Seconds>,
    total: Seconds,
) -> (r: Option<String>)
    ensures
        ({
            let filters = fade_filters(
                name@,
                micros_of(fade_in),
                micros_of(fade_out),
                total.micros as int,
            );
            match r {
                Some(chain) => filters.len() > 0 && chain@ == joined(filters, ","@),
                None => filters.len() == 0,
            }
        }),
{
    let ghost filters = fade_filters(
        name@,
        micros_of(fade_in),
        micros_of(fade_out),
        total.micros as int,
    );
    let mut chain = String::new();
    let mut any = false;
    match fade_in {
        Some(d) => {
            if d.micros > 0 {
                chain.append(name);
                chain.append("=t=in:st=0:d=");
                chain.append(d.to_text().as_str());
                any = true;
                assert(chain@ =~= fade_in_filter(name@, d.micros as int));
            }
        },
        None => {},
    }
    let ghost head = chain@;
    match fade_out {
        Some(d) => {
            if d.micros > 0 {
                if any {
                    chain.append(",");
                }
                let start = if total.micros > d.micros {
                    Seconds { micros: total.micros - d.micros }
                } else {
                    Seconds { micros: 0 }
                };
                chain.append(name);
                chain.append("=t=out:st=");
                chain.append(start.to_text().as_str());
                chain.append(":d=");
                chain.append(d.to_text().as_str());
                assert(chain@ =~= head + (if any {
                    ","@
                } else {
                    Seq::<char>::empty()
                }) + fade_out_filter(
                    name@,
                    fade_out_start(total.micros as int, d.micros as int),
                    d.micros as int,
                ));
                any = true;
            }
        },
        None => {},
    }
    if any {
        proof {
            if filters.len() == 2 {
                let front = filters.drop_last();
                assert(front.len() == 1 && front[0] == filters[0]);
                assert(joined(front, ","@) == filters[0]);
                assert(joined(filters, ","@) == joined(front, ","@) + ","@ + filters[1]);
            } else {
                assert(filters.len() == 1);
                assert(joined(filters, ","@) == filters[0]);
            }
            assert(chain@ =~= joined(filters, ","@));
        }
        Some(chain)
    } else {
        None
    }
}

/// The arguments that re-encode `input` to `output` with a fade-in over the
/// first `fade_in` and a fade-out over the last `fade_out` of its `total`
/// length, on video and audio alike. A fade applies where its duration is given
/// and positive; a fade-out longer than the clip starts at the clip's start.
pub fn fade(
    input: &str,
    output: &str,
    fade_in: Option<Seconds>,
    fade_out: Option<Seconds>,
    total: Seconds,
) -> (args: Vec<String>)
    ensures
        args.deep_view() == fade_args(
            input@,
            output@,
            micros_of(fade_in),
            micros_of(fade_out),
            total.micros as int,
        ),
{
    let mut args: Vec<String> = Vec::new();
    push_arg(&mut args, "-i");
    push_arg(&mut args, input);
    match fade_chain("fade", fade_in, fade_out, total) {
        Some(chain) => {
            push_arg(&mut args, "-vf");
            push_owned(&mut args, chain);
        },
        None => {},
    }
    match fade_chain("afade", fade_in, fade_out, total) {
        Some(chain) => {
            push_arg(&mut args, "-af");
            push_owned(&mut args, chain);
        },
        None => {},
    }
    push_encode_tail(&mut args, output);
    assert(args.deep_view() =~= fade_args(
        input@,
        output@,
        micros_of(fade_in),
        micros_of(fade_out),
        total.micros as int,
    ));
    args
}

/// The arguments that join the clips of the concat list at `list_path` as
/// one stream of segments.
pub fn concat_demuxer(list_path: &str, output: &str, resolution: Resolution) -> (args: Vec<String>)
    ensures
        args.deep_view() == demuxer_args(list_path@, output@, resolution),
{
    let mut args: Vec<String> = Vec::new();
    push_arg(&mut args, "-f");
    push_arg(&mut args, "concat");
    push_arg(&mut args, "-safe");
    push_arg(&mut args, "0");
    push_arg(&mut args, "-i");
    push_arg(&mut args, list_path);
    resolution.push_scale_args(&mut args);
    push_encode_tail(&mut args, output);
    assert(args.deep_view() =~= demuxer_args(list_path@, output@, resolution));
    args
}

/// Appends the options that pick the streams `[v]` and `[a]`.
fn push_map_args(args: &mut Vec<String>)
    ensures
        final(args).deep_view() == old(args).deep_view() + map_args(),
{
    push_arg(args, "-map");
    push_arg(args, "[v]");
    push_arg(args, "-map");
    push_arg(args, "[a]");
    assert(args.deep_view() =~= old(args).deep_view() + map_args());
}

/// The filter graph that joins `n` inputs end to end.
fn concat_graph_text(n: usize) -> (graph: String)
    ensures
        graph@ == concat_graph(n as nat),
{
    let mut graph = String::new();
    let mut i: usize = 0;
    while i < n
        invariant
            i <= n,
            graph@ == stream_pairs(i as nat),
        decreases n - i,
    {
        let ghost before = graph@;
        graph.append("[");
        push_decimal(&mut graph, i as u64);
        graph.append(":v][");
        push_decimal(&mut graph, i as u64);
        graph.append(":a]");
        assert(graph@ =~= before + stream_pair(i as nat));
        i = i + 1;
    }
    graph.append("concat=n=");
    push_decimal(&mut graph, n as u64);
    graph.append(":v=1:a=1[v][a]");
    assert(graph@ =~= concat_graph(n as nat));
    graph
}

/// The failure reported where a concat list names no clip.
pub open spec fn no_inputs_listed() -> crate::error::ErrorView {
    plain_failure(ErrorKind::Validation, "No valid input files found in concat list"@)
}

/// The arguments that join `paths` by a filter graph.
pub fn filter_concat(paths: &Vec<String>, output: &str, resolution: Resolution) -> (args: Vec<
    String,
>)
    ensures
        args.deep_view() == filter_concat_args(paths.deep_view(), output@, resolution),
{
    let ghost all = paths.deep_view();
    let mut args: Vec<String> = Vec::new();
    let mut i: usize = 0;
    assert(args.deep_view() =~= input_args(all.take(0)));
    while i < paths.len()
        invariant
            i <= paths.len(),
            all == paths.deep_view(),
            args.deep_view() == input_args(all.take(i as int)),
        decreases paths.len() - i,
    {
        proof {
            assert(all.take(i + 1).drop_last() =~= all.take(i as int));
            assert(all.take(i + 1).last() == paths@[i as int]@);
        }
        let ghost before = args.deep_view();
        push_arg(&mut args, "-i");
        push_arg(&mut args, paths[i].as_str());
        assert(args.deep_view() =~= before + seq!["-i"@, paths@[i as int]@]);
        i = i + 1;
    }
    assert(all.take(paths.len() as int) =~= all);
    push_arg(&mut args, "-filter_complex");
    push_owned(&mut args, concat_graph_text(paths.len()));
    resolution.push_scale_args(&mut args);
    push_map_args(&mut args);
    push_encode_tail(&mut args, output);
    assert(args.deep_view() =~= filter_concat_args(all, output@, resolution));
    args
}

/// The arguments that join the clips `paths` of a concat list by a filter
/// graph. A validation error where the list names no clip.
pub fn concat_filter(paths: &Vec<String>, output: &str, resolution: Resolution) -> (r: Result<
    Vec<String>,
    ExportError,
>)
    ensures
        r is Err <==> paths.len() == 0,
        r matches Err(e) ==> e@ == no_inputs_listed(),
        r matches Ok(args) ==> args.deep_view() == filter_concat_args(
            paths.deep_view(),
            output@,
            resolution,
        ),
{
    if paths.len() == 0 {
        return Err(
            ExportError::plain(ErrorKind::Validation, "No valid input files found in concat list"),
        );
    }
    Ok(filter_concat(paths, output, resolution))
}

/// Where the crossfade of `duration` starts in a left clip that is `left` long.
pub fn offset_of_crossfade(left: Seconds, duration: Seconds) -> (offset: Seconds)
    requires
        duration.micros > 0,
    ensures
        offset.micros == crossfade_offset(left.micros as int, duration.micros as int),
        offset.micros >= 0,
{
    if left.micros > duration.micros {
        Seconds { micros: left.micros - duration.micros }
    } else {
        Seconds { micros: 0 }
    }
}

/// The arguments that merge `left` and `right` into `target` with one
/// crossfade of `duration` that starts at `offset` in `left`.
pub fn crossfade(
    left: &str,
    right: &str,
    duration: Seconds,
    offset: Seconds,
    target: &str,
) -> (args: Vec<String>)
    ensures
        args.deep_view() == crossfade_args(
            left@,
            right@,
            duration.micros as int,
            offset.micros as int,
            target@,
        ),
{
    let mut graph = String::from_str("[0:v][1:v]xfade=transition=fade:duration=");
    graph.append(duration.to_text().as_str());
    graph.append(":offset=");
    graph.append(offset.to_text().as_str());
    graph.append("[v];[0:a][1:a]acrossfade=d=");
    graph.append(duration.to_text().as_str());
    graph.append("[a]");
    let mut args: Vec<String> = Vec::new();
    push_arg(&mut args, "-i");
    push_arg(&mut args, left);
    push_arg(&mut args, "-i");
    push_arg(&mut args, right);
    push_arg(&mut args, "-filter_complex");
    push_owned(&mut args, graph);
    push_map_args(&mut args);
    push_encode_tail(&mut args, target);
    assert(args.deep_view() =~= crossfade_args(
        left@,
        right@,
        duration.micros as int,
        offset.micros as int,
        target@,
    ));
    args
}

} // verus!
