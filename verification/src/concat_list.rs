//! The concat list: a text file with one entry per line, each of the form
//! `file '<path>'`. The order of the entries is the order of the clips. A path
//! is taken as it stands between the quotes; nothing in it is escaped.

use crate::text::{
    chars_of, first_index, join_texts, joined, lemma_first_index, lemma_first_index_at,
    push_owned,
};
use vstd::prelude::*;
use vstd::string::*;

verus! {

/// The entry that names `path`.
pub open spec fn entry_line(path: Seq<char>) -> Seq<char> {
    "file '"@ + path + "'"@
}

/// The path that `line` names, where `line` is an entry: it begins with
/// `file '`, and ends with a quote that is not the one it begins with.
pub open spec fn entry_path(line: Seq<char>) -> Option<Seq<char>> {
    if line.len() >= 7 && line.take(6) == "file '"@ && line.last() == '\'' {
        Some(line.subrange(6, line.len() - 1))
    } else {
        None
    }
}

/// `line` without the carriage return at its end, where it has one.
pub open spec fn without_return(line: Seq<char>) -> Seq<char> {
    if line.len() > 0 && line.last() == '\r' {
        line.drop_last()
    } else {
        line
    }
}

/// The lines of `text`. A line ends at a line feed, or at a carriage return
/// followed by one, and holds neither; what follows the last line feed is a
/// line too, as it stands, unless it is empty.
pub open spec fn lines(text: Seq<char>) -> Seq<Seq<char>>
    decreases text.len(),
{
    let k = first_index(text, '\n');
    if text.len() == 0 {
        Seq::<Seq<char>>::empty()
    } else if 0 <= k < text.len() {
        seq![without_return(text.take(k))] + lines(text.skip(k + 1))
    } else {
        seq![text]
    }
}

/// The paths that the entries among `lines` name, in their order.
pub open spec fn entry_paths(lines: Seq<Seq<char>>) -> Seq<Seq<char>>
    decreases lines.len(),
{
    if lines.len() == 0 {
        Seq::<Seq<char>>::empty()
    } else {
        let rest = entry_paths(lines.drop_first());
        match entry_path(lines[0]) {
            Some(path) => seq![path] + rest,
            None => rest,
        }
    }
}

/// The paths that a concat list names, in their order. Lines that are no
/// entries are passed over.
pub open spec fn listed_paths(text: Seq<char>) -> Seq<Seq<char>> {
    entry_paths(lines(text))
}

/// The concat list that names `paths`: one entry each, every line ended by a
/// line feed.
pub open spec fn list_of(paths: Seq<Seq<char>>) -> Seq<char>
    decreases paths.len(),
{
    if paths.len() == 0 {
        Seq::<char>::empty()
    } else {
        list_of(paths.drop_last()) + entry_line(paths.last()) + "\n"@
    }
}

/// `text` holds no line feed.
pub open spec fn one_line(text: Seq<char>) -> bool {
    forall|i: int| 0 <= i < text.len() ==> #[trigger] text[i] != '\n'
}

/// The entry that names a path reads back as that path.
pub proof fn law_entry_reads_back(path: Seq<char>)
    ensures
        entry_path(entry_line(path)) == Some(path),
{
    reveal_strlit("file '");
    reveal_strlit("'");
    let line = entry_line(path);
    assert(line.take(6) =~= "file '"@);
    assert(line.subrange(6, line.len() - 1) =~= path);
}

proof fn lemma_lines_append(head: Seq<char>, tail: Seq<char>)
    requires
        head.len() == 0 || head.last() == '\n',
    ensures
        lines(head + tail) == lines(head) + lines(tail),
    decreases head.len(),
{
    if head.len() == 0 {
        assert(head + tail =~= tail);
        assert(lines(head) + lines(tail) =~= lines(tail));
    } else {
        let k = first_index(head, '\n');
        let all = head + tail;
        lemma_first_index(head, '\n');
        assert forall|j: int| 0 <= j < k implies all[j] != '\n' by {
            assert(all[j] == head[j]);
        }
        assert(all[k] == head[k]);
        lemma_first_index_at(all, '\n', k);
        assert(all.take(k) =~= head.take(k));
        assert(all.skip(k + 1) =~= head.skip(k + 1) + tail);
        let rest = head.skip(k + 1);
        if rest.len() > 0 {
            assert(rest.last() == head.last());
        }
        lemma_lines_append(rest, tail);
        assert(lines(all) =~= lines(head) + lines(tail));
    }
}

proof fn lemma_entry_paths_append(head: Seq<Seq<char>>, tail: Seq<Seq<char>>)
    ensures
        entry_paths(head + tail) == entry_paths(head) + entry_paths(tail),
    decreases head.len(),
{
    if head.len() == 0 {
        assert(head + tail =~= tail);
        assert(entry_paths(head) + entry_paths(tail) =~= entry_paths(tail));
    } else {
        assert((head + tail).drop_first() =~= head.drop_first() + tail);
        lemma_entry_paths_append(head.drop_first(), tail);
        assert(entry_paths(head + tail) =~= entry_paths(head) + entry_paths(tail));
    }
}

/// A written list reads back as the paths it was written from, where no path
/// holds a line feed.
pub proof fn law_list_reads_back(paths: Seq<Seq<char>>)
    requires
        forall|i: int| 0 <= i < paths.len() ==> one_line(#[trigger] paths[i]),
    ensures
        listed_paths(list_of(paths)) == paths,
        list_of(paths).len() == 0 || list_of(paths).last() == '\n',
    decreases paths.len(),
{
    reveal_strlit("file '");
    reveal_strlit("'");
    reveal_strlit("\n");
    if paths.len() == 0 {
        assert(lines(list_of(paths)) =~= Seq::<Seq<char>>::empty());
        assert(listed_paths(list_of(paths)) =~= paths);
    } else {
        let front = paths.drop_last();
        let path = paths.last();
        let head = list_of(front);
        let line = entry_line(path);
        let tail = line + "\n"@;
        let none = Seq::<char>::empty();
        law_list_reads_back(front);
        law_entry_reads_back(path);
        assert(one_line(path));
        assert forall|j: int| 0 <= j < line.len() implies tail[j] != '\n' by {
            if j >= 6 && j < line.len() - 1 {
                assert(tail[j] == path[j - 6]);
            }
        }
        lemma_first_index_at(tail, '\n', line.len() as int);
        assert(tail.take(line.len() as int) =~= line);
        assert(tail.skip(line.len() as int + 1) =~= none);
        assert(lines(none) =~= Seq::<Seq<char>>::empty());
        assert(lines(tail) =~= seq![line]);
        let single = seq![line];
        assert(single[0] == line);
        assert(single.drop_first() =~= Seq::<Seq<char>>::empty());
        assert(entry_paths(single.drop_first()) =~= Seq::<Seq<char>>::empty());
        assert(entry_paths(single) =~= seq![path]);
        assert(list_of(paths) =~= head + tail);
        lemma_lines_append(head, tail);
        lemma_entry_paths_append(lines(head), lines(tail));
        assert(listed_paths(list_of(paths)) =~= front + seq![path]);
        assert(front + seq![path] =~= paths);
    }
}

/// Whether the characters from `start` up to `stop` are an entry.
fn is_entry(chars: &Vec<char>, start: usize, stop: usize) -> (r: bool)
    requires
        start <= stop <= chars.len(),
    ensures
        r == entry_path(chars@.subrange(start as int, stop as int)) is Some,
{
    let ghost line = chars@.subrange(start as int, stop as int);
    proof {
        reveal_strlit("file '");
    }
    if stop - start < 7 {
        return false;
    }
    let r = chars[start] == 'f' && chars[start + 1] == 'i' && chars[start + 2] == 'l' && chars[start
        + 3] == 'e' && chars[start + 4] == ' ' && chars[start + 5] == '\'' && chars[stop - 1]
        == '\'';
    proof {
        let head = line.take(6);
        assert(head[0] == chars@[start as int]);
        assert(head[1] == chars@[start + 1]);
        assert(head[2] == chars@[start + 2]);
        assert(head[3] == chars@[start + 3]);
        assert(head[4] == chars@[start + 4]);
        assert(head[5] == chars@[start + 5]);
        assert(line.last() == chars@[stop - 1]);
        if r {
            assert(head =~= "file '"@);
        }
    }
    r
}

/// The paths that the concat list `text` names, in their order.
pub fn parse_concat_list(text: &str) -> (paths: Vec<String>)
    ensures
        paths.deep_view() == listed_paths(text@),
{
    let chars = chars_of(text);
    let n = chars.len();
    let mut paths: Vec<String> = Vec::new();
    let mut start: usize = 0;
    proof {
        assert(text@.skip(0) =~= text@);
        assert(paths.deep_view() =~= Seq::<Seq<char>>::empty());
    }
    while start < n
        invariant
            start <= n,
            n == chars.len(),
            chars@ == text@,
            listed_paths(text@) == paths.deep_view() + listed_paths(text@.skip(start as int)),
        decreases n - start,
    {
        let ghost rest = text@.skip(start as int);
        let ghost found = paths.deep_view();
        let mut end: usize = start;
        while end < n && chars[end] != '\n'
            invariant
                start <= end <= n,
                n == chars.len(),
                forall|j: int| start <= j < end ==> chars@[j] != '\n',
            decreases n - end,
        {
            end = end + 1;
        }
        let terminated = end < n;
        let stop: usize = if terminated && end > start && chars[end - 1] == '\r' {
            end - 1
        } else {
            end
        };
        proof {
            assert forall|j: int| 0 <= j < end - start implies rest[j] != '\n' by {
                assert(rest[j] == chars@[start + j]);
            }
            lemma_first_index_at(rest, '\n', end - start);
        }
        let ghost line = chars@.subrange(start as int, stop as int);
        let entry = is_entry(&chars, start, stop);
        if entry {
            let path = String::from_str(text.substring_char(start + 6, stop - 1));
            assert(path@ =~= line.subrange(6, line.len() - 1));
            push_owned(&mut paths, path);
        }
        proof {
            let here = match entry_path(line) {
                Some(path) => seq![path],
                None => Seq::<Seq<char>>::empty(),
            };
            assert(paths.deep_view() =~= found + here);
            if terminated {
                assert(rest.take(end - start) =~= chars@.subrange(start as int, end as int));
                assert(without_return(rest.take(end - start)) =~= line);
                assert(rest.skip(end - start + 1) =~= text@.skip(end + 1));
                let ls = lines(rest);
                assert(ls == seq![line] + lines(text@.skip(end + 1)));
                assert(ls.drop_first() =~= lines(text@.skip(end + 1)));
                assert(entry_paths(ls) =~= here + listed_paths(text@.skip(end + 1)));
            } else {
                assert(line =~= rest);
                let ls = lines(rest);
                assert(ls == seq![rest]);
                assert(ls.drop_first() =~= Seq::<Seq<char>>::empty());
                assert(entry_paths(ls.drop_first()) =~= Seq::<Seq<char>>::empty());
                assert(text@.skip(n as int).len() == 0);
                assert(listed_paths(text@.skip(n as int)) =~= Seq::<Seq<char>>::empty());
                assert(entry_paths(ls) =~= here);
            }
        }
        start = if terminated {
            end + 1
        } else {
            n
        };
        assert(listed_paths(text@) =~= paths.deep_view() + listed_paths(text@.skip(start as int)));
    }
    proof {
        assert(text@.skip(n as int).len() == 0);
        assert(listed_paths(text@.skip(n as int)) =~= Seq::<Seq<char>>::empty());
        assert(paths.deep_view() + Seq::<Seq<char>>::empty() =~= paths.deep_view());
    }
    paths
}

/// The entry that names `path`.
pub fn entry(path: &str) -> (line: String)
    ensures
        line@ == entry_line(path@),
{
    let mut line = String::from_str("file '");
    line.append(path);
    line.append("'");
    line
}

/// The concat list that names `paths`.
pub fn list_text(paths: &Vec<String>) -> (text: String)
    ensures
        text@ == list_of(paths.deep_view()),
{
    let mut text = String::new();
    let ghost all = paths.deep_view();
    let mut i: usize = 0;
    while i < paths.len()
        invariant
            i <= paths.len(),
            all == paths.deep_view(),
            text@ == list_of(all.take(i as int)),
        decreases paths.len() - i,
    {
        proof {
            assert(all.take(i + 1).drop_last() =~= all.take(i as int));
            assert(all.take(i + 1).last() == paths@[i as int]@);
        }
        text.append(entry(paths[i].as_str()).as_str());
        text.append("\n");
        assert(text@ =~= list_of(all.take(i + 1)));
        i = i + 1;
    }
    assert(all.take(paths.len() as int) =~= all);
    text
}

/// The text of a file whose lines are `lines`, with a line feed between each two.
pub fn join_lines(lines: &Vec<String>) -> (text: String)
    ensures
        text@ == joined(lines.deep_view(), "\n"@),
{
    join_texts(lines, "\n")
}

} // verus!
