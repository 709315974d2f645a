//! Event-record parsing.
//!
//! The event channel pushes newline-delimited text records of the form
//! `<event-name>>><payload>`.  A chunk read from the channel is split into
//! lines; each line's prefix up to the first occurrence of the two-byte
//! delimiter `>>` names the event.  A line without the delimiter is ignored.

use vstd::prelude::*;
use vstd::slice::slice_index_get;
use vstd::slice::slice_subrange;
use vstd::string::StringSliceAdditionalSpecFns;

verus! {

/// The two-byte record delimiter `>>` stands at position `i` of `s`.
pub open spec fn delim_at(s: Seq<u8>, i: int) -> bool {
    &&& 0 <= i
    &&& i + 2 <= s.len()
    &&& s[i] == '>' as u8
    &&& s[i + 1] == '>' as u8
}

/// The position of the first delimiter at or after `i`, or `s.len()` if there
/// is none.
pub open spec fn first_delim_from(s: Seq<u8>, i: int) -> int
    recommends
        0 <= i,
    decreases s.len() - i,
{
    if i + 2 > s.len() {
        s.len() as int
    } else if delim_at(s, i) {
        i
    } else {
        first_delim_from(s, i + 1)
    }
}

/// The name of an event record: the bytes before the first `>>`, or nothing
/// when the line holds no delimiter.
pub open spec fn line_prefix(line: Seq<u8>) -> Option<Seq<u8>> {
    let d = first_delim_from(line, 0);
    if 0 <= d < line.len() {
        Some(line.subrange(0, d))
    } else {
        None
    }
}

/// The position of the first newline at or after `i`, or `s.len()` if there
/// is none.
pub open spec fn first_nl_from(s: Seq<u8>, i: int) -> int
    recommends
        0 <= i,
    decreases s.len() - i,
{
    if i < 0 || i >= s.len() {
        s.len() as int
    } else if s[i] == '\n' as u8 {
        i
    } else {
        first_nl_from(s, i + 1)
    }
}

/// A chunk split at every newline.  A trailing newline yields a final empty
/// line, which holds no delimiter and so is ignored by the matching below.
pub open spec fn split_lines(s: Seq<u8>) -> Seq<Seq<u8>>
    decreases s.len(),
{
    let n = first_nl_from(s, 0);
    if 0 <= n < s.len() {
        seq![s.subrange(0, n)] + split_lines(s.subrange(n + 1, s.len() as int))
    } else {
        seq![s]
    }
}

/// The byte strings of a command list.
pub open spec fn cmd_views(cmds: Seq<&str>) -> Seq<Seq<u8>> {
    cmds.map_values(|c: &str| c.spec_bytes())
}

/// The line names an event in `cmds`: it has a delimiter and its prefix is a
/// member of the list.
pub open spec fn line_triggers(line: Seq<u8>, cmds: Seq<Seq<u8>>) -> bool {
    match line_prefix(line) {
        Some(p) => cmds.contains(p),
        None => false,
    }
}

/// How many of the lines name an event in `cmds`.
pub open spec fn count_trigger_lines(lines: Seq<Seq<u8>>, cmds: Seq<Seq<u8>>) -> nat
    decreases lines.len(),
{
    if lines.len() == 0 {
        0
    } else {
        (if line_triggers(lines[0], cmds) {
            1nat
        } else {
            0nat
        }) + count_trigger_lines(lines.drop_first(), cmds)
    }
}

/// How many records of the chunk name an event in `cmds`.
pub open spec fn trigger_count(chunk: Seq<u8>, cmds: Seq<Seq<u8>>) -> nat {
    count_trigger_lines(split_lines(chunk), cmds)
}

/// Some record of the chunk names an event in `cmds`.
pub open spec fn spec_match_cmds(chunk: Seq<u8>, cmds: Seq<Seq<u8>>) -> bool {
    trigger_count(chunk, cmds) > 0
}

/// The position of the first newline in `chunk`, or its length.
fn find_nl(chunk: &[u8]) -> (n: usize)
    ensures
        n == first_nl_from(chunk@, 0),
        n <= chunk@.len(),
{
    let len = chunk.len();
    let mut j: usize = 0;
    while j < len
        invariant
            len == chunk@.len(),
            0 <= j <= len,
            first_nl_from(chunk@, 0) == first_nl_from(chunk@, j as int),
        decreases len - j,
    {
        if *slice_index_get(chunk, j) == '\n' as u8 {
            return j;
        }
        j = j + 1;
    }
    len
}

/// Byte-string equality.
fn bytes_eq(a: &[u8], b: &[u8]) -> (r: bool)
    ensures
        r == (a@ == b@),
{
    if a.len() != b.len() {
        return false;
    }
    let len = a.len();
    let mut j: usize = 0;
    while j < len
        invariant
            len == a@.len(),
            len == b@.len(),
            0 <= j <= len,
            forall|k: int| 0 <= k < j ==> a@[k] == b@[k],
        decreases len - j,
    {
        if *slice_index_get(a, j) != *slice_index_get(b, j) {
            return false;
        }
        j = j + 1;
    }
    proof {
        assert(a@ =~= b@);
    }
    true
}

/// The record name of `line`: the bytes before the first `>>`, or `None`
/// when the line holds no delimiter.
pub fn extract_prefix<'a>(line: &'a [u8]) -> (r: Option<&'a [u8]>)
    ensures
        match r {
            Some(p) => line_prefix(line@) == Some(p@),
            None => line_prefix(line@) is None,
        },
{
    if line.len() < 2 {
        return None;
    }
    let len = line.len();
    let last = len - 2;
    let mut j: usize = 0;
    while j <= last
        invariant
            len == line@.len(),
            len >= 2,
            last == len - 2,
            0 <= j <= last + 1,
            first_delim_from(line@, 0) == first_delim_from(line@, j as int),
        decreases last + 1 - j,
    {
        if *slice_index_get(line, j) == '>' as u8 && *slice_index_get(line, j + 1) == '>' as u8 {
            return Some(slice_subrange(line, 0, j));
        }
        j = j + 1;
    }
    None
}

/// The prefix is one of the command names.
fn is_cmd(cmds: &[&str], p: &[u8]) -> (r: bool)
    ensures
        r == cmd_views(cmds@).contains(p@),
{
    let len = cmds.len();
    let mut j: usize = 0;
    while j < len
        invariant
            len == cmds@.len(),
            0 <= j <= len,
            forall|k: int| 0 <= k < j ==> cmd_views(cmds@)[k] != p@,
        decreases len - j,
    {
        let c: &str = *slice_index_get(cmds, j);
        if bytes_eq(c.as_bytes(), p) {
            proof {
                assert(cmd_views(cmds@)[j as int] == p@);
            }
            return true;
        }
        j = j + 1;
    }
    proof {
        assert(!cmd_views(cmds@).contains(p@)) by {
            if cmd_views(cmds@).contains(p@) {
                let k = choose|k: int|
                    0 <= k < cmd_views(cmds@).len() && cmd_views(cmds@)[k] == p@;
                assert(cmd_views(cmds@)[k] != p@);
            }
        }
    }
    false
}

/// The line names an event in `cmds`.
fn is_trigger_line(line: &[u8], cmds: &[&str]) -> (r: bool)
    ensures
        r == line_triggers(line@, cmd_views(cmds@)),
{
    match extract_prefix(line) {
        Some(p) => is_cmd(cmds, p),
        None => false,
    }
}

/// Some record of the chunk names a command in `cmds`.
///
/// This is the relevance test of the watch loop: a chunk for which it holds
/// makes the watcher re-issue its control query.
pub fn match_cmds(buffer: &[u8], cmds: &[&str]) -> (r: bool)
    ensures
        r == spec_match_cmds(buffer@, cmd_views(cmds@)),
    decreases buffer.len(),
{
    let nl = find_nl(buffer);
    let line = slice_subrange(buffer, 0, nl);
    let hit = is_trigger_line(line, cmds);
    if nl == buffer.len() {
        proof {
            assert(line@ =~= buffer@);
            lemma_count_single(buffer@, cmd_views(cmds@));
        }
        hit
    } else {
        let rest = slice_subrange(buffer, nl + 1, buffer.len());
        proof {
            lemma_count_cons(buffer@, cmd_views(cmds@));
        }
        if hit {
            true
        } else {
            match_cmds(rest, cmds)
        }
    }
}

/// How many records of the chunk name a command in `cmds`, in line order.
///
/// Each such record stands for one re-query: a chunk holding two trigger
/// records yields two, fired back to back by the caller.
pub fn count_triggers(chunk: &[u8], cmds: &[&str]) -> (n: usize)
    ensures
        n as nat == trigger_count(chunk@, cmd_views(cmds@)),
        n <= chunk@.len(),
    decreases chunk.len(),
{
    let nl = find_nl(chunk);
    let line = slice_subrange(chunk, 0, nl);
    let hit = is_trigger_line(line, cmds);
    proof {
        if line_triggers(line@, cmd_views(cmds@)) {
            lemma_trigger_line_len(line@, cmd_views(cmds@));
        }
    }
    if nl == chunk.len() {
        proof {
            assert(line@ =~= chunk@);
            lemma_count_single(chunk@, cmd_views(cmds@));
        }
        if hit {
            1
        } else {
            0
        }
    } else {
        let rest = slice_subrange(chunk, nl + 1, chunk.len());
        let m = count_triggers(rest, cmds);
        proof {
            lemma_count_cons(chunk@, cmd_views(cmds@));
        }
        if hit {
            1 + m
        } else {
            m
        }
    }
}

/// A chunk without a newline is a single line, and its count is that line's.
proof fn lemma_count_single(chunk: Seq<u8>, cmds: Seq<Seq<u8>>)
    requires
        first_nl_from(chunk, 0) == chunk.len(),
    ensures
        split_lines(chunk) == seq![chunk],
        trigger_count(chunk, cmds) == if line_triggers(chunk, cmds) {
            1nat
        } else {
            0nat
        },
{
    assert(split_lines(chunk) == seq![chunk]);
    let lines = seq![chunk];
    assert(lines.drop_first() =~= Seq::<Seq<u8>>::empty());
    assert(count_trigger_lines(lines.drop_first(), cmds) == 0);
    assert(count_trigger_lines(lines, cmds) == (if line_triggers(chunk, cmds) {
        1nat
    } else {
        0nat
    }));
}

/// A chunk with a newline splits into its first line and the remainder, and
/// its count is the sum of theirs.
proof fn lemma_count_cons(chunk: Seq<u8>, cmds: Seq<Seq<u8>>)
    requires
        0 <= first_nl_from(chunk, 0) < chunk.len(),
    ensures
        ({
            let n = first_nl_from(chunk, 0);
            let line = chunk.subrange(0, n);
            let rest = chunk.subrange(n + 1, chunk.len() as int);
            &&& split_lines(chunk) == seq![line] + split_lines(rest)
            &&& trigger_count(chunk, cmds) == (if line_triggers(line, cmds) {
                1nat
            } else {
                0nat
            }) + trigger_count(rest, cmds)
        }),
{
    let n = first_nl_from(chunk, 0);
    let line = chunk.subrange(0, n);
    let rest = chunk.subrange(n + 1, chunk.len() as int);
    let lines = seq![line] + split_lines(rest);
    assert(split_lines(chunk) == lines);
    assert(lines.len() > 0);
    assert(lines[0] == line);
    assert(lines.drop_first() =~= split_lines(rest));
    assert(count_trigger_lines(lines, cmds) == (if line_triggers(line, cmds) {
        1nat
    } else {
        0nat
    }) + count_trigger_lines(split_lines(rest), cmds));
}

/// Wherever the first delimiter search lands short of the end, a delimiter
/// stands there, none stands earlier, and none stands earlier than any other
/// delimiter at or after the start.
proof fn lemma_first_delim_from_props(s: Seq<u8>, i: int)
    requires
        0 <= i <= s.len(),
    ensures
        i <= first_delim_from(s, i),
        first_delim_from(s, i) <= s.len(),
        first_delim_from(s, i) < s.len() ==> delim_at(s, first_delim_from(s, i)),
        forall|j: int| i <= j < first_delim_from(s, i) ==> !delim_at(s, j),
        forall|j: int| i <= j && delim_at(s, j) ==> first_delim_from(s, i) <= j,
    decreases s.len() - i,
{
    if i + 2 > s.len() {
    } else if delim_at(s, i) {
    } else {
        lemma_first_delim_from_props(s, i + 1);
    }
}

/// A line that names an event holds a delimiter, so it is at least two bytes
/// long.
proof fn lemma_trigger_line_len(line: Seq<u8>, cmds: Seq<Seq<u8>>)
    requires
        line_triggers(line, cmds),
    ensures
        line.len() >= 2,
{
    lemma_first_delim_from_props(line, 0);
}

/// The name of a record is the line truncated at the first delimiter, even
/// when the payload holds the delimiter again.
pub proof fn lemma_prefix_truncates_at_first_delim(line: Seq<u8>)
    requires
        exists|i: int| delim_at(line, i),
    ensures
        ({
            let d = first_delim_from(line, 0);
            &&& 0 <= d < line.len()
            &&& delim_at(line, d)
            &&& forall|j: int| 0 <= j < d ==> !delim_at(line, j)
            &&& line_prefix(line) == Some(line.subrange(0, d))
        }),
{
    lemma_first_delim_from_props(line, 0);
    let i = choose|i: int| delim_at(line, i);
    assert(first_delim_from(line, 0) <= i);
}

/// A line without the delimiter has no record name and never fires a trigger,
/// whatever the command list.
pub proof fn lemma_no_delim_no_trigger(line: Seq<u8>, cmds: Seq<Seq<u8>>)
    requires
        forall|i: int| !delim_at(line, i),
    ensures
        line_prefix(line) is None,
        !line_triggers(line, cmds),
{
    lemma_first_delim_from_props(line, 0);
}

} // verus!
