//! One line of a pod's log, and how it is read from the raw text.

use crate::utils::text::{string_of_range, to_chars};
use vstd::prelude::*;

verus! {

/// Log entry with metadata
#[derive(Debug, Clone)]
pub struct LogEntry {
    /// Pod name
    pub pod_name: String,
    /// Raw log line
    pub raw_line: String,
    /// Log message (without timestamp)
    pub message: String,
}

/// Whether a character of the raw text is kept: carriage returns and NUL
/// characters are dropped.
pub open spec fn is_kept(c: char) -> bool {
    c != '\r' && c != '\0'
}

/// The raw text without carriage returns and NUL characters.
pub open spec fn cleaned(raw: Seq<char>) -> Seq<char> {
    raw.filter(|c: char| is_kept(c))
}

/// Whether the line holds a space.
pub open spec fn has_space(line: Seq<char>) -> bool {
    exists|k: int| 0 <= k < line.len() && line[k] == ' '
}

/// Whether `k` is the index of the first space of the line.
pub open spec fn is_first_space(line: Seq<char>, k: int) -> bool {
    &&& 0 <= k < line.len()
    &&& line[k] == ' '
    &&& forall|j: int| 0 <= j < k ==> line[j] != ' '
}

/// The message of a line: what follows its first space, the token before
/// it being taken for the timestamp; the whole line where it has no space.
pub open spec fn message_of(line: Seq<char>) -> Seq<char> {
    if has_space(line) {
        let k = choose|k: int| is_first_space(line, k);
        line.subrange(k + 1, line.len() as int)
    } else {
        line
    }
}

/// Two first spaces of one line are the same index.
pub proof fn lemma_first_space_unique(line: Seq<char>, a: int, b: int)
    requires
        is_first_space(line, a),
        is_first_space(line, b),
    ensures
        a == b,
{
}

/// A line whose first space is at `k` has as its message what follows `k`.
pub proof fn lemma_message_after_first_space(line: Seq<char>, k: int)
    requires
        is_first_space(line, k),
    ensures
        message_of(line) == line.subrange(k + 1, line.len() as int),
{
    let c = choose|c: int| is_first_space(line, c);
    lemma_first_space_unique(line, c, k);
}

/// A line without a space is its own message.
pub proof fn lemma_message_without_space(line: Seq<char>)
    requires
        forall|k: int| 0 <= k < line.len() ==> line[k] != ' ',
    ensures
        message_of(line) == line,
{
}

/// The index of the first space of `line`, if it has one.
fn find_space(line: &Vec<char>) -> (r: Option<usize>)
    ensures
        match r {
            Some(k) => is_first_space(line@, k as int),
            None => !has_space(line@),
        },
{
    let mut i: usize = 0;
    while i < line.len()
        invariant
            i <= line@.len(),
            forall|j: int| 0 <= j < i ==> line@[j] != ' ',
        decreases line@.len() - i,
    {
        if line[i] == ' ' {
            return Some(i);
        }
        i += 1;
    }
    None
}

impl LogEntry {
    /// Parse a raw log line into a LogEntry
    pub fn parse(pod_name: String, raw_line: String) -> (entry: Self)
        ensures
            entry.pod_name@ == pod_name@,
            entry.raw_line@ == cleaned(raw_line@),
            entry.message@ == message_of(entry.raw_line@),
    {
        let raw = to_chars(raw_line.as_str());
        let mut clean: Vec<char> = Vec::new();
        let mut i: usize = 0;
        while i < raw.len()
            invariant
                i <= raw@.len(),
                clean@ == cleaned(raw@.take(i as int)),
            decreases raw@.len() - i,
        {
            proof {
                reveal(Seq::filter);
                assert(raw@.take(i + 1).drop_last() == raw@.take(i as int));
            }
            let c = raw[i];
            if c != '\r' && c != '\0' {
                clean.push(c);
            }
            i += 1;
        }
        proof {
            reveal(Seq::filter);
            assert(raw@.take(raw@.len() as int) == raw@);
        }
        let line = string_of_range(&clean, 0, clean.len());
        assert(clean@.subrange(0, clean@.len() as int) == clean@);
        let message = match find_space(&clean) {
            Some(k) => {
                proof {
                    lemma_message_after_first_space(clean@, k as int);
                }
                string_of_range(&clean, k + 1, clean.len())
            },
            None => string_of_range(&clean, 0, clean.len()),
        };
        LogEntry { pod_name, raw_line: line, message }
    }
}

} // verus!
