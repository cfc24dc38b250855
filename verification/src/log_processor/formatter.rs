//! How a log entry is laid out for display: its prefix, its colour, and
//! the parts of its message that are set off.

use crate::kubernetes::log::LogEntry;
use crate::kubernetes::pod::{can_shorten, has_short_form, short_form, shorten};
use crate::log_processor::filter::{grep_spans, GrepFilter};
use crate::log_processor::highlight::{
    all_ordered, cut_segments, has_end, is_merge_of, lemma_segments_tile, merge_spans,
    segments_of, tiles, Segment,
};
use crate::utils::color::{nth_color, Color, ColorGenerator, PALETTE_LEN};
use crate::utils::text::{replace_all, replaced, str_eq, string_of, to_chars};
use vstd::prelude::*;
use vstd::string::StringExecFns;
use vstd::utf8::encode_utf8;

verus! {

/// Prefix format for log entries
pub struct PrefixFormat {
    /// Format string
    format: String,
}

impl View for PrefixFormat {
    type V = Seq<char>;

    /// The format string.
    closed spec fn view(&self) -> Seq<char> {
        self.format@
    }
}

/// The prefix that the format string `format` gives for the pod `name`:
/// each `%n` stands for the name, then each `%s` for its short form.
/// Anything else stays as it is.
pub open spec fn prefix_text(format: Seq<char>, name: Seq<char>) -> Seq<char> {
    replaced(replaced(format, "%n"@, name), "%s"@, short_form(name))
}

impl PrefixFormat {
    /// Create a new prefix format
    pub fn new(format: &str) -> (p: Self)
        ensures
            p@ == format@,
    {
        Self { format: format.to_owned() }
    }

    /// Format a log entry prefix
    pub fn format(&self, entry: &LogEntry) -> (prefix: String)
        requires
            has_short_form(entry.pod_name@),
        ensures
            prefix@ == prefix_text(self@, entry.pod_name@),
    {
        let format = to_chars(self.format.as_str());
        let name = to_chars(entry.pod_name.as_str());
        let short = to_chars(shorten(entry.pod_name.as_str()));
        let name_mark = to_chars("%n");
        let short_mark = to_chars("%s");
        let with_name = replace_all(&format, &name_mark, &name);
        let with_both = replace_all(&with_name, &short_mark, &short);
        string_of(&with_both)
    }
}

/// Why an entry could not be laid out.
#[derive(Debug, Clone, Copy, PartialEq, Eq, Structural)]
pub enum FormatError {
    /// The name of the pod has no short form: its eighth byte is not the
    /// end of a character.
    NameNotCut,
}

/// The prefix of an entry of the pod `name`: what the format string gives
/// where there is one, else the name in square brackets.
pub open spec fn prefix_of(format: Option<Seq<char>>, name: Seq<char>) -> Seq<char> {
    match format {
        Some(f) => prefix_text(f, name),
        None => "["@ + name + "]"@,
    }
}

/// The line that is shown for an entry: its message, after its prefix and
/// a space unless prefixes are turned off.
pub open spec fn formatted_line(
    format: Option<Seq<char>>,
    no_prefix: bool,
    entry: &LogEntry,
) -> Seq<char> {
    if no_prefix {
        entry.message@
    } else {
        prefix_of(format, entry.pod_name@) + " "@ + entry.message@
    }
}

/// The matches of all `patterns` in `text`, the matches of the first
/// pattern first.
pub open spec fn gathered_spans(patterns: Seq<Seq<char>>, text: Seq<char>) -> Seq<(usize, usize)>
    decreases patterns.len(),
{
    if patterns.len() == 0 {
        Seq::empty()
    } else {
        gathered_spans(patterns.drop_last(), text) + grep_spans(patterns.last(), text)
    }
}

/// The place of the pod `name` among the pods that have a colour.
pub open spec fn place_of(assigned: Seq<(Seq<char>, Color)>, name: Seq<char>) -> Option<int> {
    if exists|i: int| 0 <= i < assigned.len() && (#[trigger] assigned[i]).0 == name {
        Some(choose|i: int| 0 <= i < assigned.len() && (#[trigger] assigned[i]).0 == name)
    } else {
        None
    }
}

/// Whether `color` is the colour of the pod `name`, where `before` are the
/// pods that had a colour and `after` those that have one now: the colour
/// that the pod had; or, for a pod that had none, the next of the palette,
/// with which the pod now stands at the end.
pub open spec fn is_color_of(
    color: Color,
    name: Seq<char>,
    before: Seq<(Seq<char>, Color)>,
    after: Seq<(Seq<char>, Color)>,
) -> bool {
    match place_of(before, name) {
        Some(i) => color == before[i].1 && after == before,
        None => color == nth_color(before.len()) && after == before.push((name, color)),
    }
}

/// How an entry is shown.
pub struct Layout {
    /// The colour of the pod.
    pub color: Color,
    /// The prefix, unless prefixes are turned off.
    pub prefix: Option<String>,
    /// The spans of the message that are set off, merged.
    pub spans: Vec<(usize, usize)>,
    /// The message, cut along the spans.
    pub segments: Vec<Segment>,
}

/// Log formatter for formatting log entries
pub struct LogFormatter {
    /// Prefix format - default prefix
    prefix_format: Option<String>,
    /// Whether to show prefix - always show prefix
    no_prefix: bool,
    /// Color generator
    color_generator: ColorGenerator,
    /// Pod colors
    pod_colors: Vec<(String, Color)>,
    /// Whether to highlight grep matches
    highlight: bool,
    /// Grep filters for highlighting
    grep_filters: Vec<GrepFilter>,
}

impl LogFormatter {
    /// The format string of the prefix, if one was given.
    pub closed spec fn prefix_format(&self) -> Option<Seq<char>> {
        match self.prefix_format {
            Some(f) => Some(f@),
            None => None,
        }
    }

    /// Whether prefixes are turned off.
    pub closed spec fn hides_prefix(&self) -> bool {
        self.no_prefix
    }

    /// Whether matches are set off.
    pub closed spec fn highlights(&self) -> bool {
        self.highlight
    }

    /// The patterns whose matches are set off, in the order in which they
    /// were added.
    pub closed spec fn patterns(&self) -> Seq<Seq<char>> {
        self.grep_filters@.map_values(|f: GrepFilter| f@)
    }

    /// The pods that have a colour, in the order in which they were first
    /// seen, each with its colour.
    pub closed spec fn assigned(&self) -> Seq<(Seq<char>, Color)> {
        self.pod_colors@.map_values(|p: (String, Color)| (p.0@, p.1))
    }

    /// The invariant of the formatter: no pod has two colours, and the
    /// pods got the colours of the palette in turn, in the order in which
    /// they were first seen.
    pub closed spec fn wf(&self) -> bool {
        &&& self.color_generator.position() == self.pod_colors@.len() % (PALETTE_LEN as nat)
        &&& forall|i: int|
            0 <= i < self.pod_colors@.len() ==> (#[trigger] self.pod_colors@[i]).1 == nth_color(
                i as nat,
            )
        &&& forall|i: int, j: int|
            0 <= i < j < self.pod_colors@.len() ==> (#[trigger] self.pod_colors@[i]).0@
                != (#[trigger] self.pod_colors@[j]).0@
    }

    /// Create a new log formatter, which sets matches off and has given no
    /// colour yet.
    pub fn new(prefix_format: Option<String>, no_prefix: bool) -> (f: Self)
        ensures
            f.wf(),
            f.prefix_format() == match prefix_format {
                Some(p) => Some(p@),
                None => None,
            },
            f.hides_prefix() == no_prefix,
            f.highlights(),
            f.patterns().len() == 0,
            f.assigned().len() == 0,
    {
        Self {
            prefix_format,
            no_prefix,
            color_generator: ColorGenerator::new(),
            pod_colors: Vec::new(),
            highlight: true,
            grep_filters: Vec::new(),
        }
    }

    /// Set whether to highlight grep matches
    pub fn set_highlight(&mut self, highlight: bool)
        requires
            old(self).wf(),
        ensures
            final(self).wf(),
            final(self).highlights() == highlight,
            final(self).prefix_format() == old(self).prefix_format(),
            final(self).hides_prefix() == old(self).hides_prefix(),
            final(self).patterns() == old(self).patterns(),
            final(self).assigned() == old(self).assigned(),
    {
        self.highlight = highlight;
    }

    /// Add a grep filter for highlighting
    pub fn add_grep_filter(&mut self, filter: GrepFilter)
        requires
            old(self).wf(),
        ensures
            final(self).wf(),
            final(self).patterns() == old(self).patterns().push(filter@),
            final(self).highlights() == old(self).highlights(),
            final(self).prefix_format() == old(self).prefix_format(),
            final(self).hides_prefix() == old(self).hides_prefix(),
            final(self).assigned() == old(self).assigned(),
    {
        self.grep_filters.push(filter);
    }

    /// The prefix of an entry; the error where the name of the pod is to
    /// be cut and cannot.
    fn prefix(&self, entry: &LogEntry) -> (r: Result<String, FormatError>)
        ensures
            r is Err <==> self.prefix_format() is Some && !has_short_form(entry.pod_name@),
            r matches Ok(p) ==> p@ == prefix_of(self.prefix_format(), entry.pod_name@),
    {
        match &self.prefix_format {
            Some(format) => {
                if !can_shorten(entry.pod_name.as_str()) {
                    return Err(FormatError::NameNotCut);
                }
                let prefix_format = PrefixFormat::new(format.as_str());
                Ok(prefix_format.format(entry))
            },
            None => Ok("[".to_owned().concat(entry.pod_name.as_str()).concat("]")),
        }
    }

    /// Format a log entry
    pub fn format(&mut self, entry: &LogEntry) -> (r: Result<String, FormatError>)
        ensures
            *final(self) == *old(self),
            r is Err <==> !old(self).hides_prefix() && old(self).prefix_format() is Some
                && !has_short_form(entry.pod_name@),
            r matches Ok(line) ==> line@ == formatted_line(
                old(self).prefix_format(),
                old(self).hides_prefix(),
                entry,
            ),
    {
        if self.no_prefix {
            return Ok(entry.message.clone());
        }
        match self.prefix(entry) {
            Ok(prefix) => Ok(prefix.concat(" ").concat(entry.message.as_str())),
            Err(e) => Err(e),
        }
    }

    /// The place of the pod `name` among the pods that have a colour.
    fn find_pod(&self, name: &str) -> (r: Option<usize>)
        ensures
            match r {
                Some(i) => i < self.pod_colors@.len() && self.pod_colors@[i as int].0@ == name@,
                None => forall|i: int|
                    0 <= i < self.pod_colors@.len() ==> (#[trigger] self.pod_colors@[i]).0@
                        != name@,
            },
    {
        let mut i: usize = 0;
        while i < self.pod_colors.len()
            invariant
                i <= self.pod_colors@.len(),
                forall|j: int| 0 <= j < i ==> (#[trigger] self.pod_colors@[j]).0@ != name@,
            decreases self.pod_colors@.len() - i,
        {
            if str_eq(self.pod_colors[i].0.as_str(), name) {
                return Some(i);
            }
            i += 1;
        }
        None
    }

    /// The colour of the pod `name`: the one it has, or else the next of
    /// the palette, which it then keeps.
    pub fn color_of(&mut self, name: &str) -> (color: Color)
        requires
            old(self).wf(),
        ensures
            final(self).wf(),
            final(self).prefix_format() == old(self).prefix_format(),
            final(self).hides_prefix() == old(self).hides_prefix(),
            final(self).highlights() == old(self).highlights(),
            final(self).patterns() == old(self).patterns(),
            is_color_of(color, name@, old(self).assigned(), final(self).assigned()),
    {
        let ghost before = self.assigned();
        match self.find_pod(name) {
            Some(i) => {
                proof {
                    assert(before[i as int].0 == name@);
                }
                self.pod_colors[i].1
            },
            None => {
                let color = self.color_generator.next_color();
                let ghost n = self.pod_colors@.len() as int;
                self.pod_colors.push((name.to_owned(), color));
                proof {
                    assert(self.pod_colors@.map_values(|p: (String, Color)| (p.0@, p.1))
                        == before.push((name@, color)));
                    assert((n % (PALETTE_LEN as int) + 1) % (PALETTE_LEN as int) == (n + 1) % (
                    PALETTE_LEN as int));
                }
                color
            },
        }
    }

    /// The matches in `text` of all the patterns that are set off.
    fn gather(&self, text: &str) -> (spans: Vec<(usize, usize)>)
        ensures
            spans@ == gathered_spans(self.patterns(), text@),
            all_ordered(spans@),
            forall|i: int| 0 <= i < spans@.len() ==> (#[trigger] spans@[i]).1 <= encode_utf8(
                text@,
            ).len(),
    {
        let mut spans: Vec<(usize, usize)> = Vec::new();
        let mut k: usize = 0;
        let ghost patterns = self.patterns();
        while k < self.grep_filters.len()
            invariant
                k <= self.grep_filters@.len(),
                patterns == self.patterns(),
                patterns.len() == self.grep_filters@.len(),
                spans@ == gathered_spans(patterns.take(k as int), text@),
                all_ordered(spans@),
                forall|i: int|
                    0 <= i < spans@.len() ==> (#[trigger] spans@[i]).1 <= encode_utf8(text@).len(),
            decreases self.grep_filters@.len() - k,
        {
            let mut found = self.grep_filters[k].find_matches(text);
            proof {
                assert(patterns.take(k + 1).drop_last() == patterns.take(k as int));
            }
            spans.append(&mut found);
            k += 1;
        }
        assert(patterns.take(patterns.len() as int) == patterns);
        spans
    }

    /// How an entry is shown: the colour of its pod, its prefix, and its
    /// message cut along the matches that are set off. Nothing changes
    /// where the entry cannot be laid out.
    pub fn layout(&mut self, entry: &LogEntry) -> (r: Result<Layout, FormatError>)
        requires
            old(self).wf(),
        ensures
            final(self).wf(),
            final(self).prefix_format() == old(self).prefix_format(),
            final(self).hides_prefix() == old(self).hides_prefix(),
            final(self).highlights() == old(self).highlights(),
            final(self).patterns() == old(self).patterns(),
            r is Err <==> !old(self).hides_prefix() && old(self).prefix_format() is Some
                && !has_short_form(entry.pod_name@),
            r is Err ==> final(self).assigned() == old(self).assigned(),
            r matches Ok(l) ==> {
                &&& is_color_of(
                    l.color,
                    entry.pod_name@,
                    old(self).assigned(),
                    final(self).assigned(),
                )
                &&& match l.prefix {
                    Some(p) => !old(self).hides_prefix() && p@ == prefix_of(
                        old(self).prefix_format(),
                        entry.pod_name@,
                    ),
                    None => old(self).hides_prefix(),
                }
                &&& is_merge_of(
                    l.spans@,
                    if old(self).highlights() {
                        gathered_spans(old(self).patterns(), entry.message@)
                    } else {
                        Seq::empty()
                    },
                )
                &&& l.segments@ == segments_of(
                    encode_utf8(entry.message@).len() as usize,
                    l.spans@,
                )
                &&& tiles(l.segments@, 0, encode_utf8(entry.message@).len() as int)
            },
    {
        let prefix = if self.no_prefix {
            None
        } else {
            match self.prefix(entry) {
                Ok(p) => Some(p),
                Err(e) => {
                    return Err(e);
                },
            }
        };
        let color = self.color_of(entry.pod_name.as_str());
        let message = entry.message.as_str();
        let len = message.as_bytes().len();
        let found = if self.highlight {
            self.gather(message)
        } else {
            Vec::new()
        };
        let spans = merge_spans(&found);
        proof {
            assert forall|j: int| 0 <= j < spans@.len() implies (#[trigger] spans@[j]).1 <= len by {
                assert(has_end(found@, spans@[j].1));
            }
            lemma_segments_tile(len, spans@);
        }
        let segments = cut_segments(len, &spans);
        Ok(Layout { color, prefix, spans, segments })
    }
}

} // verus!
