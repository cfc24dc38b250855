//! Filters over log entries: patterns, levels, and their conjunctions and
//! disjunctions.

use crate::kubernetes::log::LogEntry;
use crate::log_processor::matcher::{
    clone_regex, compile, escape, escaped, find_spans, is_match, literal_find_spans,
    literal_is_match, literal_spans, regex_compiles, regex_is_match, regex_source, regex_spans,
    spans_in_order,
};
use crate::utils::text::{contains, joined, occurs_in, str_eq, to_uppercase, uppercased};
use regex::Regex;
use vstd::prelude::*;
use vstd::string::StringExecFns;
use vstd::string::StringSliceAdditionalSpecFns;
use vstd::utf8::encode_utf8;

verus! {

/// Trait for log filters
pub trait Filter: Send + Sync {
    /// Whether the filter lets `entry` through.
    spec fn accepts(&self, entry: &LogEntry) -> bool;

    /// The text that describes the filter.
    spec fn describe(&self) -> Seq<char>;

    /// Apply the filter to a log entry
    fn apply(&self, entry: &LogEntry) -> (b: bool)
        ensures
            b == self.accepts(entry),
    ;

    /// Get the filter description
    fn description(&self) -> (s: String)
        ensures
            s@ == self.describe(),
    ;
}

/// Why a filter could not be made.
#[derive(Debug, Clone, PartialEq, Eq)]
pub enum FilterError {
    /// The text names no log level.
    InvalidLevel(String),
    /// The text could not be made into a matcher.
    InvalidPattern(String),
}

impl FilterError {
    /// The text of the error.
    pub open spec fn message_text(&self) -> Seq<char> {
        match self {
            FilterError::InvalidLevel(level) => "Invalid log level: "@ + level@,
            FilterError::InvalidPattern(pattern) => "Invalid grep pattern: "@ + pattern@,
        }
    }

    /// The text of the error, which names what was refused.
    pub fn message(&self) -> (s: String)
        ensures
            s@ == self.message_text(),
    {
        match self {
            FilterError::InvalidLevel(level) => "Invalid log level: ".to_owned().concat(
                level.as_str(),
            ),
            FilterError::InvalidPattern(pattern) => "Invalid grep pattern: ".to_owned().concat(
                pattern.as_str(),
            ),
        }
    }
}

/// How a pattern is matched.
#[derive(Debug, Clone, Copy, PartialEq, Eq, Structural)]
pub enum PatternKind {
    /// As the regular expression that it is.
    Regex,
    /// As a regular expression for its literal text, its meta characters
    /// escaped.
    Escaped,
    /// As its literal text, looked for without a regular expression.
    Literal,
}

/// How `pattern` is matched: as a regular expression where it is one;
/// else as the expression for its literal text; and, should that not be
/// compiled either, as its literal text without an expression.
pub open spec fn pattern_kind(pattern: Seq<char>) -> PatternKind {
    if regex_compiles(pattern) {
        PatternKind::Regex
    } else if regex_compiles(escaped(pattern)) {
        PatternKind::Escaped
    } else {
        PatternKind::Literal
    }
}

/// The text that is compiled for `pattern`: the pattern itself where it is
/// a regular expression, else the pattern with its meta characters escaped.
pub open spec fn grep_source(pattern: Seq<char>) -> Seq<char> {
    if regex_compiles(pattern) {
        pattern
    } else {
        escaped(pattern)
    }
}

/// Whether the filter made from `pattern` finds a match in `text`. Where
/// neither the pattern nor its escaped form can be compiled, the pattern
/// is looked for as it stands.
pub open spec fn grep_matches(pattern: Seq<char>, text: Seq<char>) -> bool {
    if regex_compiles(grep_source(pattern)) {
        regex_is_match(grep_source(pattern), text)
    } else {
        occurs_in(encode_utf8(text), encode_utf8(pattern))
    }
}

/// The matches in `text` of the filter made from `pattern`, as half-open
/// ranges of byte offsets.
pub open spec fn grep_spans(pattern: Seq<char>, text: Seq<char>) -> Seq<(usize, usize)> {
    if regex_compiles(grep_source(pattern)) {
        regex_spans(grep_source(pattern), text)
    } else {
        literal_spans(encode_utf8(text), encode_utf8(pattern))
    }
}

/// Filter logs using a regular expression
pub struct GrepFilter {
    pattern: String,
    regex: Option<Regex>,
    kind: PatternKind,
}

impl View for GrepFilter {
    type V = Seq<char>;

    /// The pattern that the filter was made from.
    closed spec fn view(&self) -> Seq<char> {
        self.pattern@
    }
}

impl GrepFilter {
    #[verifier::type_invariant]
    spec fn well_formed(self) -> bool {
        &&& self.kind == pattern_kind(self.pattern@)
        &&& match self.regex {
            Some(re) => regex_compiles(grep_source(self.pattern@)) && regex_source(re)
                == grep_source(self.pattern@),
            None => !regex_compiles(grep_source(self.pattern@)),
        }
    }

    /// Create a new grep filter. The pattern is taken as a regular
    /// expression; one that is none is taken literally. This never fails.
    pub fn new(pattern: &str) -> (r: Result<Self, FilterError>)
        ensures
            r matches Ok(f) && f@ == pattern@,
    {
        Ok(GrepFilter::for_pattern(pattern))
    }

    /// The filter of a pattern, which there is for every text.
    pub fn for_pattern(pattern: &str) -> (f: Self)
        ensures
            f@ == pattern@,
    {
        let (regex, kind) = match compile(pattern) {
            Ok(re) => (Some(re), PatternKind::Regex),
            Err(_) => {
                let literal = escape(pattern);
                match compile(literal.as_str()) {
                    Ok(re) => (Some(re), PatternKind::Escaped),
                    Err(_) => (None, PatternKind::Literal),
                }
            },
        };
        GrepFilter { pattern: pattern.to_owned(), regex, kind }
    }

    /// How the pattern is matched.
    pub fn kind(&self) -> (kind: PatternKind)
        ensures
            kind == pattern_kind(self@),
    {
        proof {
            use_type_invariant(self);
        }
        self.kind
    }

    /// Get the pattern string
    pub fn pattern(&self) -> (s: &str)
        ensures
            s@ == self@,
    {
        self.pattern.as_str()
    }

    /// Whether the filter finds a match in `text`.
    pub fn is_match(&self, text: &str) -> (b: bool)
        ensures
            b == grep_matches(self@, text@),
    {
        proof {
            use_type_invariant(self);
        }
        match &self.regex {
            Some(re) => is_match(re, text),
            None => literal_is_match(text, self.pattern.as_str()),
        }
    }

    /// Find all matches in a string
    pub fn find_matches(&self, text: &str) -> (spans: Vec<(usize, usize)>)
        ensures
            spans@ == grep_spans(self@, text@),
            spans_in_order(spans@, text.spec_bytes().len() as int),
    {
        proof {
            use_type_invariant(self);
        }
        match &self.regex {
            Some(re) => find_spans(re, text),
            None => literal_find_spans(text, self.pattern.as_str()),
        }
    }
}

impl Clone for GrepFilter {
    fn clone(&self) -> (f: Self)
        ensures
            f@ == self@,
    {
        proof {
            use_type_invariant(self);
        }
        let regex = match &self.regex {
            Some(re) => Some(clone_regex(re)),
            None => None,
        };
        GrepFilter { pattern: self.pattern.clone(), regex, kind: self.kind }
    }
}

impl Filter for GrepFilter {
    open spec fn accepts(&self, entry: &LogEntry) -> bool {
        grep_matches(self@, entry.raw_line@)
    }

    open spec fn describe(&self) -> Seq<char> {
        "grep(\""@ + self@ + "\")"@
    }

    fn apply(&self, entry: &LogEntry) -> (b: bool) {
        self.is_match(entry.raw_line.as_str())
    }

    fn description(&self) -> (s: String) {
        "grep(\"".to_owned().concat(self.pattern.as_str()).concat("\")")
    }
}

/// Whether `name` is one of the level names, in upper case.
pub open spec fn is_level_name(name: Seq<char>) -> bool {
    ||| name == "TRACE"@
    ||| name == "DEBUG"@
    ||| name == "INFO"@
    ||| name == "WARN"@
    ||| name == "WARNING"@
    ||| name == "ERROR"@
    ||| name == "ERR"@
    ||| name == "FATAL"@
    ||| name == "CRITICAL"@
}

/// How the level `name` is written in its pattern: `WARN` and `WARNING`
/// stand for each other and share one form.
pub open spec fn level_word(name: Seq<char>) -> Seq<char> {
    if name == "WARN"@ || name == "WARNING"@ {
        "WARN(?:ING)?"@
    } else {
        name
    }
}

/// The pattern of the level `name`: without regard to case, the name in
/// square brackets, the name before a colon, a date followed at some
/// distance by the name before a colon, or the name as a word of its own.
pub open spec fn level_pattern(name: Seq<char>) -> Seq<char> {
    let word = level_word(name);
    r"(?i)(\["@ + word + r"\])|(\b"@ + word + r":)|(\d{4}[-/]\d{2}[-/]\d{2}.*?\b"@ + word
        + r":)|(\b"@ + word + r"\b)"@
}

/// Whether a line is kept from the level `name` whatever it matches: a
/// line of a trace that mentions an error is no error.
pub open spec fn is_excluded(name: Seq<char>, line: Seq<char>) -> bool {
    name == "ERROR"@ && occurs_in(line, "Trace["@) && occurs_in(line, "error:"@)
}

/// Whether the filter of the level `name` lets `line` through.
pub open spec fn level_matches(name: Seq<char>, line: Seq<char>) -> bool {
    !is_excluded(name, line) && regex_is_match(level_pattern(name), line)
}

/// What `LevelFilter::new` returns for a level whose upper-case form is
/// `upper`.
pub open spec fn level_filter_result(
    level: Seq<char>,
    upper: Seq<char>,
    r: Result<LevelFilter, FilterError>,
) -> bool {
    if !is_level_name(upper) {
        r matches Err(FilterError::InvalidLevel(l)) && l@ == level
    } else if !regex_compiles(level_pattern(upper)) {
        r matches Err(FilterError::InvalidPattern(p)) && p@ == level_pattern(upper)
    } else {
        r matches Ok(f) && f@ == upper
    }
}

/// Filter logs by log level
pub struct LevelFilter {
    level_str: String,
    regex: Regex,
}

impl View for LevelFilter {
    type V = Seq<char>;

    /// The name of the level, in upper case.
    closed spec fn view(&self) -> Seq<char> {
        self.level_str@
    }
}

/// Whether `name` is one of the level names, in upper case.
pub fn check_level_name(name: &str) -> (b: bool)
    ensures
        b == is_level_name(name@),
{
    str_eq(name, "TRACE") || str_eq(name, "DEBUG") || str_eq(name, "INFO") || str_eq(name, "WARN")
        || str_eq(name, "WARNING") || str_eq(name, "ERROR") || str_eq(name, "ERR") || str_eq(
        name,
        "FATAL",
    ) || str_eq(name, "CRITICAL")
}

/// The pattern of the level `name`.
pub fn build_level_pattern(name: &str) -> (p: String)
    ensures
        p@ == level_pattern(name@),
{
    let word = if str_eq(name, "WARN") || str_eq(name, "WARNING") {
        "WARN(?:ING)?"
    } else {
        name
    };
    r"(?i)(\[".to_owned().concat(word).concat(r"\])|(\b").concat(word).concat(
        r":)|(\d{4}[-/]\d{2}[-/]\d{2}.*?\b",
    ).concat(word).concat(r":)|(\b").concat(word).concat(r"\b)")
}

impl LevelFilter {
    #[verifier::type_invariant]
    spec fn well_formed(self) -> bool {
        is_level_name(self.level_str@) && regex_source(self.regex) == level_pattern(
            self.level_str@,
        )
    }

    /// Create a new level filter. The level is looked up without regard to
    /// case; a text that names no level is refused.
    pub fn new(level: &str) -> (r: Result<Self, FilterError>)
        ensures
            level_filter_result(level@, uppercased(level@), r),
    {
        let upper = to_uppercase(level);
        LevelFilter::from_upper(level, upper)
    }

    /// The level filter for the text `level`, whose upper-case form is
    /// `upper`.
    pub fn from_upper(level: &str, upper: String) -> (r: Result<Self, FilterError>)
        ensures
            level_filter_result(level@, upper@, r),
    {
        if !check_level_name(upper.as_str()) {
            return Err(FilterError::InvalidLevel(level.to_owned()));
        }
        let pattern = build_level_pattern(upper.as_str());
        match compile(pattern.as_str()) {
            Ok(regex) => Ok(LevelFilter { level_str: upper, regex }),
            Err(_) => Err(FilterError::InvalidPattern(pattern)),
        }
    }

    /// The name of the level, in upper case.
    pub fn level(&self) -> (s: &str)
        ensures
            s@ == self@,
    {
        self.level_str.as_str()
    }

    /// Whether the filter lets a line through: one that is excluded is
    /// not asked of the pattern.
    pub fn is_match(&self, text: &str) -> (b: bool)
        ensures
            b == level_matches(self@, text@),
    {
        proof {
            use_type_invariant(self);
        }
        if self.should_exclude(text) {
            return false;
        }
        is_match(&self.regex, text)
    }

    /// Special handling for certain log lines to exclude false positives
    pub fn should_exclude(&self, text: &str) -> (b: bool)
        ensures
            b == is_excluded(self@, text@),
    {
        str_eq(self.level_str.as_str(), "ERROR") && contains(text, "Trace[") && contains(
            text,
            "error:",
        )
    }
}

impl Filter for LevelFilter {
    open spec fn accepts(&self, entry: &LogEntry) -> bool {
        level_matches(self@, entry.raw_line@)
    }

    open spec fn describe(&self) -> Seq<char> {
        "level("@ + self@ + ")"@
    }

    fn apply(&self, entry: &LogEntry) -> (b: bool) {
        self.is_match(entry.raw_line.as_str())
    }

    fn description(&self) -> (s: String) {
        "level(".to_owned().concat(self.level_str.as_str()).concat(")")
    }
}

/// A filter of any of the four kinds: the nodes of a filter tree.
pub enum AnyFilter {
    /// A pattern.
    Grep(GrepFilter),
    /// A level.
    Level(LevelFilter),
    /// All of several filters.
    And(AndFilter),
    /// One of several filters.
    Or(OrFilter),
}

/// Composite filter that combines multiple filters with AND logic
pub struct AndFilter {
    filters: Vec<AnyFilter>,
}

/// Composite filter that combines multiple filters with OR logic
pub struct OrFilter {
    filters: Vec<AnyFilter>,
}

/// Whether the filter `node` lets through an entry whose raw line is
/// `line`. A conjunction lets it through if all its filters do, which is so
/// where it has none; a disjunction if one of its filters does, which is
/// not so where it has none.
pub open spec fn node_accepts(node: &AnyFilter, line: Seq<char>) -> bool
    decreases node,
{
    match node {
        AnyFilter::Grep(f) => grep_matches(f@, line),
        AnyFilter::Level(f) => level_matches(f@, line),
        AnyFilter::And(f) => forall|i: int|
            0 <= i < f.children().len() ==> node_accepts(&#[trigger] f.children()[i], line),
        AnyFilter::Or(f) => exists|i: int|
            0 <= i < f.children().len() && node_accepts(&#[trigger] f.children()[i], line),
    }
}

/// What each of the filters says of itself.
pub open spec fn descriptions(filters: Seq<AnyFilter>) -> Seq<Seq<char>>
    decreases filters, 0int,
{
    Seq::new(
        filters.len(),
        |i: int|
            if 0 <= i < filters.len() {
                node_describe(&filters[i])
            } else {
                Seq::empty()
            },
    )
}

/// The text that describes the filter `node`.
pub open spec fn node_describe(node: &AnyFilter) -> Seq<char>
    decreases node, 1int,
{
    match node {
        AnyFilter::Grep(f) => "grep(\""@ + f@ + "\")"@,
        AnyFilter::Level(f) => "level("@ + f@ + ")"@,
        AnyFilter::And(f) => "("@ + joined(descriptions(f.children()), " AND "@) + ")"@,
        AnyFilter::Or(f) => "("@ + joined(descriptions(f.children()), " OR "@) + ")"@,
    }
}

impl AndFilter {
    /// The filters that are combined, in order.
    pub closed spec fn children(&self) -> Seq<AnyFilter> {
        self.filters@
    }

    /// Create a new AND filter. Without any filter in it, it lets every
    /// entry through.
    pub fn new(filters: Vec<AnyFilter>) -> (f: Self)
        ensures
            f.children() == filters@,
    {
        Self { filters }
    }
}

impl OrFilter {
    /// The filters that are combined, in order.
    pub closed spec fn children(&self) -> Seq<AnyFilter> {
        self.filters@
    }

    /// Create a new OR filter. Without any filter in it, it lets no entry
    /// through.
    pub fn new(filters: Vec<AnyFilter>) -> (f: Self)
        ensures
            f.children() == filters@,
    {
        Self { filters }
    }
}

/// Whether every one of `filters` lets `entry` through, asked from the
/// left and no further than the first that does not.
fn apply_all(filters: &Vec<AnyFilter>, entry: &LogEntry) -> (b: bool)
    ensures
        b == forall|i: int|
            0 <= i < filters@.len() ==> node_accepts(&#[trigger] filters@[i], entry.raw_line@),
    decreases filters, 0int,
{
    let mut i: usize = 0;
    while i < filters.len()
        invariant
            i <= filters@.len(),
            forall|j: int| 0 <= j < i ==> node_accepts(&#[trigger] filters@[j], entry.raw_line@),
        decreases filters@.len() - i,
    {
        if !apply_node(&filters[i], entry) {
            return false;
        }
        i += 1;
    }
    true
}

/// Whether one of `filters` lets `entry` through, asked from the left and
/// no further than the first that does.
fn apply_any(filters: &Vec<AnyFilter>, entry: &LogEntry) -> (b: bool)
    ensures
        b == exists|i: int|
            0 <= i < filters@.len() && node_accepts(&#[trigger] filters@[i], entry.raw_line@),
    decreases filters, 0int,
{
    let mut i: usize = 0;
    while i < filters.len()
        invariant
            i <= filters@.len(),
            forall|j: int| 0 <= j < i ==> !node_accepts(&#[trigger] filters@[j], entry.raw_line@),
        decreases filters@.len() - i,
    {
        if apply_node(&filters[i], entry) {
            return true;
        }
        i += 1;
    }
    false
}

/// Whether the filter `node` lets `entry` through.
fn apply_node(node: &AnyFilter, entry: &LogEntry) -> (b: bool)
    ensures
        b == node_accepts(node, entry.raw_line@),
    decreases node, 1int,
{
    match node {
        AnyFilter::Grep(f) => f.is_match(entry.raw_line.as_str()),
        AnyFilter::Level(f) => f.is_match(entry.raw_line.as_str()),
        AnyFilter::And(f) => {
            assert(f.children() == f.filters@);
            apply_all(&f.filters, entry)
        },
        AnyFilter::Or(f) => {
            apply_any(&f.filters, entry)
        },
    }
}

/// The descriptions of `filters` with `sep` between them, in brackets.
fn describe_all(filters: &Vec<AnyFilter>, sep: &str) -> (s: String)
    ensures
        s@ == "("@ + joined(descriptions(filters@), sep@) + ")"@,
    decreases filters, 0int,
{
    let mut s = "(".to_owned();
    let mut i: usize = 0;
    let ghost all = descriptions(filters@);
    while i < filters.len()
        invariant
            i <= filters@.len(),
            all == descriptions(filters@),
            s@ == "("@ + joined(all.take(i as int), sep@),
        decreases filters@.len() - i,
    {
        let d = describe_node(&filters[i]);
        proof {
            assert(all.take(i + 1).drop_last() == all.take(i as int));
            if i > 0 {
                assert("("@ + (joined(all.take(i as int), sep@) + sep@ + d@) == "("@ + joined(
                    all.take(i as int),
                    sep@,
                ) + sep@ + d@);
            }
        }
        if i > 0 {
            s = s.concat(sep);
        }
        s = s.concat(d.as_str());
        i += 1;
    }
    assert(all.take(filters@.len() as int) == all);
    s.concat(")")
}

/// The text that describes the filter `node`.
fn describe_node(node: &AnyFilter) -> (s: String)
    ensures
        s@ == node_describe(node),
    decreases node, 1int,
{
    match node {
        AnyFilter::Grep(f) => f.description(),
        AnyFilter::Level(f) => f.description(),
        AnyFilter::And(f) => describe_all(&f.filters, " AND "),
        AnyFilter::Or(f) => describe_all(&f.filters, " OR "),
    }
}

impl Filter for AndFilter {
    open spec fn accepts(&self, entry: &LogEntry) -> bool {
        forall|i: int|
            0 <= i < self.children().len() ==> node_accepts(
                &#[trigger] self.children()[i],
                entry.raw_line@,
            )
    }

    open spec fn describe(&self) -> Seq<char> {
        "("@ + joined(descriptions(self.children()), " AND "@) + ")"@
    }

    fn apply(&self, entry: &LogEntry) -> (b: bool) {
        assert(self.children() == self.filters@);
        apply_all(&self.filters, entry)
    }

    fn description(&self) -> (s: String) {
        describe_all(&self.filters, " AND ")
    }
}

impl Filter for OrFilter {
    open spec fn accepts(&self, entry: &LogEntry) -> bool {
        exists|i: int|
            0 <= i < self.children().len() && node_accepts(
                &#[trigger] self.children()[i],
                entry.raw_line@,
            )
    }

    open spec fn describe(&self) -> Seq<char> {
        "("@ + joined(descriptions(self.children()), " OR "@) + ")"@
    }

    fn apply(&self, entry: &LogEntry) -> (b: bool) {
        assert(self.children() == self.filters@);
        apply_any(&self.filters, entry)
    }

    fn description(&self) -> (s: String) {
        describe_all(&self.filters, " OR ")
    }
}

impl Filter for AnyFilter {
    open spec fn accepts(&self, entry: &LogEntry) -> bool {
        node_accepts(self, entry.raw_line@)
    }

    open spec fn describe(&self) -> Seq<char> {
        node_describe(self)
    }

    fn apply(&self, entry: &LogEntry) -> (b: bool) {
        apply_node(self, entry)
    }

    fn description(&self) -> (s: String) {
        describe_node(self)
    }
}

/// A conjunction of two filters lets a line through exactly if both do.
pub proof fn lemma_and_of_two(f: AndFilter, a: AnyFilter, b: AnyFilter, line: Seq<char>)
    requires
        f.children() == seq![a, b],
    ensures
        node_accepts(&AnyFilter::And(f), line) == (node_accepts(&a, line) && node_accepts(
            &b,
            line,
        )),
{
    let nodes = f.children();
    let n = AnyFilter::And(f);
    assert(n matches AnyFilter::And(g) && g == f);
    assert(node_accepts(&n, line) == forall|i: int|
        0 <= i < nodes.len() ==> node_accepts(&#[trigger] nodes[i], line));
}

/// A disjunction of two filters lets a line through exactly if one of them
/// does.
pub proof fn lemma_or_of_two(f: OrFilter, a: AnyFilter, b: AnyFilter, line: Seq<char>)
    requires
        f.children() == seq![a, b],
    ensures
        node_accepts(&AnyFilter::Or(f), line) == (node_accepts(&a, line) || node_accepts(&b, line)),
{
    let nodes = f.children();
    let n = AnyFilter::Or(f);
    assert(n matches AnyFilter::Or(g) && g == f);
    assert(node_accepts(&n, line) == exists|i: int|
        0 <= i < nodes.len() && node_accepts(&#[trigger] nodes[i], line));
}

/// A conjunction of no filters lets every line through, and a disjunction
/// of none lets no line through.
pub proof fn lemma_empty_composites(f: AndFilter, g: OrFilter, line: Seq<char>)
    requires
        f.children().len() == 0,
        g.children().len() == 0,
    ensures
        node_accepts(&AnyFilter::And(f), line),
        !node_accepts(&AnyFilter::Or(g), line),
{
}

} // verus!
