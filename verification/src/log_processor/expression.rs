//! Filter expressions: the texts that a caller gives for patterns and for
//! levels, and the filter tree that they stand for.

use crate::log_processor::filter::{
    grep_matches, is_level_name, level_matches, level_pattern, node_accepts, AndFilter, AnyFilter,
    FilterError, GrepFilter, LevelFilter, OrFilter,
};
use crate::log_processor::matcher::regex_compiles;
use crate::utils::text::{fragments, has_char, split_fragments, texts, to_chars, uppercased};
use vstd::prelude::*;

verus! {

/// Whether the patterns of an expression must all match: they must where
/// the expression holds an `&`, which then parts them.
pub open spec fn is_conjunction(expr: Seq<char>) -> bool {
    expr.contains('&')
}

/// The patterns of a pattern expression: its pieces between `&` where it
/// holds one, else between `,`; each without the white space around it,
/// the empty ones left out.
pub open spec fn pattern_fragments(expr: Seq<char>) -> Seq<Seq<char>> {
    if is_conjunction(expr) {
        fragments(expr, '&')
    } else {
        fragments(expr, ',')
    }
}

/// The levels of a level expression, as they are written: its pieces
/// between `,`, each without the white space around it, the empty ones
/// left out.
pub open spec fn level_fragments(expr: Seq<char>) -> Seq<Seq<char>> {
    fragments(expr, ',')
}

/// Whether a level filter can be made from the text `level`.
pub open spec fn is_level(level: Seq<char>) -> bool {
    is_level_name(uppercased(level)) && regex_compiles(level_pattern(uppercased(level)))
}

/// Whether `i` is the first of `levels` from which no level filter can be
/// made.
pub open spec fn is_first_bad_level(levels: Seq<Seq<char>>, i: int) -> bool {
    &&& 0 <= i < levels.len()
    &&& !is_level(levels[i])
    &&& forall|j: int| 0 <= j < i ==> is_level(#[trigger] levels[j])
}

/// Whether `text` is the first of `levels` from which no level filter can
/// be made.
pub open spec fn names_first_bad_level(levels: Seq<Seq<char>>, text: Seq<char>) -> bool {
    exists|i: int| #[trigger] is_first_bad_level(levels, i) && levels[i] == text
}

/// Whether a level filter can be made from each of `levels`.
pub open spec fn all_levels(levels: Seq<Seq<char>>) -> bool {
    forall|i: int| 0 <= i < levels.len() ==> is_level(#[trigger] levels[i])
}

/// Whether `nodes` are the pattern filters of `patterns`, one for each and
/// in order.
pub open spec fn are_greps(nodes: Seq<AnyFilter>, patterns: Seq<Seq<char>>) -> bool {
    &&& nodes.len() == patterns.len()
    &&& forall|i: int|
        0 <= i < nodes.len() ==> (#[trigger] nodes[i] matches AnyFilter::Grep(f) && f@
            == patterns[i])
}

/// Whether `nodes` are the level filters of `levels`, one for each and in
/// order.
pub open spec fn are_levels(nodes: Seq<AnyFilter>, levels: Seq<Seq<char>>) -> bool {
    &&& nodes.len() == levels.len()
    &&& forall|i: int|
        0 <= i < nodes.len() ==> (#[trigger] nodes[i] matches AnyFilter::Level(f) && f@
            == uppercased(levels[i]))
}

/// Whether `node` is the filter of the pattern expression `expr`: a
/// conjunction of its patterns where they are parted by `&`, else a
/// disjunction of them.
pub open spec fn is_pattern_filter(node: AnyFilter, expr: Seq<char>) -> bool {
    if is_conjunction(expr) {
        node matches AnyFilter::And(f) && are_greps(f.children(), pattern_fragments(expr))
    } else {
        node matches AnyFilter::Or(f) && are_greps(f.children(), pattern_fragments(expr))
    }
}

/// Whether `node` is the filter of the level expression `expr`: a
/// disjunction of its levels.
pub open spec fn is_level_filter(node: AnyFilter, expr: Seq<char>) -> bool {
    node matches AnyFilter::Or(f) && are_levels(f.children(), level_fragments(expr))
}

/// Whether the expression, if there is one, has a pattern in it.
pub open spec fn has_patterns(expr: Option<Seq<char>>) -> bool {
    expr matches Some(e) && pattern_fragments(e).len() > 0
}

/// Whether the expression, if there is one, has a level in it.
pub open spec fn has_levels(expr: Option<Seq<char>>) -> bool {
    expr matches Some(e) && level_fragments(e).len() > 0
}

/// Whether `node` is the filter of the two expressions: the conjunction of
/// the pattern filter and the level filter where both expressions have
/// something in them, the filter of the one that has where only one has,
/// and no filter where neither has.
pub open spec fn is_filter_of(
    node: Option<AnyFilter>,
    pattern_expr: Option<Seq<char>>,
    level_expr: Option<Seq<char>>,
) -> bool {
    if has_patterns(pattern_expr) && has_levels(level_expr) {
        &&& node matches Some(AnyFilter::And(f))
        &&& f.children().len() == 2
        &&& is_pattern_filter(f.children()[0], pattern_expr->0)
        &&& is_level_filter(f.children()[1], level_expr->0)
    } else if has_patterns(pattern_expr) {
        node matches Some(n) && is_pattern_filter(n, pattern_expr->0)
    } else if has_levels(level_expr) {
        node matches Some(n) && is_level_filter(n, level_expr->0)
    } else {
        node is None
    }
}

/// What `build_filter` returns for the two expressions: the filter of
/// both where a level filter can be made from every level, else the error
/// that names the first level from which none can.
pub open spec fn is_build_result(
    r: Result<Option<AnyFilter>, FilterError>,
    pattern_expr: Option<Seq<char>>,
    level_expr: Option<Seq<char>>,
) -> bool {
    match r {
        Ok(node) => {
            &&& level_expr matches Some(l) ==> all_levels(level_fragments(l))
            &&& is_filter_of(node, pattern_expr, level_expr)
        },
        Err(FilterError::InvalidLevel(text)) => {
            &&& level_expr matches Some(l)
            &&& names_first_bad_level(level_fragments(l), text@)
        },
        Err(FilterError::InvalidPattern(_)) => false,
    }
}

/// The patterns that each of the filters was made from.
pub open spec fn patterns_of(filters: Seq<GrepFilter>) -> Seq<Seq<char>> {
    filters.map_values(|f: GrepFilter| f@)
}

/// The patterns of a pattern expression.
fn split_patterns(expr: &str) -> (r: (Vec<String>, bool))
    ensures
        r.1 == is_conjunction(expr@),
        texts(r.0@) == pattern_fragments(expr@),
{
    let chars = to_chars(expr);
    if has_char(&chars, '&') {
        (split_fragments(&chars, '&'), true)
    } else {
        (split_fragments(&chars, ','), false)
    }
}

/// One pattern filter for each pattern of the expression, in order: the
/// filters whose matches are set off in a line.
pub fn pattern_filters(expr: &str) -> (filters: Vec<GrepFilter>)
    ensures
        patterns_of(filters@) == pattern_fragments(expr@),
{
    let (pieces, _) = split_patterns(expr);
    let mut filters: Vec<GrepFilter> = Vec::new();
    let mut i: usize = 0;
    while i < pieces.len()
        invariant
            i <= pieces@.len(),
            patterns_of(filters@) == texts(pieces@).take(i as int),
        decreases pieces@.len() - i,
    {
        let f = GrepFilter::for_pattern(pieces[i].as_str());
        proof {
            assert(texts(pieces@).take(i + 1) == texts(pieces@).take(i as int).push(
                pieces@[i as int]@,
            ));
        }
        filters.push(f);
        i += 1;
    }
    filters
}

/// The filter of a pattern expression, if the expression has a pattern in
/// it.
pub fn pattern_expr_filter(expr: &str) -> (r: Option<AnyFilter>)
    ensures
        r is Some <==> pattern_fragments(expr@).len() > 0,
        r matches Some(node) ==> is_pattern_filter(node, expr@),
{
    let (pieces, conjunction) = split_patterns(expr);
    let mut nodes: Vec<AnyFilter> = Vec::new();
    let mut i: usize = 0;
    while i < pieces.len()
        invariant
            i <= pieces@.len(),
            are_greps(nodes@, texts(pieces@).take(i as int)),
        decreases pieces@.len() - i,
    {
        nodes.push(AnyFilter::Grep(GrepFilter::for_pattern(pieces[i].as_str())));
        i += 1;
    }
    if nodes.len() == 0 {
        None
    } else if conjunction {
        Some(AnyFilter::And(AndFilter::new(nodes)))
    } else {
        Some(AnyFilter::Or(OrFilter::new(nodes)))
    }
}

/// The filter of a level expression, if the expression has a level in it;
/// the error that names the first level from which no filter can be made.
pub fn level_expr_filter(expr: &str) -> (r: Result<Option<AnyFilter>, FilterError>)
    ensures
        is_build_result(r, None, Some(expr@)),
{
    let chars = to_chars(expr);
    let pieces = split_fragments(&chars, ',');
    let mut nodes: Vec<AnyFilter> = Vec::new();
    let mut i: usize = 0;
    while i < pieces.len()
        invariant
            i <= pieces@.len(),
            texts(pieces@) == level_fragments(expr@),
            are_levels(nodes@, texts(pieces@).take(i as int)),
            all_levels(texts(pieces@).take(i as int)),
        decreases pieces@.len() - i,
    {
        match LevelFilter::new(pieces[i].as_str()) {
            Ok(f) => {
                nodes.push(AnyFilter::Level(f));
            },
            Err(_) => {
                let e = FilterError::InvalidLevel(pieces[i].clone());
                proof {
                    let levels = level_fragments(expr@);
                    assert forall|j: int| 0 <= j < i implies is_level(#[trigger] levels[j]) by {
                        assert(levels[j] == texts(pieces@).take(i as int)[j]);
                    }
                    assert(is_first_bad_level(levels, i as int));
                }
                return Err(e);
            },
        }
        i += 1;
    }
    assert(texts(pieces@).take(pieces@.len() as int) == texts(pieces@));
    if nodes.len() == 0 {
        Ok(None)
    } else {
        Ok(Some(AnyFilter::Or(OrFilter::new(nodes))))
    }
}

/// The filter for a pattern expression and a level expression, where they
/// are given. An error aborts the whole: no part of the filter is made
/// use of.
pub fn build_filter(pattern_expr: Option<&str>, level_expr: Option<&str>) -> (r: Result<
    Option<AnyFilter>,
    FilterError,
>)
    ensures
        is_build_result(
            r,
            match pattern_expr {
                Some(p) => Some(p@),
                None => None,
            },
            match level_expr {
                Some(l) => Some(l@),
                None => None,
            },
        ),
{
    let patterns = match pattern_expr {
        Some(p) => pattern_expr_filter(p),
        None => None,
    };
    let levels = match level_expr {
        Some(l) => match level_expr_filter(l) {
            Ok(node) => node,
            Err(e) => {
                return Err(e);
            },
        },
        None => None,
    };
    match (patterns, levels) {
        (Some(p), Some(l)) => {
            let mut both: Vec<AnyFilter> = Vec::new();
            both.push(p);
            both.push(l);
            Ok(Some(AnyFilter::And(AndFilter::new(both))))
        },
        (Some(p), None) => Ok(Some(p)),
        (None, Some(l)) => Ok(Some(l)),
        (None, None) => Ok(None),
    }
}

/// Whether the pattern expression lets `line` through: all its patterns
/// must match where they are parted by `&`, one of them where they are
/// parted by `,`.
pub open spec fn pattern_expr_accepts(expr: Seq<char>, line: Seq<char>) -> bool {
    let patterns = pattern_fragments(expr);
    if is_conjunction(expr) {
        forall|i: int| 0 <= i < patterns.len() ==> grep_matches(#[trigger] patterns[i], line)
    } else {
        exists|i: int| 0 <= i < patterns.len() && grep_matches(#[trigger] patterns[i], line)
    }
}

/// Whether the level expression lets `line` through: one of its levels
/// must match.
pub open spec fn level_expr_accepts(expr: Seq<char>, line: Seq<char>) -> bool {
    let levels = level_fragments(expr);
    exists|i: int| 0 <= i < levels.len() && level_matches(uppercased(#[trigger] levels[i]), line)
}

/// Whether the two expressions together let `line` through: each that has
/// anything in it must.
pub open spec fn exprs_accept(
    pattern_expr: Option<Seq<char>>,
    level_expr: Option<Seq<char>>,
    line: Seq<char>,
) -> bool {
    &&& has_patterns(pattern_expr) ==> pattern_expr_accepts(pattern_expr->0, line)
    &&& has_levels(level_expr) ==> level_expr_accepts(level_expr->0, line)
}

/// The filter of a pattern expression lets a line through exactly if all
/// its patterns match, where they are parted by `&`, and exactly if one of
/// them matches, where they are parted by `,`.
pub proof fn lemma_pattern_filter_accepts(node: AnyFilter, expr: Seq<char>, line: Seq<char>)
    requires
        is_pattern_filter(node, expr),
    ensures
        node_accepts(&node, line) == pattern_expr_accepts(expr, line),
{
    reveal_with_fuel(node_accepts, 2);
    let patterns = pattern_fragments(expr);
    match node {
        AnyFilter::And(f) => {
            let nodes = f.children();
            assert forall|i: int| 0 <= i < nodes.len() implies node_accepts(
                &#[trigger] nodes[i],
                line,
            ) == grep_matches(patterns[i], line) by {}
        },
        AnyFilter::Or(f) => {
            let nodes = f.children();
            assert forall|i: int| 0 <= i < nodes.len() implies node_accepts(
                &#[trigger] nodes[i],
                line,
            ) == grep_matches(patterns[i], line) by {}
        },
        _ => {},
    }
}

/// The filter of a level expression lets a line through exactly if one of
/// its levels matches.
pub proof fn lemma_level_filter_accepts(node: AnyFilter, expr: Seq<char>, line: Seq<char>)
    requires
        is_level_filter(node, expr),
    ensures
        node_accepts(&node, line) == level_expr_accepts(expr, line),
{
    reveal_with_fuel(node_accepts, 2);
    let levels = level_fragments(expr);
    match node {
        AnyFilter::Or(f) => {
            let nodes = f.children();
            assert forall|i: int| 0 <= i < nodes.len() implies node_accepts(
                &#[trigger] nodes[i],
                line,
            ) == level_matches(uppercased(levels[i]), line) by {}
            if level_expr_accepts(expr, line) {
                let i = choose|i: int|
                    0 <= i < levels.len() && level_matches(
                        uppercased(#[trigger] levels[i]),
                        line,
                    );
                assert(node_accepts(&nodes[i], line));
            }
        },
        _ => {},
    }
}

/// The filter of a pattern expression and a level expression lets a line
/// through exactly if each expression that has anything in it does; where
/// neither has, there is no filter, and every line is let through.
pub proof fn lemma_filter_accepts(
    node: Option<AnyFilter>,
    pattern_expr: Option<Seq<char>>,
    level_expr: Option<Seq<char>>,
    line: Seq<char>,
)
    requires
        is_filter_of(node, pattern_expr, level_expr),
    ensures
        match node {
            Some(n) => node_accepts(&n, line) == exprs_accept(pattern_expr, level_expr, line),
            None => exprs_accept(pattern_expr, level_expr, line),
        },
{
    if has_patterns(pattern_expr) && has_levels(level_expr) {
        let n = node->0;
        match n {
            AnyFilter::And(f) => {
                let nodes = f.children();
                lemma_pattern_filter_accepts(nodes[0], pattern_expr->0, line);
                lemma_level_filter_accepts(nodes[1], level_expr->0, line);
            },
            _ => {},
        }
    } else if has_patterns(pattern_expr) {
        lemma_pattern_filter_accepts(node->0, pattern_expr->0, line);
    } else if has_levels(level_expr) {
        lemma_level_filter_accepts(node->0, level_expr->0, line);
    }
}

} // verus!
