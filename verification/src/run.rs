//! What a run is made of, before anything is read: the pods whose logs are
//! read, the filter, and how entries are shown.

use crate::cli::Args;
use crate::kubernetes::pod::PodInfo;
use crate::log_processor::expression::{
    build_filter, is_build_result, pattern_filters, pattern_fragments, patterns_of,
};
use crate::log_processor::filter::{AnyFilter, FilterError};
use crate::log_processor::formatter::LogFormatter;
use crate::render::{select_mode, Mode};
use vstd::prelude::*;
use vstd::string::StringExecFns;

verus! {

/// Why a run ends before anything is read.
#[derive(Debug, Clone, PartialEq, Eq)]
pub enum RunError {
    /// No pod of the deployment has logs to read.
    NoActivePods(String),
    /// A filter could not be made.
    Filter(FilterError),
}

impl RunError {
    /// The text of the error.
    pub open spec fn message_text(&self) -> Seq<char> {
        match self {
            RunError::NoActivePods(deployment) => "No active pods found for deployment "@
                + deployment@,
            RunError::Filter(e) => e.message_text(),
        }
    }

    /// The text of the error.
    pub fn message(&self) -> (s: String)
        ensures
            s@ == self.message_text(),
    {
        match self {
            RunError::NoActivePods(deployment) => {
                "No active pods found for deployment ".to_owned().concat(deployment.as_str())
            },
            RunError::Filter(e) => e.message(),
        }
    }
}

/// The pods whose logs can be read, in order.
pub open spec fn active(pods: Seq<PodInfo>) -> Seq<PodInfo> {
    pods.filter(|p: PodInfo| p.spec_can_get_logs())
}

/// The pods of the deployment whose logs can be read, in order; the error
/// where there is none.
pub fn select_active(pods: Vec<PodInfo>, deployment: &str) -> (r: Result<Vec<PodInfo>, RunError>)
    ensures
        match r {
            Ok(kept) => kept@ == active(pods@) && kept@.len() > 0,
            Err(RunError::NoActivePods(d)) => active(pods@).len() == 0 && d@ == deployment@,
            Err(RunError::Filter(_)) => false,
        },
{
    let mut kept: Vec<PodInfo> = Vec::new();
    let ghost all = pods@;
    proof {
        reveal(Seq::filter);
    }
    for pod in it: pods
        invariant
            it.seq() == all,
            kept@ == active(all.take(it.index() as int)),
    {
        proof {
            reveal(Seq::filter);
            let k = it.index() as int;
            assert(all.take(k + 1).drop_last() == all.take(k));
        }
        if pod.can_get_logs() {
            kept.push(pod);
        }
    }
    assert(all.take(all.len() as int) == all);
    if kept.len() == 0 {
        Err(RunError::NoActivePods(deployment.to_owned()))
    } else {
        Ok(kept)
    }
}

/// What is set up for a run.
pub struct Plan {
    /// The filter, if there is one.
    pub filter: Option<AnyFilter>,
    /// The formatter, which sets off the matches of the patterns.
    pub formatter: LogFormatter,
    /// How the stream is shown.
    pub mode: Mode,
}

/// The text of an option, if it is given.
pub open spec fn text_of(option: Option<String>) -> Option<Seq<char>> {
    match option {
        Some(s) => Some(s@),
        None => None,
    }
}

/// The patterns whose matches are set off: those of the pattern
/// expression, unless nothing is to be set off.
pub open spec fn highlighted_patterns(args: Args) -> Seq<Seq<char>> {
    match args.grep {
        Some(g) => if args.no_highlight {
            Seq::empty()
        } else {
            pattern_fragments(g@)
        },
        None => Seq::empty(),
    }
}

/// What `plan` returns for the options `args`.
pub open spec fn is_plan_of(r: Result<Plan, RunError>, args: Args) -> bool {
    match r {
        Ok(plan) => {
            &&& is_build_result(Ok(plan.filter), text_of(args.grep), text_of(args.level))
            &&& plan.formatter.wf()
            &&& plan.formatter.prefix_format() is None
            &&& !plan.formatter.hides_prefix()
            &&& plan.formatter.highlights() == !args.no_highlight
            &&& plan.formatter.patterns() == highlighted_patterns(args)
            &&& plan.formatter.assigned().len() == 0
            &&& plan.mode == match args.tail {
                Some(n) => if args.follow {
                    Mode::Stream
                } else {
                    Mode::Tail(n)
                },
                None => Mode::Stream,
            }
        },
        Err(RunError::Filter(e)) => is_build_result(
            Err(e),
            text_of(args.grep),
            text_of(args.level),
        ),
        Err(RunError::NoActivePods(_)) => false,
    }
}

/// Sets up a run from its options: the filter of the two expressions, the
/// formatter with the patterns whose matches are set off, and the mode. An
/// expression that cannot be made into a filter ends the run here.
pub fn plan(args: &Args) -> (r: Result<Plan, RunError>)
    ensures
        is_plan_of(r, *args),
{
    let mut formatter = LogFormatter::new(None, false);
    formatter.set_highlight(!args.no_highlight);
    assert(formatter.patterns() == Seq::<Seq<char>>::empty());
    match &args.grep {
        Some(grep) => {
            if !args.no_highlight {
                let filters = pattern_filters(grep.as_str());
                let ghost patterns = patterns_of(filters@);
                for f in it: filters
                    invariant
                        it.seq() == filters@,
                        patterns == patterns_of(filters@),
                        formatter.wf(),
                        formatter.prefix_format() is None,
                        !formatter.hides_prefix(),
                        formatter.highlights() == !args.no_highlight,
                        formatter.assigned().len() == 0,
                        formatter.patterns() == patterns.take(it.index() as int),
                {
                    formatter.add_grep_filter(f);
                }
                assert(patterns.take(patterns.len() as int) == patterns);
            }
        },
        None => {},
    }
    let grep = match &args.grep {
        Some(g) => Some(g.as_str()),
        None => None,
    };
    let level = match &args.level {
        Some(l) => Some(l.as_str()),
        None => None,
    };
    let built = build_filter(grep, level);
    match built {
        Ok(filter) => Ok(Plan { filter, formatter, mode: select_mode(args.follow, args.tail) }),
        Err(e) => Err(RunError::Filter(e)),
    }
}

} // verus!
