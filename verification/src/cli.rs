//! The options of a run.

use vstd::prelude::*;

verus! {

/// The options of a run: which logs are read and how they are shown.
#[derive(Debug, Clone)]
pub struct Args {
    /// Namespace to use
    pub namespace: String,
    /// Deployment to get logs from
    pub deployment: String,
    /// Follow logs
    pub follow: bool,
    /// Grep pattern to filter logs. Several patterns are parted by `,`,
    /// and one of them must match; or by `&`, and all must match.
    pub grep: Option<String>,
    /// Number of log entries to display (tail mode)
    pub tail: Option<usize>,
    /// Filter logs by level. Several levels are parted by `,`, and one of
    /// them must match.
    pub level: Option<String>,
    /// No longer used: an `&` between the patterns has taken its place.
    pub and: bool,
    /// Disable highlighting of matched keywords in grep results
    pub no_highlight: bool,
}

impl Args {
    /// The options for a deployment where nothing else is asked for: the
    /// namespace `default`, logs not followed, no filter, no limit, and
    /// matches set off.
    pub fn for_deployment(deployment: String) -> (args: Self)
        ensures
            args.namespace@ == "default"@,
            args.deployment == deployment,
            !args.follow,
            args.grep is None,
            args.tail is None,
            args.level is None,
            !args.and,
            !args.no_highlight,
    {
        Args {
            namespace: "default".to_owned(),
            deployment,
            follow: false,
            grep: None,
            tail: None,
            level: None,
            and: false,
            no_highlight: false,
        }
    }
}

} // verus!
