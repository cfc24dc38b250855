//! A pod of a deployment and the state it is in.

use vstd::prelude::*;
use vstd::utf8::{decode_utf8, encode_utf8, is_ascii_chars, is_char_boundary};

verus! {

/// How many bytes of a pod's name make its short name.
pub const SHORT_NAME_LEN: usize = 8;

/// Whether the short form of `name` is defined: the name is cut after its
/// eighth byte, which must not part a character.
pub open spec fn has_short_form(name: Seq<char>) -> bool {
    encode_utf8(name).len() <= SHORT_NAME_LEN || is_char_boundary(
        encode_utf8(name),
        SHORT_NAME_LEN as int,
    )
}

/// The short form of `name`: the name itself where it has no more than
/// eight bytes, else the characters that its first eight bytes hold.
pub open spec fn short_form(name: Seq<char>) -> Seq<char> {
    if encode_utf8(name).len() <= SHORT_NAME_LEN {
        name
    } else {
        decode_utf8(encode_utf8(name).subrange(0, SHORT_NAME_LEN as int))
    }
}

/// A name of ASCII characters, as the names of pods are, has a short
/// form: the name itself where it has no more than eight characters, else
/// its first eight characters.
pub proof fn lemma_short_form_of_ascii(name: Seq<char>)
    requires
        is_ascii_chars(name),
    ensures
        has_short_form(name),
        short_form(name) == if name.len() <= SHORT_NAME_LEN {
            name
        } else {
            name.subrange(0, SHORT_NAME_LEN as int)
        },
{
    let bytes = encode_utf8(name);
    vstd::utf8::is_ascii_chars_encode_utf8(name);
    vstd::utf8::encode_utf8_valid_utf8(name);
    if name.len() > SHORT_NAME_LEN {
        let cut = SHORT_NAME_LEN as int;
        let head = name.subrange(0, cut);
        vstd::utf8::is_char_boundary_iff_not_is_continuation_byte(bytes, cut);
        vstd::utf8::is_ascii_chars_encode_utf8(head);
        assert(encode_utf8(head) =~= bytes.subrange(0, cut));
        vstd::utf8::encode_utf8_decode_utf8(head);
    }
}

/// Whether the short form of `name` is defined.
pub fn can_shorten(name: &str) -> (b: bool)
    ensures
        b == has_short_form(name@),
{
    name.as_bytes().len() <= SHORT_NAME_LEN || name.is_char_boundary(SHORT_NAME_LEN)
}

/// The short form of `name`.
pub fn shorten(name: &str) -> (short: &str)
    requires
        has_short_form(name@),
    ensures
        short@ == short_form(name@),
{
    if name.as_bytes().len() <= SHORT_NAME_LEN {
        name
    } else {
        let (head, _) = name.split_at(SHORT_NAME_LEN);
        proof {
            vstd::utf8::encode_utf8_decode_utf8(head@);
        }
        head
    }
}

/// The state of a pod, as far as reading its logs is concerned.
#[derive(Debug, Clone, Copy, PartialEq, Eq, Structural)]
pub enum PodStatus {
    Running,
    Pending,
    CrashLoopBackOff,
    Terminated,
    Unknown,
}

impl PodStatus {
    /// The name of the state.
    pub open spec fn name(&self) -> Seq<char> {
        match self {
            PodStatus::Running => "Running"@,
            PodStatus::Pending => "Pending"@,
            PodStatus::CrashLoopBackOff => "CrashLoopBackOff"@,
            PodStatus::Terminated => "Terminated"@,
            PodStatus::Unknown => "Unknown"@,
        }
    }

    /// The name of the state, as it is shown.
    pub fn as_str(&self) -> (s: &'static str)
        ensures
            s@ == self.name(),
    {
        match self {
            PodStatus::Running => "Running",
            PodStatus::Pending => "Pending",
            PodStatus::CrashLoopBackOff => "CrashLoopBackOff",
            PodStatus::Terminated => "Terminated",
            PodStatus::Unknown => "Unknown",
        }
    }

    /// The name of the state, as it is shown.
    pub fn to_string(&self) -> (s: String)
        ensures
            s@ == self.name(),
    {
        self.as_str().to_owned()
    }
}

/// A pod together with the container whose output is read.
#[derive(Debug, Clone)]
pub struct PodInfo {
    /// Pod name
    pub name: String,
    /// Pod namespace
    pub namespace: String,
    /// Pod status
    pub status: PodStatus,
    /// Container name
    pub container_name: String,
}

impl PodInfo {
    /// Whether logs can be read in this state: only a running pod and one
    /// that keeps crashing have output to show.
    pub open spec fn spec_can_get_logs(&self) -> bool {
        self.status == PodStatus::Running || self.status == PodStatus::CrashLoopBackOff
    }

    /// Check if the pod is in a state where logs can be retrieved.
    #[verifier::when_used_as_spec(spec_can_get_logs)]
    pub fn can_get_logs(&self) -> (b: bool)
        ensures
            b == self.spec_can_get_logs(),
    {
        match self.status {
            PodStatus::Running | PodStatus::CrashLoopBackOff => true,
            _ => false,
        }
    }

    /// Get a short name for the pod (its first 8 bytes)
    pub fn short_name(&self) -> (short: String)
        requires
            has_short_form(self.name@),
        ensures
            short@ == short_form(self.name@),
    {
        shorten(self.name.as_str()).to_owned()
    }
}

} // verus!
