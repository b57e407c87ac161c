//! Errors of the channel-spec language.

use vstd::prelude::*;
use crate::text::push_str;

verus! {

/// Why a `--ch` spec was refused.
#[derive(Debug, Clone, PartialEq, Eq)]
pub enum ChannelSpecError {
    /// A `key=value` pair with an empty key.
    EmptyKey,
    /// A key the language does not know.
    UnknownKey(String),
    /// A required key is absent.
    MissingKey(&'static str),
    /// A value that does not parse or is out of range for its key.
    BadValue(&'static str, String),
    /// `dev=audio` is not supported by the spec language yet.
    AudioDeferred,
    /// The text is not a `key=value,...` list.
    Malformed(String),
}

/// The mathematical form of a [`ChannelSpecError`].
pub enum SpecErrV {
    EmptyKey,
    UnknownKey(Seq<char>),
    MissingKey(Seq<char>),
    BadValue(Seq<char>, Seq<char>),
    AudioDeferred,
    Malformed(Seq<char>),
}

impl View for ChannelSpecError {
    type V = SpecErrV;

    open spec fn view(&self) -> SpecErrV {
        match self {
            ChannelSpecError::EmptyKey => SpecErrV::EmptyKey,
            ChannelSpecError::UnknownKey(k) => SpecErrV::UnknownKey(k@),
            ChannelSpecError::MissingKey(k) => SpecErrV::MissingKey(k@),
            ChannelSpecError::BadValue(k, v) => SpecErrV::BadValue(k@, v@),
            ChannelSpecError::AudioDeferred => SpecErrV::AudioDeferred,
            ChannelSpecError::Malformed(m) => SpecErrV::Malformed(m@),
        }
    }
}

/// The message of a spec error.
pub open spec fn spec_error_text(e: SpecErrV) -> Seq<char> {
    match e {
        SpecErrV::EmptyKey => "channel spec: empty key"@,
        SpecErrV::UnknownKey(k) => "channel spec: unknown key `"@ + k + "`"@,
        SpecErrV::MissingKey(k) => "channel spec: missing `"@ + k + "`"@,
        SpecErrV::BadValue(k, v) => "channel spec: bad value for `"@ + k + "`: "@ + v,
        SpecErrV::AudioDeferred => "channel spec: dev=audio requires v0.4 (out/audio)"@,
        SpecErrV::Malformed(m) => "channel spec: malformed (expected `key=val,...`): "@ + m,
    }
}

impl ChannelSpecError {
    /// The human-readable message.
    pub fn to_string(&self) -> (s: String)
        ensures
            s@ == spec_error_text(self@),
    {
        let mut s = String::new();
        match self {
            ChannelSpecError::EmptyKey => push_str(&mut s, "channel spec: empty key"),
            ChannelSpecError::UnknownKey(k) => {
                push_str(&mut s, "channel spec: unknown key `");
                push_str(&mut s, k.as_str());
                push_str(&mut s, "`");
            },
            ChannelSpecError::MissingKey(k) => {
                push_str(&mut s, "channel spec: missing `");
                push_str(&mut s, k);
                push_str(&mut s, "`");
            },
            ChannelSpecError::BadValue(k, v) => {
                push_str(&mut s, "channel spec: bad value for `");
                push_str(&mut s, k);
                push_str(&mut s, "`: ");
                push_str(&mut s, v.as_str());
            },
            ChannelSpecError::AudioDeferred => push_str(
                &mut s,
                "channel spec: dev=audio requires v0.4 (out/audio)",
            ),
            ChannelSpecError::Malformed(m) => {
                push_str(&mut s, "channel spec: malformed (expected `key=val,...`): ");
                push_str(&mut s, m.as_str());
            },
        }
        s
    }
}

} // verus!
