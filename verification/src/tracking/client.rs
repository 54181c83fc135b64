//! The kinds of tracking source.

use crate::text::{same, to_chars};
use vstd::prelude::*;
use vstd::string::StringExecFns;

verus! {

/// Which tracking source to listen to.
#[derive(PartialEq, Eq, Structural, Debug, Clone, Copy)]
pub enum TrackingClientType {
    VTubeStudio,
    IFacialMocap,
}

impl Default for TrackingClientType {
    fn default() -> (kind: Self)
        ensures
            kind == TrackingClientType::VTubeStudio,
    {
        TrackingClientType::VTubeStudio
    }
}

impl TrackingClientType {
    /// The name of the source as it is shown.
    pub open spec fn label(self) -> Seq<char> {
        match self {
            TrackingClientType::VTubeStudio => "VTubeStudio"@,
            TrackingClientType::IFacialMocap => "iFacialMocap"@,
        }
    }

    /// The name of the source as it is shown.
    pub fn to_string(&self) -> (name: String)
        ensures
            name@ == self.label(),
    {
        match self {
            TrackingClientType::VTubeStudio => String::from_str("VTubeStudio"),
            TrackingClientType::IFacialMocap => String::from_str("iFacialMocap"),
        }
    }
}

/// A text in lower case: what `str::to_lowercase` yields.
pub uninterp spec fn lowercase_of(text: Seq<char>) -> Seq<char>;

/// `str::to_lowercase`: the standard library's lower-case mapping of a
/// text, named here by [`lowercase_of`].
#[verifier::external_body]
fn lowercase(text: &str) -> (lower: String)
    ensures
        lower@ == lowercase_of(text@),
{
    text.to_lowercase()
}

/// The source that a word names, whatever its case: `vts` or `vtubestudio`
/// for the one, `ifm` or `ifacialmocap` for the other.
pub open spec fn named_client(input: Seq<char>) -> Option<TrackingClientType> {
    let word = lowercase_of(input);
    if word == "vts"@ || word == "vtubestudio"@ {
        Some(TrackingClientType::VTubeStudio)
    } else if word == "ifm"@ || word == "ifacialmocap"@ {
        Some(TrackingClientType::IFacialMocap)
    } else {
        None
    }
}

fn is_word(text: &[char], word: &str) -> (equal: bool)
    ensures
        equal == (text@ == word@),
{
    let chars = to_chars(word);
    same(text, chars.as_slice())
}

/// Reads the name of a tracking source. Any other word is turned down with
/// a message that repeats it.
pub fn parse_tracking_client_type(input: &str) -> (kind: Result<TrackingClientType, String>)
    ensures
        match kind {
            Ok(k) => named_client(input@) == Some(k),
            Err(message) => named_client(input@) is None && message@
                == "Invalid tracking client type: "@ + input@,
        },
{
    let lower = lowercase(input);
    let word = to_chars(lower.as_str());
    if is_word(word.as_slice(), "vts") || is_word(word.as_slice(), "vtubestudio") {
        Ok(TrackingClientType::VTubeStudio)
    } else if is_word(word.as_slice(), "ifm") || is_word(word.as_slice(), "ifacialmocap") {
        Ok(TrackingClientType::IFacialMocap)
    } else {
        Err(String::from_str("Invalid tracking client type: ").concat(input))
    }
}

} // verus!
