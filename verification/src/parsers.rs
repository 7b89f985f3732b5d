//! The patterns that pick fields out of the helpers' text output.

use vstd::prelude::*;

verus! {

/// The fields that are read from text output.
#[derive(Clone, Copy, Debug, PartialEq, Eq, Structural)]
pub enum Parsers {
    /// The supplicant's state, from its status report.
    WpaState,
    /// The leased address, from the DHCP client's report.
    Ip,
    /// The signal level in dBm, from a scan or link report.
    NetworkQuality,
    /// The capability list, from a scan report.
    NetworkEnc,
    /// The escaped network name, from a scan or link report.
    NetworkEssid,
}

impl Parsers {
    /// The regular expression of the field; its first group is the value.
    pub open spec fn spec_pattern(self) -> Seq<char> {
        match self {
            Parsers::WpaState => r".*wpa_state=(.*?)\n"@,
            Parsers::Ip => r".*leased[^\d]?(.*)?[^ ]* for"@,
            Parsers::NetworkQuality => r".*signal: ([^\.]+)\."@,
            Parsers::NetworkEnc => r".*capability: ([^\n]*)\n"@,
            Parsers::NetworkEssid => r".*SSID: ([^\n]*)\n"@,
        }
    }

    /// The regular expression of the field; its first group is the value.
    pub fn pattern(&self) -> (p: &'static str)
        ensures
            p@ == self.spec_pattern(),
    {
        match self {
            Parsers::WpaState => r".*wpa_state=(.*?)\n",
            Parsers::Ip => r".*leased[^\d]?(.*)?[^ ]* for",
            Parsers::NetworkQuality => r".*signal: ([^\.]+)\.",
            Parsers::NetworkEnc => r".*capability: ([^\n]*)\n",
            Parsers::NetworkEssid => r".*SSID: ([^\n]*)\n",
        }
    }
}

/// What the first group of `pattern` holds in the leftmost match within
/// `text`; `None` where `pattern` is no regular expression, nothing matches
/// or the group takes no part in the match.
pub uninterp spec fn regex_first_group(pattern: Seq<char>, text: Seq<char>) -> Option<Seq<char>>;

/// The characters of an optional string.
pub open spec fn option_text(s: Option<String>) -> Option<Seq<char>> {
    match s {
        Some(s) => Some(s@),
        None => None,
    }
}

/// Compiles `pattern` with `regex::Regex::new`, runs `Regex::captures` on
/// `text` and hands out the text of group 1. The result depends on the two
/// arguments alone; the contract names it and claims nothing else of it. A
/// pattern that `Regex::new` refuses gives `None`.
#[verifier::external_body]
fn first_group(pattern: &str, text: &str) -> (r: Option<String>)
    ensures
        option_text(r) == regex_first_group(pattern@, text@),
{
    match regex::Regex::new(pattern) {
        Ok(re) => re.captures(text).and_then(|caps| caps.get(1)).map(|m| m.as_str().to_owned()),
        Err(_) => None,
    }
}

/// Reads the field `parser` from `text`.
pub fn parse(parser: Parsers, text: &str) -> (r: Option<String>)
    ensures
        option_text(r) == regex_first_group(parser.spec_pattern(), text@),
{
    first_group(parser.pattern(), text)
}

} // verus!
