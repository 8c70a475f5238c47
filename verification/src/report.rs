//! Report-side pieces: output language, report errors, and ANSI styling of text.

use vstd::prelude::*;
use crate::text::{decimal, push_decimal, str_eq};

verus! {

/// Report output language.
#[derive(Debug, Clone, Copy, PartialEq, Eq, Structural)]
pub enum Lang {
    Zh,
    En,
}

/// Errors raised when report rendering references missing input/logistics indices.
#[derive(Debug)]
pub enum Error {
    MissingOutpost(u32),
    MissingLogisticsNode { item: u32, node: u32 },
}

/// The human-readable text of a report [`Error`].
pub open spec fn report_error_text(e: Error) -> Seq<char> {
    match e {
        Error::MissingOutpost(i) => "Missing outpost index "@ + decimal(i as nat),
        Error::MissingLogisticsNode { item, node } => "Missing logistics node "@ + decimal(
            node as nat,
        ) + " for item id "@ + decimal(item as nat),
    }
}

impl Error {
    /// The human-readable text of this error.
    pub fn message(&self) -> (r: String)
        ensures
            r@ == report_error_text(*self),
    {
        match self {
            Error::MissingOutpost(i) => {
                let mut s = String::from_str("Missing outpost index ");
                push_decimal(&mut s, *i as u64);
                s
            },
            Error::MissingLogisticsNode { item, node } => {
                let mut s = String::from_str("Missing logistics node ");
                push_decimal(&mut s, *node as u64);
                s.append(" for item id ");
                push_decimal(&mut s, *item as u64);
                s
            },
        }
    }
}

/// The escape sequence for a style code when styling is enabled, and nothing
/// otherwise. Unknown codes give the reset sequence.
pub open spec fn escape_for(enabled: bool, code: Seq<char>) -> Seq<char> {
    if !enabled {
        ""@
    } else if code == "reset"@ {
        "\x1b[0m"@
    } else if code == "dim"@ {
        "\x1b[2m"@
    } else if code == "bold"@ {
        "\x1b[1m"@
    } else if code == "cyan"@ {
        "\x1b[36m"@
    } else if code == "green"@ {
        "\x1b[32m"@
    } else if code == "yellow"@ {
        "\x1b[33m"@
    } else {
        "\x1b[0m"@
    }
}

/// `s` between the escape sequences of `first` and `second`, closed by a reset.
pub open spec fn styled(enabled: bool, first: Seq<char>, second: Seq<char>, s: Seq<char>) -> Seq<char> {
    escape_for(enabled, first) + escape_for(enabled, second) + s + escape_for(enabled, "reset"@)
}

/// ANSI styling of report text, switched on or off as a whole.
#[derive(Debug, Clone, Copy)]
pub struct Ansi {
    enabled: bool,
}

impl Ansi {
    /// Whether styling is on.
    pub closed spec fn is_enabled(self) -> bool {
        self.enabled
    }

    /// Styling switched on or off.
    pub fn new(enabled: bool) -> (r: Self)
        ensures
            r.is_enabled() == enabled,
    {
        Ansi { enabled }
    }

    /// The escape sequence for `code`, or nothing when styling is off.
    pub fn esc(self, code: &str) -> (r: &'static str)
        ensures
            r@ == escape_for(self.is_enabled(), code@),
    {
        if !self.enabled {
            return "";
        }
        if str_eq(code, "reset") {
            "\x1b[0m"
        } else if str_eq(code, "dim") {
            "\x1b[2m"
        } else if str_eq(code, "bold") {
            "\x1b[1m"
        } else if str_eq(code, "cyan") {
            "\x1b[36m"
        } else if str_eq(code, "green") {
            "\x1b[32m"
        } else if str_eq(code, "yellow") {
            "\x1b[33m"
        } else {
            "\x1b[0m"
        }
    }

    fn wrap(self, first: &str, second: &str, s: &str) -> (r: String)
        ensures
            r@ == styled(self.is_enabled(), first@, second@, s@),
    {
        let mut out = String::from_str(self.esc(first));
        out.append(self.esc(second));
        out.append(s);
        out.append(self.esc("reset"));
        out
    }

    /// A heading: bold cyan.
    pub fn h(self, s: &str) -> (r: String)
        ensures
            r@ == styled(self.is_enabled(), "bold"@, "cyan"@, s@),
    {
        self.wrap("bold", "cyan", s)
    }

    /// A good outcome: bold green.
    pub fn good(self, s: &str) -> (r: String)
        ensures
            r@ == styled(self.is_enabled(), "bold"@, "green"@, s@),
    {
        self.wrap("bold", "green", s)
    }

    /// A warning: bold yellow.
    pub fn warn(self, s: &str) -> (r: String)
        ensures
            r@ == styled(self.is_enabled(), "bold"@, "yellow"@, s@),
    {
        self.wrap("bold", "yellow", s)
    }

    /// Secondary text: dim.
    pub fn dim(self, s: &str) -> (r: String)
        ensures
            r@ == escape_for(self.is_enabled(), "dim"@) + s@ + escape_for(self.is_enabled(), "reset"@),
    {
        let mut out = String::from_str(self.esc("dim"));
        out.append(s);
        out.append(self.esc("reset"));
        out
    }
}

/// With styling off, every styled text is the plain text.
pub proof fn law_disabled_styling_is_plain(first: Seq<char>, second: Seq<char>, s: Seq<char>)
    ensures
        styled(false, first, second, s) == s,
{
    reveal_strlit("");
    assert(""@ + ""@ + s + ""@ =~= s);
}

} // verus!
