use crate::style::{has_escape, painted, paint, shown, Style};
use crate::text::{decimal, decimal_text};
use vstd::prelude::*;

verus! {

/// The named severities and their numeric codes.
#[derive(Clone, Copy, Debug, PartialEq, Eq, Structural)]
pub enum Severity {
    Fatal,
    Error,
    Warn,
    Info,
    Debug,
    Trace,
}

pub open spec fn severity_spec(level: u8) -> Option<Severity> {
    if level == 60 {
        Some(Severity::Fatal)
    } else if level == 50 {
        Some(Severity::Error)
    } else if level == 40 {
        Some(Severity::Warn)
    } else if level == 30 {
        Some(Severity::Info)
    } else if level == 20 {
        Some(Severity::Debug)
    } else if level == 10 {
        Some(Severity::Trace)
    } else {
        None
    }
}

/// The five-character label of a severity.
pub open spec fn label_spec(s: Severity) -> Seq<char> {
    match s {
        Severity::Fatal => seq!['F', 'A', 'T', 'A', 'L'],
        Severity::Error => seq!['E', 'R', 'R', 'O', 'R'],
        Severity::Warn => seq![' ', 'W', 'A', 'R', 'N'],
        Severity::Info => seq![' ', 'I', 'N', 'F', 'O'],
        Severity::Debug => seq!['D', 'E', 'B', 'U', 'G'],
        Severity::Trace => seq!['T', 'R', 'A', 'C', 'E'],
    }
}

pub open spec fn style_spec(s: Severity) -> Style {
    match s {
        Severity::Fatal => Style::Reversed,
        Severity::Error => Style::Red,
        Severity::Warn => Style::Yellow,
        Severity::Info => Style::Green,
        Severity::Debug => Style::Blue,
        Severity::Trace => Style::Rgb(128, 128, 128),
    }
}

/// `LVL` followed by the code in decimal.
pub open spec fn unknown_label(level: u8) -> Seq<char> {
    seq!['L', 'V', 'L'] + decimal(level as nat)
}

/// The level token without styling.
pub open spec fn plain_token(level: u8) -> Seq<char> {
    match severity_spec(level) {
        Some(s) => label_spec(s),
        None => unknown_label(level),
    }
}

/// `out` is the level token, styled when `enabled` and the level is known.
pub open spec fn level_shown(level: u8, enabled: bool, out: Seq<char>) -> bool {
    match severity_spec(level) {
        Some(s) => shown(enabled, style_spec(s), label_spec(s), out),
        None => out == unknown_label(level),
    }
}

impl Severity {
    /// The severity of a numeric code, if it names one.
    pub fn from_code(level: u8) -> (r: Option<Severity>)
        ensures
            r == severity_spec(level),
    {
        if level == 60 {
            Some(Severity::Fatal)
        } else if level == 50 {
            Some(Severity::Error)
        } else if level == 40 {
            Some(Severity::Warn)
        } else if level == 30 {
            Some(Severity::Info)
        } else if level == 20 {
            Some(Severity::Debug)
        } else if level == 10 {
            Some(Severity::Trace)
        } else {
            None
        }
    }

    pub fn label(self) -> (r: &'static str)
        ensures
            r@ == label_spec(self),
    {
        proof {
            reveal_strlit("FATAL");
            reveal_strlit("ERROR");
            reveal_strlit(" WARN");
            reveal_strlit(" INFO");
            reveal_strlit("DEBUG");
            reveal_strlit("TRACE");
        }
        match self {
            Severity::Fatal => "FATAL",
            Severity::Error => "ERROR",
            Severity::Warn => " WARN",
            Severity::Info => " INFO",
            Severity::Debug => "DEBUG",
            Severity::Trace => "TRACE",
        }
    }

    pub fn style(self) -> (r: Style)
        ensures
            r == style_spec(self),
    {
        match self {
            Severity::Fatal => Style::Reversed,
            Severity::Error => Style::Red,
            Severity::Warn => Style::Yellow,
            Severity::Info => Style::Green,
            Severity::Debug => Style::Blue,
            Severity::Trace => Style::Rgb(128, 128, 128),
        }
    }
}

proof fn lemma_label_plain(s: Severity)
    ensures
        !has_escape(label_spec(s)),
        label_spec(s).len() == 5,
{
}

/// The level token, styled when `enabled` and the level is a known severity.
pub fn level_token(level: u8, enabled: bool) -> (r: String)
    ensures
        level_shown(level, enabled, r@),
{
    match Severity::from_code(level) {
        Some(s) => {
            proof { lemma_label_plain(s); }
            paint(s.label(), s.style(), enabled)
        },
        None => {
            let digits = decimal_text(level as u64);
            let mut r = String::from_str("LVL");
            r.append(digits.as_str());
            proof { reveal_strlit("LVL"); }
            assert(r@ =~= unknown_label(level));
            r
        },
    }
}

/// The level token in its color: a known severity shows its five-character
/// label, any other code shows as `LVL` and the code.
pub fn format_level(level: u8) -> (r: String)
    ensures
        match severity_spec(level) {
            Some(s) => painted(style_spec(s), label_spec(s), r@),
            None => r@ == unknown_label(level),
        },
{
    level_token(level, true)
}

} // verus!
