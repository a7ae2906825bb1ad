//! Settings taken from the command line.

use vstd::prelude::*;

use crate::text::{append, lower_of, text_eq};

verus! {

/// A three-way switch: on, off, or decided from the terminal.
#[derive(Debug, PartialEq, Eq, Structural, Clone, Copy)]
pub enum Flag {
    True,
    False,
    Auto,
}

impl Flag {
    /// The switch a word names, in any case: `true`/`on`, `false`/`off`, or
    /// `auto`.
    pub fn parse(s: &str) -> (r: Result<Flag, String>)
        ensures
            ({
                let l = lower_of(s@);
                if l == "true"@ || l == "on"@ {
                    r == Ok::<Flag, String>(Flag::True)
                } else if l == "false"@ || l == "off"@ {
                    r == Ok::<Flag, String>(Flag::False)
                } else if l == "auto"@ {
                    r == Ok::<Flag, String>(Flag::Auto)
                } else {
                    r matches Err(e) && e@ == "Unrecognized option "@ + s@
                }
            }),
    {
        let l = s.to_lowercase();
        let l = l.as_str();
        if text_eq(l, "true") || text_eq(l, "on") {
            Ok(Flag::True)
        } else if text_eq(l, "false") || text_eq(l, "off") {
            Ok(Flag::False)
        } else if text_eq(l, "auto") {
            Ok(Flag::Auto)
        } else {
            let mut e = String::new();
            append(&mut e, "Unrecognized option ");
            append(&mut e, s);
            Err(e)
        }
    }
}

impl std::str::FromStr for Flag {
    type Err = String;

    fn from_str(s: &str) -> Result<Flag, String> {
        Flag::parse(s)
    }
}

/// The settings of a run: how much to log, whether to print debug
/// information, and whether to use colors.
#[derive(Debug, Clone, Copy)]
pub struct Config {
    pub verbosity_level: u8,
    pub print_dbg: bool,
    pub colors: Flag,
}

impl Config {
    /// Whether prompts use the colorful theme: unless colors are switched
    /// off.
    pub fn colorful(&self) -> (r: bool)
        ensures
            r == (self.colors != Flag::False),
    {
        match self.colors {
            Flag::False => false,
            _ => true,
        }
    }
}

} // verus!
