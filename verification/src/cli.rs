//! Plain models of the command line's listing arguments. The stringly
//! arguments are validated once, at the boundary, and the core receives
//! typed values.

use crate::scheme::LuminanceFilter;
use vstd::prelude::*;

verus! {

/// Output format for printing listing results.
#[derive(Clone, Copy, PartialEq, Eq, Structural, Debug)]
pub enum Output {
    Json,
}

/// Specifies the output format for printing results.
pub struct OutputArg {
    pub output: Option<Output>,
}

/// Specific theme luminance to filter, as the word given on the command
/// line: `all`, `dark` or `light`.
pub struct LuminanceArg {
    pub luminance: String,
}

impl LuminanceArg {
    /// The validated filter this argument selects: any word other than
    /// `dark` or `light` selects no filtering.
    pub fn filter(&self) -> (r: LuminanceFilter)
        ensures
            self.luminance@ == "dark"@ ==> r is Dark,
            self.luminance@ == "light"@ ==> r is Light,
            self.luminance@ != "dark"@ && self.luminance@ != "light"@ ==> r is All,
    {
        LuminanceFilter::from_arg(self.luminance.as_str())
    }
}

/// Scheme name or glob pattern to match when showing schemes. If omitted,
/// every installed scheme matches.
pub struct PatternArg {
    pub pattern: Option<Vec<String>>,
}

impl PatternArg {
    /// The patterns to search with: those given, or the match-all pattern.
    pub fn patterns(self) -> (r: Vec<String>)
        ensures
            match self.pattern {
                Some(ps) => r == ps,
                None => r@.len() == 1 && r@[0]@ == "*"@,
            },
    {
        match self.pattern {
            Some(ps) => ps,
            None => {
                let mut v: Vec<String> = Vec::new();
                v.push(crate::text::str_copy("*"));
                v
            },
        }
    }
}

/// The listing subcommands.
pub enum ListCommand {
    /// List all matching templates.
    Templates { lines: bool, output_arg: OutputArg, pattern_arg: PatternArg },
    /// List all matching schemes.
    Schemes {
        lines: bool,
        output_arg: OutputArg,
        pattern_arg: PatternArg,
        luminance_arg: LuminanceArg,
    },
}

} // verus!
