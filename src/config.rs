//! The settings of one search, built from the command-line arguments and the
//! state of the case-sensitivity switch.

use vstd::prelude::*;

use crate::text::chars_of;

verus! {

/// What one run searches for, where, and how it prints the result.
pub struct Config {
    /// The text searched for.
    pub query: String,
    /// The file searched.
    pub filename: String,
    /// Whether letter case matters in the comparison.
    pub case_sensitive: bool,
    /// Whether each printed line is preceded by its line number.
    pub ln: bool,
}

/// Whether `arg` is the option that turns line numbers on.
pub fn is_line_number_flag(arg: &str) -> (r: bool)
    ensures
        r == (arg@ == "ln"@),
{
    proof {
        reveal_strlit("ln");
    }
    let cs = chars_of(arg);
    if cs.len() == 2 && cs[0] == 'l' && cs[1] == 'n' {
        assert(arg@ =~= "ln"@);
        true
    } else {
        assert(arg@.len() != 2 || arg@[0] != 'l' || arg@[1] != 'n');
        false
    }
}

impl Config {
    /// Builds the settings from the arguments that follow the program name
    /// (the query, the file name, and optionally `ln`) and from whether the
    /// case-sensitivity switch is set. A third argument other than `ln` is
    /// ignored; further arguments are ignored too.
    pub fn new(args: Vec<String>, case_sensitive: bool) -> (r: Result<Config, &'static str>)
        ensures
            args@.len() == 0 ==> (r matches Err(e) && e@ == "no query"@),
            args@.len() == 1 ==> (r matches Err(e) && e@ == "no filename"@),
            args@.len() >= 2 ==> (r matches Ok(c) && c.query@ == args@[0]@ && c.filename@
                == args@[1]@ && c.case_sensitive == case_sensitive && c.ln == (args@.len() >= 3
                && args@[2]@ == "ln"@)),
    {
        if args.len() == 0 {
            return Err("no query");
        }
        if args.len() == 1 {
            return Err("no filename");
        }
        let query = args[0].clone();
        let filename = args[1].clone();
        let ln = if args.len() >= 3 {
            is_line_number_flag(args[2].as_str())
        } else {
            false
        };
        Ok(Config { query, filename, case_sensitive, ln })
    }
}

} // verus!
