//! The parameters of one search, and how they are read from the arguments.
use vstd::prelude::*;
use vstd::string::*;

verus! {

/// The environment variable whose presence, with any value, selects
/// case-insensitive matching.
pub const CASE_INSENSITIVE_VAR: &'static str = "CASE_INSENSITIVE";

/// The parameters of one search.
#[derive(Debug, PartialEq, Eq)]
pub struct Config {
    pub query: String,
    pub filename: String,
    pub case_sensitive: bool,
}

/// Why a search could not be carried out.
#[derive(Debug, PartialEq, Eq)]
pub enum SearchError {
    /// Too few arguments; the message names the program and its usage.
    Usage { message: String },
    /// The file could not be read; the cause is the system's report.
    Io { cause: String },
}

/// The name the program was invoked under: the first argument, or nothing.
pub open spec fn program_name(args: Seq<String>) -> Seq<char> {
    if args.len() > 0 {
        args[0]@
    } else {
        Seq::empty()
    }
}

/// The usage line shown to someone who gave too few arguments.
pub open spec fn usage_message(program: Seq<char>) -> Seq<char> {
    "Usage: "@ + program + " <query> <filename>"@
}

impl Config {
    /// Reads the query and the file name from `args` (the program name, the
    /// query, the file name, then anything else, which is ignored).
    /// `insensitive_var_present` tells whether the environment holds
    /// `CASE_INSENSITIVE_VAR`; matching is case-sensitive exactly when it
    /// does not.
    pub fn new(args: &[String], insensitive_var_present: bool) -> (r: Result<Config, SearchError>)
        ensures
            r is Ok <==> args@.len() >= 3,
            r matches Ok(c) ==> {
                &&& c.query@ == args@[1]@
                &&& c.filename@ == args@[2]@
                &&& c.case_sensitive == !insensitive_var_present
            },
            r matches Err(e) ==> (e matches SearchError::Usage { message } && message@
                == usage_message(program_name(args@))),
    {
        if args.len() < 3 {
            let mut message = String::from_str("Usage: ");
            if args.len() > 0 {
                message.append(args[0].as_str());
            }
            message.append(" <query> <filename>");
            proof {
                assert(message@ =~= usage_message(program_name(args@)));
            }
            return Err(SearchError::Usage { message });
        }
        Ok(Config {
            query: args[1].clone(),
            filename: args[2].clone(),
            case_sensitive: !insensitive_var_present,
        })
    }
}

} // verus!
