//! The parameters of one run, checked once when they are built.
use vstd::prelude::*;

verus! {

/// Why the arguments of a run could not be made into a `Config`.
#[derive(Debug, Clone, Copy, PartialEq, Eq, Structural)]
pub enum ConfigError {
    /// No query was given.
    MissingQuery,
    /// A query was given but no file name.
    MissingPath,
}

impl ConfigError {
    /// A line that tells the user what is missing.
    pub fn message(&self) -> (r: &'static str)
        ensures
            r@ == match self {
                ConfigError::MissingQuery => "Didn't get a query string"@,
                ConfigError::MissingPath => "Didn't get a file name"@,
            },
    {
        proof {
            reveal_strlit("Didn't get a query string");
            reveal_strlit("Didn't get a file name");
        }
        match self {
            ConfigError::MissingQuery => "Didn't get a query string",
            ConfigError::MissingPath => "Didn't get a file name",
        }
    }
}

/// The query, the file to search and whether case matters.
pub struct Config {
    pub query: String,
    pub filename: String,
    pub case_sensitive: bool,
}

impl Config {
    /// Builds the parameters from the command line `args` (the program's own
    /// name first, then the query, then the file name; later ones are not
    /// read) and from whether the signal to ignore case was given.
    pub fn new(args: &Vec<String>, ignore_case_signal: bool) -> (r: Result<Config, ConfigError>)
        ensures
            args@.len() < 2 ==> r == Err::<Config, ConfigError>(ConfigError::MissingQuery),
            args@.len() == 2 ==> r == Err::<Config, ConfigError>(ConfigError::MissingPath),
            args@.len() >= 3 ==> (r matches Ok(c) && c.query@ == args@[1]@ && c.filename@
                == args@[2]@ && c.case_sensitive == !ignore_case_signal),
    {
        if args.len() < 2 {
            return Err(ConfigError::MissingQuery);
        }
        let query = args[1].clone();
        if args.len() < 3 {
            return Err(ConfigError::MissingPath);
        }
        let filename = args[2].clone();
        let case_sensitive = !ignore_case_signal;
        Ok(Config { query, filename, case_sensitive })
    }
}

} // verus!
