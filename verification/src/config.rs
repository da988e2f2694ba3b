use vstd::prelude::*;
use vstd::string::*;

verus! {

/// Search configuration gathered from the command line and the environment.
///
/// `case_sensitive` selects the matching strategy.  When it is `true` the
/// query is matched as a literal substring with ASCII case ignored; when it
/// is `false` the query is compiled as a regular expression and matched
/// case-sensitively.  The flag is set exactly when the environment toggle
/// `CASE_INSENSITIVE` is present, so the toggle's presence selects the
/// case-insensitive literal mode.
#[derive(Debug, Clone)]
pub struct Config {
    pub query: String,
    pub filename: String,
    pub case_sensitive: bool,
}

/// A configuration could not be built from the process inputs.
#[derive(Debug, Clone, Copy, PartialEq, Eq, Structural)]
pub enum ConfigError {
    /// No query argument was given.
    MissingQuery,
    /// A query was given but no file path.
    MissingFilename,
}

impl Config {
    /// Builds a configuration from the argument vector (whose first element
    /// is the program name) and from whether the `CASE_INSENSITIVE`
    /// environment toggle is present.  The query and the file path are the
    /// first and second positional arguments; whichever is missing is named
    /// in the error.
    pub fn new(args: &Vec<String>, case_insensitive: bool) -> (r: Result<Config, ConfigError>)
        ensures
            args@.len() >= 3 ==> (r matches Ok(c) && c.query@ == args@[1]@ && c.filename@
                == args@[2]@ && c.case_sensitive == case_insensitive),
            args@.len() < 2 ==> r == Err::<Config, ConfigError>(ConfigError::MissingQuery),
            args@.len() == 2 ==> r == Err::<Config, ConfigError>(ConfigError::MissingFilename),
    {
        if args.len() < 2 {
            Err(ConfigError::MissingQuery)
        } else if args.len() < 3 {
            Err(ConfigError::MissingFilename)
        } else {
            Ok(
                Config {
                    query: args[1].clone(),
                    filename: args[2].clone(),
                    case_sensitive: case_insensitive,
                },
            )
        }
    }

    /// The description the tool shows for a configuration: the query and the
    /// file path, each labelled.
    pub fn describe(&self) -> (r: String)
        ensures
            r@ == "Query: '"@ + self.query@ + "' \nFile: "@ + self.filename@,
    {
        let mut r = String::from_str("Query: '");
        r.append(self.query.as_str());
        r.append("' \nFile: ");
        r.append(self.filename.as_str());
        r
    }
}

} // verus!
