//! The `run` subcommand's arguments.  The wiring of the external services
//! (configuration file, database, relay client, the asynchronous tasks)
//! lives outside this crate; the library holds only the argument data.

use vstd::prelude::*;
use vstd::string::StringExecFns;

verus! {

/// Arguments of the subcommand that runs the agent.
pub struct RunSubcommand {
    /// Path to the configuration file.
    pub config_file_path: String,
}

impl RunSubcommand {
    /// The subcommand with an explicit configuration file path.
    pub fn new(config_file_path: String) -> (r: RunSubcommand)
        ensures
            r.config_file_path@ == config_file_path@,
    {
        RunSubcommand { config_file_path }
    }

    /// The subcommand with the conventional configuration file path.
    pub fn with_default_path() -> (r: RunSubcommand)
        ensures
            r.config_file_path@ == "haiku.toml"@,
    {
        RunSubcommand { config_file_path: String::from_str("haiku.toml") }
    }
}

} // verus!
