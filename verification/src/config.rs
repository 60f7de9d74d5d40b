//! The configuration that the bridge is started with. It is loaded once by
//! the caller and never changed afterwards.

use vstd::prelude::*;

verus! {

/// Where the bridge listens and where it writes.
#[derive(Clone, Debug)]
pub struct Configuration {
    /// Endpoint of the message bus, as a URL.
    pub mqtt_url: String,
    /// The one topic that is subscribed to.
    pub mqtt_topic: String,
    /// Endpoint of the time-series store, as a URL.
    pub influx_url: String,
    /// Database of the store that the readings go to.
    pub influx_db: String,
}

/// Seconds between two keep-alive messages on the bus connection.
pub const KEEP_ALIVE_SECS: u64 = 5;

/// How many requests to the bus may wait to be sent.
pub const REQUEST_CAPACITY: usize = 10;

/// The command line holds more than the one optional path, or not even the
/// program's name.
#[derive(Clone, Copy, Debug, PartialEq, Eq, Structural)]
pub struct UsageError;

/// The path that the configuration is read from when none is given.
pub open spec fn default_config_path() -> Seq<char> {
    "/etc/staten_config.json"@
}

/// The configuration path that a command line selects. `args` starts with
/// the program's name.
pub open spec fn config_path_of(args: Seq<Seq<char>>) -> Result<Seq<char>, UsageError> {
    if args.len() == 1 {
        Ok(default_config_path())
    } else if args.len() == 2 {
        Ok(args[1])
    } else {
        Err(UsageError)
    }
}

/// Selects the path of the configuration file: the fixed default, or the
/// single argument that overrides it.
pub fn config_path(args: &Vec<String>) -> (r: Result<String, UsageError>)
    ensures
        match r {
            Ok(path) => config_path_of(args@.map_values(|s: String| s@)) == Ok::<
                Seq<char>,
                UsageError,
            >(path@),
            Err(e) => config_path_of(args@.map_values(|s: String| s@)) == Err::<
                Seq<char>,
                UsageError,
            >(e),
        },
{
    if args.len() == 1 {
        Ok("/etc/staten_config.json".to_owned())
    } else if args.len() == 2 {
        Ok(args[1].clone())
    } else {
        Err(UsageError)
    }
}

} // verus!
