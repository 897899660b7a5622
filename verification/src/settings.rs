//! What the user can set.
use crate::discovery::ServerAddress;
use vstd::prelude::*;

verus! {

/// The settings of the client.
#[derive(Debug)]
pub struct Settings {
    /// Where calibre is; searched for where it is not set.
    pub host: Option<ServerAddress>,
    pub password: Option<String>,
    /// The level up to which messages are shown.
    pub log: u8,
}

impl Default for Settings {
    fn default() -> (settings: Settings)
        ensures
            settings.host is None,
            settings.password is None,
            settings.log == 0,
    {
        Settings { host: None, password: None, log: 0 }
    }
}

/// The level up to which messages are shown where none is set.
pub fn one() -> (level: u8)
    ensures
        level == 1,
{
    1
}

impl Settings {
    /// The settings that a file stands for, given the entries that it has.
    pub fn from_entries(
        host: Option<ServerAddress>,
        password: Option<String>,
        log: Option<u8>,
    ) -> (settings: Settings)
        ensures
            settings.host == host,
            settings.password == password,
            log matches Some(level) ==> settings.log == level,
            log is None ==> settings.log == 1,
    {
        let level: u8 = match log {
            Some(level) => level,
            None => one(),
        };
        Settings { host, password, log: level }
    }
}

} // verus!
