//! Which messages the user gets to see.
use crate::text::{join_with, joined_with, texts};
use vstd::prelude::*;

verus! {

/// Shows the messages up to a level.
#[derive(Debug)]
pub struct Logger(u8);

pub const DEBUG: u8 = 3;

pub const VERBOSE: u8 = 2;

pub const STATUS: u8 = 1;

pub const ERROR: u8 = 0;

impl Logger {
    /// The highest level that is shown.
    pub closed spec fn level(self) -> u8 {
        self.0
    }

    /// What is shown of a message at a level: its words with spaces between them, or nothing.
    pub open spec fn shown(self, words: Seq<Seq<char>>, level: u8) -> Option<Seq<char>> {
        if level <= self.level() {
            Some(joined_with(words, seq![' ']))
        } else {
            None
        }
    }

    pub fn new(level: u8) -> (logger: Logger)
        ensures
            logger.level() == level,
    {
        Logger(level)
    }

    /// The notification for a message at a level, if it is to be shown.
    pub fn log(&self, msg: &[&str], level: u8) -> (notification: Option<String>)
        ensures
            match notification {
                Some(text) => self.shown(texts(msg@), level) == Some(text@),
                None => self.shown(texts(msg@), level) is None,
            },
    {
        if level <= self.0 {
            proof {
                reveal_strlit(" ");
                assert(" "@ =~= seq![' ']);
            }
            Some(join_with(msg, " "))
        } else {
            None
        }
    }

    pub fn debug(&self, msg: &[&str]) -> (notification: Option<String>)
        ensures
            match notification {
                Some(text) => self.shown(texts(msg@), DEBUG) == Some(text@),
                None => self.shown(texts(msg@), DEBUG) is None,
            },
    {
        self.log(msg, DEBUG)
    }

    pub fn verbose(&self, msg: &[&str]) -> (notification: Option<String>)
        ensures
            match notification {
                Some(text) => self.shown(texts(msg@), VERBOSE) == Some(text@),
                None => self.shown(texts(msg@), VERBOSE) is None,
            },
    {
        self.log(msg, VERBOSE)
    }

    pub fn status(&self, msg: &[&str]) -> (notification: Option<String>)
        ensures
            match notification {
                Some(text) => self.shown(texts(msg@), STATUS) == Some(text@),
                None => self.shown(texts(msg@), STATUS) is None,
            },
    {
        self.log(msg, STATUS)
    }

    pub fn error(&self, msg: &[&str]) -> (notification: Option<String>)
        ensures
            match notification {
                Some(text) => self.shown(texts(msg@), ERROR) == Some(text@),
                None => self.shown(texts(msg@), ERROR) is None,
            },
    {
        self.log(msg, ERROR)
    }
}

/// A message that is shown at one level is shown, in the same words, at every lower one.
pub proof fn law_lower_levels_are_shown(
    logger: Logger,
    words: Seq<Seq<char>>,
    level: u8,
    lower: u8,
)
    requires
        lower <= level,
        logger.shown(words, level) is Some,
    ensures
        logger.shown(words, lower) == logger.shown(words, level),
{
}

/// Errors are shown whatever the level of the logger.
pub proof fn law_errors_are_always_shown(logger: Logger, words: Seq<Seq<char>>)
    ensures
        logger.shown(words, ERROR) == Some(joined_with(words, seq![' '])),
{
}

/// A message is shown exactly up to the level of the logger, with all its words in their order and
/// a space between them.
pub proof fn law_messages_are_shown_up_to_the_level(
    logger: Logger,
    words: Seq<Seq<char>>,
    level: u8,
)
    ensures
        level <= logger.level() ==> logger.shown(words, level) == Some(
            joined_with(words, seq![' ']),
        ),
        level > logger.level() ==> logger.shown(words, level) is None,
{
}

} // verus!
