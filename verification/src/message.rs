//! What the session tells the program that runs it.
use vstd::prelude::*;

verus! {

/// A message to the main thread.
#[derive(Debug, PartialEq)]
pub enum Message {
    Notify(String),
    AddBook(Vec<u8>),
    /// The session is over.
    Exit,
}

} // verus!
