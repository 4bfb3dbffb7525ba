//! Decisions of a fetch-and-extract pipeline: a remote zip archive is streamed
//! to a temporary file, unpacked into a target directory that is replaced as a
//! whole, and the temporary file is removed afterwards.
//!
//! Every operation is a step function from the operation's state and the
//! outcome of the last requested action to the next state and the next action.
//! The host program performs the actions (network, file system) and feeds
//! their outcomes back; the steps themselves touch nothing. Beside them stand
//! the reading of an archive that is held in memory ([`archive`]) and the two
//! questions that the library puts to the machine itself ([`host`]).

pub mod archive;
pub mod extract;
pub mod failure;
pub mod fetch;
pub mod host;
pub mod path;
pub mod pipeline;
pub mod progress;
pub mod repair;
