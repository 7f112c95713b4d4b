//! Admission control by proof of work: the puzzle engine, the framing of
//! messages on a stream, and the two sides of the challenge-response exchange.
use vstd::prelude::*;

pub mod framing;
pub mod hashcash;
pub mod word_of_wisdom;

pub use framing::{decode_length, encode_length, frame, unframe, PREFIX_LEN};
pub use hashcash::{leading_zero_nibbles, Hashcash, WorkError};
pub use word_of_wisdom::{
    ClientAction, ClientError, ClientFlow, ClientPhase, Command, Connection, Message,
    ServerAction, ServerConfig, ServerEvent, ServerPhase, MAX_DURATION, MAX_TRIES, ZERO_COUNT,
};

verus! {

} // verus!
