//! Sends blocks of audio over a Unix domain socket, without making the audio thread wait.
//!
//! An [`AudioProcessor`] takes blocks of 24-bit PCM on the audio thread and queues them in a
//! lock-free ring. A [`transmitter::Transmitter`] runs on a thread of its own, keeps up a
//! connection to the server, and sends each block as a frame: a length, a header with the
//! block's timestamp, and the audio. Spent buffers go back through a second ring.
//!
//! This crate holds the queues, the frames and the decisions of both threads. Sockets,
//! threads, locks and the C interface belong to the program around it.
pub mod bytes;
pub mod conduct;
pub mod frame;
pub mod guarantees;
pub mod header;
pub mod laws;
pub mod pcm;
pub mod processor;
pub mod ring;
pub mod signal;
pub mod transmitter;

pub use processor::AudioProcessor;
