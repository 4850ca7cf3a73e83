//! A conversational assistant for a chat channel, as a library of decisions.
//!
//! Each message is answered from passages that a similarity search found for
//! it: the passages that are relevant enough are appended to the system
//! prompt, a completion is asked for, and the reply goes out in pieces that
//! fit a message. The library decides what is to be done, and in which order;
//! talking to the chat platform, the store and the services is its caller's
//! part.

use vstd::prelude::*;

pub mod chunker;
pub mod json;
pub mod pipeline;
pub mod retriever;
pub mod score;
pub mod state;
