//! A conversational coding-assistant core: the chat transcript, the wire shape of
//! its messages, the reassembly of a streamed model answer, the tool dispatch loop
//! and the re-segmentation of streamed text at code fences.
//!
//! The library decides and computes; it neither sends a request nor touches a
//! file. [`codr`] gives the turn as steps, [`client`] the requests and the meaning
//! of replies, [`stream`] the events of a streamed answer, [`fence`] the prose and
//! code segments of its text, [`tools`] the file tools and what their calls ask
//! for, [`openai`] and [`wire`] the conversation's data and its JSON shape, and
//! [`json`] and [`jsonio`] JSON documents and their text.

pub mod client;
pub mod codr;
pub mod error;
pub mod fence;
pub mod json;
pub mod jsonio;
pub mod openai;
pub mod stream;
pub mod tools;
pub mod wire;
