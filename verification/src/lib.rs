//! Requests to a hosted generative-language API and the decoding of its
//! answers: the request envelope, the endpoint URLs, and a decoder that
//! turns the chunks of a server-sent event stream into text tokens.

pub mod decoder;
pub mod envelope;
pub mod interact;
pub mod json;
pub mod laws;
pub mod prompt;
pub mod stream;
pub mod text;
