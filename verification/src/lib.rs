//! Word-sense disambiguation support: the word2vec binary embedding format,
//! the selection rules of the vector-based disambiguator, the option and
//! protocol data types and the decisions of the server loop.

pub mod options;
pub mod text;
pub mod w2v;
pub mod wsd;
pub mod protocol;
pub mod server;
