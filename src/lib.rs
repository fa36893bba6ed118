//! Indexing text documents into a vector store: the decisions of the
//! load, embed, store and query pipeline, each with its contract.
pub mod collection;
pub mod fanout;
pub mod lines;
pub mod pipeline;
pub mod points;
pub mod search;
