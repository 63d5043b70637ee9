//! Search logic of the patent store: query classification, relevance
//! classification and the plan of the database queries to run.
pub mod relevance;
pub mod search;
pub mod version;
