//! What holds of the library as a whole.
pub mod answers;
pub mod checklists;
pub mod deletions;
pub mod dependencies;
pub mod documents;
pub mod filters;
pub mod ids;
pub mod labels;
pub mod listings;
pub mod methods;
pub mod names;
pub mod patches;
pub mod priorities;
pub mod refusals;
pub mod requests;
pub mod routes;
pub mod sequences;
pub mod settings;
pub mod statuses;
pub mod subjects;
pub mod traffic;
pub mod updates;
pub mod verbs;
pub mod views;
