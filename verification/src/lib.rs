//! Verified core of the Dr Write actor: storage keys, folder and DOI records,
//! the crossref metadata extraction, request routing and the decisions that the
//! actor takes between its key-value and HTTP calls.

pub mod text;
pub mod keys;
pub mod json;
pub mod codec;
pub mod shape;
pub mod textmap;
pub mod doi;
pub mod folder;
pub mod requests;
pub mod store;
pub mod flow;
pub mod web;
