//! Quotes of the members of a community, and who may read and write them.
//!
//! [`auth`] decides whether a request is let through: it takes the token of
//! the request apart, verifies it with the keys of the identity provider,
//! and asks the blocklist and the roles of the user. It does no input or
//! output of its own: where it needs the key set of the provider or the
//! blocklist, it says so, and goes on when the caller has brought them.
//! [`api`] holds the rules for quotes and reports, [`ldap`] the questions
//! that are put to the directory, and [`schema`] the data.

pub mod api;
pub mod auth;
pub mod ldap;
pub mod schema;
pub mod utils;
