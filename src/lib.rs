//! An in-memory store of user records with verified create, read, update and
//! delete operations, and the request-level logic of a small HTTP service
//! built on it.

mod handlers;
mod ids;
pub mod laws;
pub mod model;
mod store;

pub use handlers::{create_user, delete_user, get_user, get_users, update_user, Reply};
pub use ids::{fresh_id, holds_id, parse_user_id};
pub use store::{StoreError, User, UserStore};
