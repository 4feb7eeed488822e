use crate::ids::{parse_user_id, uuid_from_text};
use crate::model::{deleted, has_id, lookup, updated, UserModel};
use crate::store::{User, UserStore};
use vstd::prelude::*;

verus! {

/// The outcome of a request, before it is written out as an HTTP response.
#[derive(Debug)]
pub enum Reply {
    /// A record was created (201).
    Created(User),
    /// One record (200).
    Record(User),
    /// Every record (200).
    Records(Vec<User>),
    /// Done, with nothing to return (204).
    NoContent,
    /// No record carries the requested identifier (404).
    NotFound,
    /// The identifier in the path is malformed (400).
    BadRequest,
}

impl Reply {
    /// The HTTP status code of this outcome.
    pub fn status(&self) -> (r: u16)
        ensures
            r == match self {
                Reply::Created(_) => 201u16,
                Reply::Record(_) | Reply::Records(_) => 200u16,
                Reply::NoContent => 204u16,
                Reply::NotFound => 404u16,
                Reply::BadRequest => 400u16,
            },
    {
        match self {
            Reply::Created(_) => 201,
            Reply::Record(_) | Reply::Records(_) => 200,
            Reply::NoContent => 204,
            Reply::NotFound => 404,
            Reply::BadRequest => 400,
        }
    }
}

/// `POST /users`: creates a record from a decoded body.
pub fn create_user(store: &mut UserStore, name: String, email: String) -> (r: Reply)
    requires
        old(store).wf(),
    ensures
        final(store).wf(),
        r matches Reply::Created(u) && {
            &&& !old(store).issued().contains(u.id)
            &&& u@.name == name@
            &&& u@.email == email@
            &&& final(store)@ == old(store)@.push(u@)
            &&& final(store).issued() == old(store).issued().insert(u.id)
        },
{
    Reply::Created(store.create(name, email))
}

/// `GET /users`: every record, in the order of creation.
pub fn get_users(store: &UserStore) -> (r: Reply)
    ensures
        r matches Reply::Records(v) && v@.map_values(|u: User| u@) == store@,
{
    Reply::Records(store.list())
}

/// `GET /users/{id}`: the record whose identifier `id_text` writes.
pub fn get_user(store: &UserStore, id_text: &str) -> (r: Reply)
    requires
        store.wf(),
    ensures
        match uuid_from_text(id_text@) {
            None => r is BadRequest,
            Some(id) => match lookup(store@, id) {
                Some(u) => r matches Reply::Record(x) && x@ == u,
                None => r is NotFound,
            },
        },
{
    match parse_user_id(id_text) {
        None => Reply::BadRequest,
        Some(id) => match store.get(id) {
            Ok(u) => Reply::Record(u),
            Err(_) => Reply::NotFound,
        },
    }
}

/// `PUT /users/{id}`: gives the record whose identifier `id_text` writes the
/// new name and email.
pub fn update_user(store: &mut UserStore, id_text: &str, name: String, email: String) -> (r: Reply)
    requires
        old(store).wf(),
    ensures
        final(store).wf(),
        final(store).issued() == old(store).issued(),
        match uuid_from_text(id_text@) {
            None => r is BadRequest && final(store)@ == old(store)@,
            Some(id) => {
                &&& final(store)@ == updated(old(store)@, id, name@, email@)
                &&& if has_id(old(store)@, id) {
                    r matches Reply::Record(x) && x@ == (UserModel { id, name: name@, email: email@ })
                } else {
                    r is NotFound
                }
            },
        },
{
    match parse_user_id(id_text) {
        None => Reply::BadRequest,
        Some(id) => match store.update(id, name, email) {
            Ok(u) => Reply::Record(u),
            Err(_) => Reply::NotFound,
        },
    }
}

/// `DELETE /users/{id}`: removes the record whose identifier `id_text` writes.
pub fn delete_user(store: &mut UserStore, id_text: &str) -> (r: Reply)
    requires
        old(store).wf(),
    ensures
        final(store).wf(),
        final(store).issued() == old(store).issued(),
        match uuid_from_text(id_text@) {
            None => r is BadRequest && final(store)@ == old(store)@,
            Some(id) => {
                &&& final(store)@ == deleted(old(store)@, id)
                &&& if has_id(old(store)@, id) {
                    r is NoContent
                } else {
                    r is NotFound
                }
            },
        },
{
    match parse_user_id(id_text) {
        None => Reply::BadRequest,
        Some(id) => match store.delete(id) {
            Ok(()) => Reply::NoContent,
            Err(_) => Reply::NotFound,
        },
    }
}

} // verus!
