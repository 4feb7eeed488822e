use vstd::prelude::*;

verus! {

/// What a user record is, as a mathematical value.
pub struct UserModel {
    pub id: u128,
    pub name: Seq<char>,
    pub email: Seq<char>,
}

/// Some record of `users` carries `id`.
pub open spec fn has_id(users: Seq<UserModel>, id: u128) -> bool {
    exists|i: int| 0 <= i < users.len() && users[i].id == id
}

/// No two records of `users` share an identifier.
pub open spec fn ids_unique(users: Seq<UserModel>) -> bool {
    forall|i: int, j: int|
        0 <= i < users.len() && 0 <= j < users.len() && users[i].id == users[j].id ==> i == j
}

/// The position of a record that carries `id` (meaningful where `has_id`).
pub open spec fn index_of(users: Seq<UserModel>, id: u128) -> int {
    choose|i: int| 0 <= i < users.len() && users[i].id == id
}

/// The record that carries `id`, if any.
pub open spec fn lookup(users: Seq<UserModel>, id: u128) -> Option<UserModel> {
    if has_id(users, id) {
        Some(users[index_of(users, id)])
    } else {
        None
    }
}

/// The collection after `id`'s record takes the given name and email; unchanged
/// where no record carries `id`.
pub open spec fn updated(users: Seq<UserModel>, id: u128, name: Seq<char>, email: Seq<char>) -> Seq<
    UserModel,
> {
    if has_id(users, id) {
        users.update(index_of(users, id), UserModel { id, name, email })
    } else {
        users
    }
}

/// The collection after `id`'s record is removed; unchanged where no record
/// carries `id`.
pub open spec fn deleted(users: Seq<UserModel>, id: u128) -> Seq<UserModel> {
    if has_id(users, id) {
        users.remove(index_of(users, id))
    } else {
        users
    }
}

/// A state-changing operation on the collection. Reads change nothing and are
/// not listed.
pub enum Op {
    /// Appends the record that a create returned.
    Create(UserModel),
    Update(u128, Seq<char>, Seq<char>),
    Delete(u128),
}

/// The collection after one operation.
pub open spec fn apply(users: Seq<UserModel>, op: Op) -> Seq<UserModel> {
    match op {
        Op::Create(u) => users.push(u),
        Op::Update(id, name, email) => updated(users, id, name, email),
        Op::Delete(id) => deleted(users, id),
    }
}

/// The collection after a sequence of operations, applied one at a time.
pub open spec fn run(users: Seq<UserModel>, ops: Seq<Op>) -> Seq<UserModel>
    decreases ops.len(),
{
    if ops.len() == 0 {
        users
    } else {
        apply(run(users, ops.drop_last()), ops.last())
    }
}

/// How many of `ops` are creates.
pub open spec fn creates(ops: Seq<Op>) -> nat
    decreases ops.len(),
{
    if ops.len() == 0 {
        0
    } else {
        creates(ops.drop_last()) + if ops.last() is Create {
            1nat
        } else {
            0nat
        }
    }
}

/// How many of `ops`, run from `users`, are deletes that found their record.
pub open spec fn successful_deletes(users: Seq<UserModel>, ops: Seq<Op>) -> nat
    decreases ops.len(),
{
    if ops.len() == 0 {
        0
    } else {
        successful_deletes(users, ops.drop_last()) + match ops.last() {
            Op::Delete(id) => if has_id(run(users, ops.drop_last()), id) {
                1nat
            } else {
                0nat
            },
            _ => 0nat,
        }
    }
}

/// The operation neither rewrites nor removes `id`'s record, nor creates
/// another record with `id`.
pub open spec fn leaves_id(op: Op, id: u128) -> bool {
    match op {
        Op::Create(u) => u.id != id,
        Op::Update(other, _, _) => other != id,
        Op::Delete(other) => other != id,
    }
}

/// Under unique identifiers, a record that is present is what a lookup of its
/// identifier finds.
pub proof fn lemma_lookup_finds(users: Seq<UserModel>, i: int)
    requires
        ids_unique(users),
        0 <= i < users.len(),
    ensures
        has_id(users, users[i].id),
        index_of(users, users[i].id) == i,
        lookup(users, users[i].id) == Some(users[i]),
{
    assert(has_id(users, users[i].id));
}

} // verus!
