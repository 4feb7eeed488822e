use crate::model::{
    apply, creates, deleted, has_id, ids_unique, index_of, leaves_id, lemma_lookup_finds, lookup,
    run, successful_deletes, updated, Op, UserModel,
};
use vstd::prelude::*;

verus! {

/// Each create of `ops`, run from `users`, appends a record whose identifier
/// no record present at that moment carries.
pub open spec fn creates_fresh(users: Seq<UserModel>, ops: Seq<Op>) -> bool {
    forall|k: int|
        0 <= k < ops.len() ==> match #[trigger] ops[k] {
            Op::Create(v) => !has_id(run(users, ops.take(k)), v.id),
            _ => true,
        }
}

/// Identifiers as successive creates hand them out: none was issued before,
/// and none repeats an earlier one of the sequence.
pub open spec fn fresh_sequence(issued: Set<u128>, ids: Seq<u128>) -> bool {
    forall|k: int|
        0 <= k < ids.len() ==> !issued.contains(#[trigger] ids[k]) && forall|j: int|
            0 <= j < k ==> ids[j] != ids[k]
}

/// The operations that create each of `us`, in order.
pub open spec fn create_all(us: Seq<UserModel>) -> Seq<Op> {
    us.map_values(|u: UserModel| Op::Create(u))
}

/// One operation that leaves `u`'s identifier alone keeps `u` present and the
/// identifiers unique.
proof fn lemma_step_keeps(users: Seq<UserModel>, op: Op, i: int, u: UserModel) -> (j: int)
    requires
        ids_unique(users),
        0 <= i < users.len(),
        users[i] == u,
        leaves_id(op, u.id),
        op matches Op::Create(v) ==> !has_id(users, v.id),
    ensures
        ids_unique(apply(users, op)),
        0 <= j < apply(users, op).len(),
        apply(users, op)[j] == u,
{
    let after = apply(users, op);
    match op {
        Op::Create(v) => {
            assert forall|a: int, b: int|
                0 <= a < after.len() && 0 <= b < after.len() && after[a].id == after[b].id
                implies a == b by {
                if a == users.len() && b < users.len() {
                    assert(users[b].id == v.id);
                } else if b == users.len() && a < users.len() {
                    assert(users[a].id == v.id);
                }
            }
            i
        },
        Op::Update(id, name, email) => {
            if has_id(users, id) {
                let k = index_of(users, id);
                assert forall|a: int, b: int|
                    0 <= a < after.len() && 0 <= b < after.len() && after[a].id == after[b].id
                    implies a == b by {
                    assert(after[a].id == users[a].id);
                    assert(after[b].id == users[b].id);
                }
                assert(k != i);
            }
            i
        },
        Op::Delete(id) => {
            if has_id(users, id) {
                let k = index_of(users, id);
                assert forall|a: int, b: int|
                    0 <= a < after.len() && 0 <= b < after.len() && after[a].id == after[b].id
                    implies a == b by {
                    let oa = if a < k { a } else { a + 1 };
                    let ob = if b < k { b } else { b + 1 };
                    assert(after[a] == users[oa]);
                    assert(after[b] == users[ob]);
                }
                assert(k != i);
                if i < k { i } else { i - 1 }
            } else {
                i
            }
        },
    }
}

proof fn lemma_run_keeps(users: Seq<UserModel>, ops: Seq<Op>, i: int, u: UserModel) -> (j: int)
    requires
        ids_unique(users),
        0 <= i < users.len(),
        users[i] == u,
        creates_fresh(users, ops),
        forall|k: int| 0 <= k < ops.len() ==> leaves_id(#[trigger] ops[k], u.id),
    ensures
        ids_unique(run(users, ops)),
        0 <= j < run(users, ops).len(),
        run(users, ops)[j] == u,
    decreases ops.len(),
{
    if ops.len() == 0 {
        i
    } else {
        let front = ops.drop_last();
        assert forall|k: int| 0 <= k < front.len() implies match #[trigger] front[k] {
            Op::Create(v) => !has_id(run(users, front.take(k)), v.id),
            _ => true,
        } by {
            assert(front.take(k) =~= ops.take(k));
            assert(front[k] == ops[k]);
        }
        assert forall|k: int| 0 <= k < front.len() implies leaves_id(#[trigger] front[k], u.id) by {
            assert(front[k] == ops[k]);
        }
        let m = lemma_run_keeps(users, front, i, u);
        let last = ops.last();
        assert(ops.take(ops.len() - 1) =~= front);
        assert(leaves_id(ops[ops.len() - 1], u.id));
        lemma_step_keeps(run(users, front), last, m, u)
    }
}

/// A created record is what a lookup of its identifier finds, for as long as
/// no later operation rewrites or removes it.
pub proof fn law_created_record_persists(users: Seq<UserModel>, u: UserModel, ops: Seq<Op>)
    requires
        ids_unique(users),
        !has_id(users, u.id),
        creates_fresh(users.push(u), ops),
        forall|k: int| 0 <= k < ops.len() ==> leaves_id(#[trigger] ops[k], u.id),
    ensures
        lookup(users.push(u), u.id) == Some(u),
        lookup(run(users.push(u), ops), u.id) == Some(u),
{
    let start = users.push(u);
    assert forall|a: int, b: int|
        0 <= a < start.len() && 0 <= b < start.len() && start[a].id == start[b].id implies a
        == b by {
        if a == users.len() && b < users.len() {
            assert(users[b].id == u.id);
        } else if b == users.len() && a < users.len() {
            assert(users[a].id == u.id);
        }
    }
    lemma_lookup_finds(start, users.len() as int);
    let j = lemma_run_keeps(start, ops, users.len() as int, u);
    lemma_lookup_finds(run(start, ops), j);
}

/// After an update, a lookup of the identifier finds the new name and email
/// under the same identifier; an update of an absent identifier changes
/// nothing.
pub proof fn law_update_then_get(
    users: Seq<UserModel>,
    id: u128,
    name: Seq<char>,
    email: Seq<char>,
)
    requires
        ids_unique(users),
    ensures
        has_id(users, id) ==> lookup(updated(users, id, name, email), id) == Some(
            UserModel { id, name, email },
        ),
        !has_id(users, id) ==> updated(users, id, name, email) == users,
        ids_unique(updated(users, id, name, email)),
{
    let after = updated(users, id, name, email);
    if has_id(users, id) {
        let k = index_of(users, id);
        assert forall|a: int, b: int|
            0 <= a < after.len() && 0 <= b < after.len() && after[a].id == after[b].id
            implies a == b by {
            assert(after[a].id == users[a].id);
            assert(after[b].id == users[b].id);
        }
        lemma_lookup_finds(after, k);
    }
}

/// After a delete, a lookup of the identifier finds nothing; a delete of an
/// absent identifier finds nothing and changes nothing.
pub proof fn law_delete_then_get(users: Seq<UserModel>, id: u128)
    requires
        ids_unique(users),
    ensures
        lookup(deleted(users, id), id) is None,
        !has_id(users, id) ==> deleted(users, id) == users,
        lookup(deleted(deleted(users, id), id), id) is None,
        deleted(deleted(users, id), id) == deleted(users, id),
{
    let after = deleted(users, id);
    if has_id(users, id) {
        let k = index_of(users, id);
        if has_id(after, id) {
            let a = choose|a: int| 0 <= a < after.len() && after[a].id == id;
            let oa = if a < k { a } else { a + 1 };
            assert(after[a] == users[oa]);
        }
    }
}

/// Run one operation at a time, the number of records is the number at the
/// start, plus the creates, less the deletes that found their record.
pub proof fn law_list_length(users: Seq<UserModel>, ops: Seq<Op>)
    ensures
        run(users, ops).len() + successful_deletes(users, ops) == users.len() + creates(ops),
    decreases ops.len(),
{
    if ops.len() > 0 {
        law_list_length(users, ops.drop_last());
    }
}

/// Records created one after another under the identifiers that successive
/// creates hand out carry distinct identifiers, and all of them stand, in
/// order, after those already present.
pub proof fn law_creates_all_listed(users: Seq<UserModel>, issued: Set<u128>, us: Seq<UserModel>)
    requires
        ids_unique(users),
        forall|i: int| 0 <= i < users.len() ==> issued.contains(#[trigger] users[i].id),
        fresh_sequence(issued, us.map_values(|u: UserModel| u.id)),
    ensures
        forall|j: int, k: int| 0 <= j < us.len() && 0 <= k < us.len() && j != k ==> us[j].id != us[k].id,
        run(users, create_all(us)).len() == users.len() + us.len(),
        forall|i: int| 0 <= i < users.len() ==> run(users, create_all(us))[i] == users[i],
        forall|k: int| 0 <= k < us.len() ==> run(users, create_all(us))[users.len() + k] == us[k],
        ids_unique(run(users, create_all(us))),
    decreases us.len(),
{
    let ids = us.map_values(|u: UserModel| u.id);
    assert forall|j: int, k: int| 0 <= j < us.len() && 0 <= k < us.len() && j != k implies us[j].id
        != us[k].id by {
        if j < k {
            assert(ids[j] != ids[k]);
        } else {
            assert(ids[k] != ids[j]);
        }
    }
    if us.len() > 0 {
        let front = us.drop_last();
        let u = us.last();
        let front_ids = front.map_values(|v: UserModel| v.id);
        assert forall|k: int| 0 <= k < front_ids.len() implies !issued.contains(
            #[trigger] front_ids[k],
        ) && forall|j: int| 0 <= j < k ==> front_ids[j] != front_ids[k] by {
            assert(front_ids[k] == ids[k]);
            assert forall|j: int| 0 <= j < k implies front_ids[j] != front_ids[k] by {
                assert(front_ids[j] == ids[j]);
            }
        }
        law_creates_all_listed(users, issued, front);
        let ops = create_all(us);
        assert(ops.drop_last() =~= create_all(front));
        let before = run(users, create_all(front));
        assert(run(users, ops) == before.push(u));
        assert(!issued.contains(ids[us.len() - 1]));
        assert forall|a: int, b: int|
            0 <= a < before.len() + 1 && 0 <= b < before.len() + 1 && before.push(u)[a].id
                == before.push(u)[b].id implies a == b by {
            let s = before.push(u);
            if a < before.len() && b < before.len() {
                assert(s[a] == before[a]);
                assert(s[b] == before[b]);
            } else if a == before.len() && b < before.len() {
                assert(s[a] == u);
                assert(s[b] == before[b]);
                if b < users.len() {
                    assert(issued.contains(users[b].id));
                } else {
                    let k = b - users.len();
                    assert(before[users.len() + k] == front[k]);
                    assert(ids[k] != ids[us.len() - 1]);
                }
            } else if b == before.len() && a < before.len() {
                assert(s[b] == u);
                assert(s[a] == before[a]);
                if a < users.len() {
                    assert(issued.contains(users[a].id));
                } else {
                    let k = a - users.len();
                    assert(before[users.len() + k] == front[k]);
                    assert(ids[k] != ids[us.len() - 1]);
                }
            }
        }
        assert forall|k: int| 0 <= k < us.len() implies run(users, ops)[users.len() + k] == us[k] by {
            if k < front.len() {
                assert(before[users.len() + k] == front[k]);
            }
        }
    }
}

} // verus!
