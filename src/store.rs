use crate::ids::{fresh_id, random_id};
use crate::model::{
    deleted, has_id, ids_unique, index_of, lemma_lookup_finds, lookup, updated, UserModel,
};
use vstd::prelude::*;

verus! {

/// One user record.
#[derive(Clone, Debug, PartialEq, Eq)]
pub struct User {
    pub id: u128,
    pub name: String,
    pub email: String,
}

impl View for User {
    type V = UserModel;

    open spec fn view(&self) -> UserModel {
        UserModel { id: self.id, name: self.name@, email: self.email@ }
    }
}

impl User {
    /// A copy of this record.
    pub fn duplicate(&self) -> (r: User)
        ensures
            r@ == self@,
    {
        User { id: self.id, name: self.name.clone(), email: self.email.clone() }
    }
}

/// Why a store operation did not take place.
#[derive(Clone, Copy, Debug, PartialEq, Eq)]
pub enum StoreError {
    /// No record carries the requested identifier.
    NotFound,
}

/// The records of the service, in the order of their creation, and every
/// identifier handed out so far.
pub struct UserStore {
    users: Vec<User>,
    issued: Vec<u128>,
}

impl View for UserStore {
    type V = Seq<UserModel>;

    closed spec fn view(&self) -> Seq<UserModel> {
        self.users@.map_values(|u: User| u@)
    }
}

impl UserStore {
    /// Every identifier that a create of this store has returned, live or
    /// deleted since.
    pub closed spec fn issued(&self) -> Set<u128> {
        self.issued@.to_set()
    }

    /// Identifiers are unique among the records, and each was handed out by
    /// this store.
    pub open spec fn wf(&self) -> bool {
        &&& ids_unique(self@)
        &&& forall|i: int| 0 <= i < self@.len() ==> self.issued().contains(#[trigger] self@[i].id)
    }

    /// An empty store.
    pub fn new() -> (r: UserStore)
        ensures
            r.wf(),
            r@ == Seq::<UserModel>::empty(),
            r.issued() == Set::<u128>::empty(),
    {
        let r = UserStore { users: Vec::new(), issued: Vec::new() };
        assert(r@ =~= Seq::<UserModel>::empty());
        assert(r.issued() =~= Set::<u128>::empty());
        r
    }

    /// The position of the record that carries `id`, if any.
    fn position(&self, id: u128) -> (r: Option<usize>)
        requires
            self.wf(),
        ensures
            r is None <==> !has_id(self@, id),
            r matches Some(i) ==> i == index_of(self@, id) && i < self@.len(),
    {
        let mut i: usize = 0;
        while i < self.users.len()
            invariant
                0 <= i <= self.users@.len(),
                self.wf(),
                self@.len() == self.users@.len(),
                forall|j: int| 0 <= j < i ==> self@[j].id != id,
            decreases self.users.len() - i,
        {
            if self.users[i].id == id {
                assert(self@[i as int].id == id);
                proof {
                    lemma_lookup_finds(self@, i as int);
                }
                return Some(i);
            }
            i = i + 1;
        }
        None
    }

    /// Appends a record with the given name and email under an identifier that
    /// no earlier record had: `candidate` where it is new.
    pub fn insert_new(&mut self, candidate: u128, name: String, email: String) -> (r: User)
        requires
            old(self).wf(),
        ensures
            final(self).wf(),
            !old(self).issued().contains(r.id),
            !old(self).issued().contains(candidate) ==> r.id == candidate,
            old(self).issued().contains(candidate) ==> forall|c: u128|
                c < r.id ==> old(self).issued().contains(c),
            r@.name == name@,
            r@.email == email@,
            final(self)@ == old(self)@.push(r@),
            final(self).issued() == old(self).issued().insert(r.id),
    {
        let id = fresh_id(&self.issued, candidate);
        assert(forall|c: u128| self.issued@.contains(c) <==> self.issued().contains(c));
        let user = User { id, name, email };
        let ghost old_users = self@;
        let ghost old_issued = self.issued@;
        self.users.push(user.duplicate());
        self.issued.push(id);
        proof {
            assert(self@ =~= old_users.push(user@));
            old_issued.lemma_push_to_set_commute(id);
            assert(self.issued@ == old_issued.push(id));
            assert forall|i: int| 0 <= i < old_users.len() implies old_users[i].id != id by {
                assert(old(self).issued@.contains(old_users[i].id));
            }
        }
        user
    }

    /// Creates a record with the given name and email under a newly drawn
    /// identifier that no record of this store ever had, and appends it.
    pub fn create(&mut self, name: String, email: String) -> (r: User)
        requires
            old(self).wf(),
        ensures
            final(self).wf(),
            !old(self).issued().contains(r.id),
            r@.name == name@,
            r@.email == email@,
            final(self)@ == old(self)@.push(r@),
            final(self).issued() == old(self).issued().insert(r.id),
    {
        let candidate = random_id();
        self.insert_new(candidate, name, email)
    }

    /// A copy of every record, in the order of creation.
    pub fn list(&self) -> (r: Vec<User>)
        ensures
            r@.map_values(|u: User| u@) == self@,
    {
        let mut out: Vec<User> = Vec::new();
        let mut i: usize = 0;
        while i < self.users.len()
            invariant
                0 <= i <= self.users@.len(),
                out@.len() == i,
                forall|j: int| 0 <= j < i ==> (#[trigger] out@[j])@ == self.users@[j]@,
            decreases self.users.len() - i,
        {
            out.push(self.users[i].duplicate());
            i = i + 1;
        }
        assert(out@.map_values(|u: User| u@) =~= self@);
        out
    }

    /// The record that carries `id`.
    pub fn get(&self, id: u128) -> (r: Result<User, StoreError>)
        requires
            self.wf(),
        ensures
            match r {
                Ok(u) => lookup(self@, id) == Some(u@),
                Err(e) => e == StoreError::NotFound && lookup(self@, id) is None,
            },
    {
        match self.position(id) {
            Some(i) => Ok(self.users[i].duplicate()),
            None => Err(StoreError::NotFound),
        }
    }

    /// Gives the record that carries `id` the new name and email, in place,
    /// and returns it as it now stands.
    pub fn update(&mut self, id: u128, name: String, email: String) -> (r: Result<
        User,
        StoreError,
    >)
        requires
            old(self).wf(),
        ensures
            final(self).wf(),
            final(self).issued() == old(self).issued(),
            final(self)@ == updated(old(self)@, id, name@, email@),
            match r {
                Ok(u) => has_id(old(self)@, id) && u@ == (UserModel { id, name: name@, email: email@ }),
                Err(e) => e == StoreError::NotFound && !has_id(old(self)@, id),
            },
    {
        match self.position(id) {
            Some(i) => {
                let user = User { id, name, email };
                let ghost old_users = self@;
                self.users.remove(i);
                self.users.insert(i, user.duplicate());
                proof {
                    assert(self@ =~= old_users.update(i as int, user@));
                    assert forall|a: int, b: int|
                        0 <= a < self@.len() && 0 <= b < self@.len() && self@[a].id == self@[b].id
                        implies a == b by {
                        assert(self@[a].id == old_users[a].id);
                        assert(self@[b].id == old_users[b].id);
                    }
                    assert forall|a: int| 0 <= a < self@.len() implies self.issued().contains(
                        #[trigger] self@[a].id,
                    ) by {
                        assert(self@[a].id == old_users[a].id);
                    }
                }
                Ok(user)
            },
            None => Err(StoreError::NotFound),
        }
    }

    /// Removes the record that carries `id`, keeping the order of the others.
    pub fn delete(&mut self, id: u128) -> (r: Result<(), StoreError>)
        requires
            old(self).wf(),
        ensures
            final(self).wf(),
            final(self).issued() == old(self).issued(),
            final(self)@ == deleted(old(self)@, id),
            r is Ok <==> has_id(old(self)@, id),
            r matches Err(e) ==> e == StoreError::NotFound,
    {
        match self.position(id) {
            Some(i) => {
                let ghost old_users = self@;
                self.users.remove(i);
                proof {
                    assert(self@ =~= old_users.remove(i as int));
                    assert forall|a: int, b: int|
                        0 <= a < self@.len() && 0 <= b < self@.len() && self@[a].id == self@[b].id
                        implies a == b by {
                        let oa = if a < i { a } else { a + 1 };
                        let ob = if b < i { b } else { b + 1 };
                        assert(self@[a] == old_users[oa]);
                        assert(self@[b] == old_users[ob]);
                    }
                    assert forall|a: int| 0 <= a < self@.len() implies self.issued().contains(
                        #[trigger] self@[a].id,
                    ) by {
                        let oa = if a < i { a } else { a + 1 };
                        assert(self@[a] == old_users[oa]);
                    }
                }
                Ok(())
            },
            None => Err(StoreError::NotFound),
        }
    }
}

} // verus!
