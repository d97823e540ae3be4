use vstd::prelude::*;
use crate::query::parser::QueryType;
use crate::textmap::TextMap;

pub mod manager;

verus! {

/// Failure of a change to the grants of a user.
#[derive(Debug, Clone, Copy, PartialEq, Eq, Structural)]
pub enum AuthError {
    UserNotFound,
}

/// Whether `v` holds `q`.
fn contains_kind(v: &Vec<QueryType>, q: &QueryType) -> (r: bool)
    ensures
        r == v@.contains(*q),
{
    let mut i: usize = 0;
    while i < v.len()
        invariant
            i <= v@.len(),
            forall|j: int| 0 <= j < i ==> v@[j] != *q,
        decreases v@.len() - i,
    {
        if v[i] == *q {
            return true;
        }
        i = i + 1;
    }
    false
}

/// The query kinds each user may run, keyed by user id.
pub struct AuthManager {
    user_permissions: TextMap<Vec<QueryType>>,
}

impl AuthManager {
    /// The query kinds of each known user.
    pub closed spec fn grants(&self) -> Map<Seq<char>, Seq<QueryType>> {
        self.user_permissions@.map_values(|v: Vec<QueryType>| v@)
    }

    pub closed spec fn wf(&self) -> bool {
        self.user_permissions.wf()
    }

    pub fn new() -> (r: Self)
        ensures
            r.wf(),
            r.grants() == Map::<Seq<char>, Seq<QueryType>>::empty(),
    {
        let r = AuthManager { user_permissions: TextMap::new() };
        assert(r.grants() =~= Map::<Seq<char>, Seq<QueryType>>::empty());
        r
    }

    /// Registers `user_id` with exactly `permissions`, replacing any earlier grant.
    pub fn add_user(&mut self, user_id: &str, permissions: Vec<QueryType>)
        requires
            old(self).wf(),
        ensures
            final(self).wf(),
            final(self).grants() == old(self).grants().insert(user_id@, permissions@),
    {
        self.user_permissions.insert(user_id.to_owned(), permissions);
        assert(self.grants() =~= old(self).grants().insert(user_id@, permissions@));
    }

    pub fn is_authorized(&self, user_id: &str, query_type: &QueryType) -> (r: bool)
        requires
            self.wf(),
        ensures
            r == (self.grants().contains_key(user_id@) && self.grants()[user_id@].contains(
                *query_type,
            )),
    {
        match self.user_permissions.get(user_id) {
            Some(v) => contains_kind(v, query_type),
            None => false,
        }
    }

    /// Forgets `user_id` and all of its permissions.
    pub fn remove_user(&mut self, user_id: &str) -> (r: Result<(), AuthError>)
        requires
            old(self).wf(),
        ensures
            final(self).wf(),
            final(self).grants() == old(self).grants().remove(user_id@),
            r is Err <==> !old(self).grants().contains_key(user_id@),
            r matches Err(e) ==> e == AuthError::UserNotFound,
    {
        let removed = self.user_permissions.remove(user_id);
        assert(self.grants() =~= old(self).grants().remove(user_id@));
        match removed {
            Some(_) => Ok(()),
            None => Err(AuthError::UserNotFound),
        }
    }

    /// Replaces the permissions of a known user.
    pub fn update_permissions(&mut self, user_id: &str, permissions: Vec<QueryType>) -> (r: Result<
        (),
        AuthError,
    >)
        requires
            old(self).wf(),
        ensures
            final(self).wf(),
            old(self).grants().contains_key(user_id@) ==> r is Ok && final(self).grants()
                == old(self).grants().insert(user_id@, permissions@),
            !old(self).grants().contains_key(user_id@) ==> r == Err::<(), AuthError>(
                AuthError::UserNotFound,
            ) && final(self).grants() == old(self).grants(),
    {
        if !self.user_permissions.contains_key(user_id) {
            return Err(AuthError::UserNotFound);
        }
        self.add_user(user_id, permissions);
        Ok(())
    }
}

} // verus!
