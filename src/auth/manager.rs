use vstd::prelude::*;
use crate::textmap::{same_text, texts, TextMap};
use crate::auth::AuthError;

verus! {

/// Whether `user` holds `permission` under the grants `m`: never for an unknown user.
pub open spec fn holds(m: Map<Seq<char>, Set<Seq<char>>>, user: Seq<char>, permission: Seq<char>) -> bool {
    m.contains_key(user) && m[user].contains(permission)
}

/// Whether some element of `v` has the text `p`.
pub fn contains_text(v: &Vec<String>, p: &str) -> (r: bool)
    ensures
        r == texts(v@).contains(p@),
{
    let mut i: usize = 0;
    while i < v.len()
        invariant
            i <= v@.len(),
            forall|j: int| 0 <= j < i ==> v@[j]@ != p@,
        decreases v@.len() - i,
    {
        if same_text(v[i].as_str(), p) {
            assert(texts(v@)[i as int] == p@);
            return true;
        }
        i = i + 1;
    }
    assert forall|j: int| 0 <= j < texts(v@).len() implies texts(v@)[j] != p@ by {
        assert(v@[j]@ != p@);
    }
    false
}

/// The elements of `v` whose text differs from `p`, in order.
fn without_text(v: Vec<String>, p: &str) -> (r: Vec<String>)
    ensures
        texts(r@).to_set() == texts(v@).to_set().remove(p@),
{
    let mut r: Vec<String> = Vec::new();
    let mut i: usize = 0;
    while i < v.len()
        invariant
            i <= v@.len(),
            forall|x: Seq<char>|
                texts(r@).contains(x) <==> (x != p@ && exists|j: int| 0 <= j < i && #[trigger] v@[j]@ == x),
        decreases v@.len() - i,
    {
        let ghost before = r@;
        let keep = !same_text(v[i].as_str(), p);
        if keep {
            r.push(v[i].clone());
        }
        assert forall|x: Seq<char>|
            texts(r@).contains(x) <==> (x != p@ && exists|j: int| 0 <= j < i + 1 && #[trigger] v@[j]@ == x) by {
            if texts(r@).contains(x) {
                let k = choose|k: int| 0 <= k < texts(r@).len() && texts(r@)[k] == x;
                if k < before.len() {
                    assert(texts(before)[k] == x);
                    assert(texts(before).contains(x));
                    let j = choose|j: int| 0 <= j < i && #[trigger] v@[j]@ == x;
                    assert(0 <= j < i + 1 && v@[j]@ == x);
                } else {
                    assert(r@[k]@ == v@[i as int]@);
                    assert(v@[i as int]@ == x);
                }
            }
            if x != p@ && exists|j: int| 0 <= j < i + 1 && #[trigger] v@[j]@ == x {
                let j = choose|j: int| 0 <= j < i + 1 && #[trigger] v@[j]@ == x;
                if j < i {
                    assert(texts(before).contains(x));
                    let k = choose|k: int| 0 <= k < texts(before).len() && texts(before)[k] == x;
                    assert(texts(r@)[k] == x);
                } else {
                    assert(keep);
                    assert(texts(r@)[before.len() as int] == x);
                }
            }
        }
        i = i + 1;
    }
    assert forall|x: Seq<char>| texts(r@).to_set().contains(x) <==> texts(v@).to_set().remove(p@).contains(x) by {
        if texts(v@).contains(x) {
            let k = choose|k: int| 0 <= k < texts(v@).len() && texts(v@)[k] == x;
            assert(v@[k]@ == x);
        }
        if x != p@ && exists|j: int| 0 <= j < i && #[trigger] v@[j]@ == x {
            let j = choose|j: int| 0 <= j < i && #[trigger] v@[j]@ == x;
            assert(texts(v@)[j] == x);
        }
    }
    assert(texts(r@).to_set() =~= texts(v@).to_set().remove(p@));
    r
}

/// Named permissions granted to users, keyed by user id.
pub struct AuthManager {
    user_permissions: TextMap<Vec<String>>,
}

impl AuthManager {
    /// The permissions of each known user.
    pub closed spec fn grants(&self) -> Map<Seq<char>, Set<Seq<char>>> {
        self.user_permissions@.map_values(|v: Vec<String>| texts(v@).to_set())
    }

    pub closed spec fn wf(&self) -> bool {
        self.user_permissions.wf()
    }

    pub fn new() -> (r: Self)
        ensures
            r.wf(),
            r.grants() == Map::<Seq<char>, Set<Seq<char>>>::empty(),
    {
        let r = AuthManager { user_permissions: TextMap::new() };
        assert(r.grants() =~= Map::<Seq<char>, Set<Seq<char>>>::empty());
        r
    }

    /// Registers `user_id` with exactly `permissions`, replacing any earlier grant.
    pub fn add_user(&mut self, user_id: &str, permissions: Vec<String>)
        requires
            old(self).wf(),
        ensures
            final(self).wf(),
            final(self).grants() == old(self).grants().insert(user_id@, texts(permissions@).to_set()),
    {
        let ghost p = permissions;
        self.user_permissions.insert(user_id.to_owned(), permissions);
        assert(self.grants() =~= old(self).grants().insert(user_id@, texts(p@).to_set()));
    }

    pub fn is_authorized(&self, user_id: &str, permission: &str) -> (r: bool)
        requires
            self.wf(),
        ensures
            r == holds(self.grants(), user_id@, permission@),
    {
        match self.user_permissions.get(user_id) {
            Some(v) => contains_text(v, permission),
            None => false,
        }
    }

    /// Forgets `user_id` and all of its permissions.
    pub fn remove_user(&mut self, user_id: &str) -> (r: Result<(), AuthError>)
        requires
            old(self).wf(),
        ensures
            final(self).wf(),
            final(self).grants() == old(self).grants().remove(user_id@),
            r is Err <==> !old(self).grants().contains_key(user_id@),
            r matches Err(e) ==> e == AuthError::UserNotFound,
    {
        let removed = self.user_permissions.remove(user_id);
        assert(self.grants() =~= old(self).grants().remove(user_id@));
        match removed {
            Some(_) => Ok(()),
            None => Err(AuthError::UserNotFound),
        }
    }

    /// Replaces the permissions of a known user.
    pub fn update_permissions(&mut self, user_id: &str, permissions: Vec<String>) -> (r: Result<(), AuthError>)
        requires
            old(self).wf(),
        ensures
            final(self).wf(),
            old(self).grants().contains_key(user_id@) ==> r is Ok && final(self).grants()
                == old(self).grants().insert(user_id@, texts(permissions@).to_set()),
            !old(self).grants().contains_key(user_id@) ==> r == Err::<(), AuthError>(
                AuthError::UserNotFound,
            ) && final(self).grants() == old(self).grants(),
    {
        if !self.user_permissions.contains_key(user_id) {
            return Err(AuthError::UserNotFound);
        }
        self.add_user(user_id, permissions);
        Ok(())
    }

    /// Grants one more permission to a known user.
    pub fn add_permission(&mut self, user_id: &str, permission: String) -> (r: Result<(), AuthError>)
        requires
            old(self).wf(),
        ensures
            final(self).wf(),
            old(self).grants().contains_key(user_id@) ==> r is Ok && final(self).grants()
                == old(self).grants().insert(
                user_id@,
                old(self).grants()[user_id@].insert(permission@),
            ),
            !old(self).grants().contains_key(user_id@) ==> r == Err::<(), AuthError>(
                AuthError::UserNotFound,
            ) && final(self).grants() == old(self).grants(),
    {
        let ghost p = permission@;
        match self.user_permissions.remove(user_id) {
            Some(v) => {
                let mut v = v;
                let ghost before = v@;
                v.push(permission);
                assert(texts(v@) =~= texts(before) + seq![p]);
                assert(texts(v@).to_set() =~= texts(before).to_set().insert(p)) by {
                    Seq::lemma_to_set_insert_commutes(texts(before), p);
                }
                self.user_permissions.insert(user_id.to_owned(), v);
                assert(self.grants() =~= old(self).grants().insert(
                    user_id@,
                    old(self).grants()[user_id@].insert(p),
                ));
                Ok(())
            },
            None => {
                assert(self.grants() =~= old(self).grants());
                Err(AuthError::UserNotFound)
            },
        }
    }

    /// Withdraws one permission from a known user.
    pub fn remove_permission(&mut self, user_id: &str, permission: &str) -> (r: Result<(), AuthError>)
        requires
            old(self).wf(),
        ensures
            final(self).wf(),
            old(self).grants().contains_key(user_id@) ==> r is Ok && final(self).grants()
                == old(self).grants().insert(
                user_id@,
                old(self).grants()[user_id@].remove(permission@),
            ),
            !old(self).grants().contains_key(user_id@) ==> r == Err::<(), AuthError>(
                AuthError::UserNotFound,
            ) && final(self).grants() == old(self).grants(),
    {
        match self.user_permissions.remove(user_id) {
            Some(v) => {
                let kept = without_text(v, permission);
                self.user_permissions.insert(user_id.to_owned(), kept);
                assert(self.grants() =~= old(self).grants().insert(
                    user_id@,
                    old(self).grants()[user_id@].remove(permission@),
                ));
                Ok(())
            },
            None => {
                assert(self.grants() =~= old(self).grants());
                Err(AuthError::UserNotFound)
            },
        }
    }
}

/// A grant is visible at once to `check`, and gone once the user is removed;
/// nobody holds anything before a grant.
pub proof fn lemma_grant_then_revoke(
    m: Map<Seq<char>, Set<Seq<char>>>,
    user: Seq<char>,
    granted: Set<Seq<char>>,
    kind: Seq<char>,
)
    ensures
        !holds(Map::empty(), user, kind),
        holds(m.insert(user, granted), user, kind) == granted.contains(kind),
        !holds(m.insert(user, granted).remove(user), user, kind),
        !holds(m.remove(user), user, kind),
{
}

} // verus!
