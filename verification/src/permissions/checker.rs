//! Permission checker.
use vstd::prelude::*;
use crate::text::{contains_string, names_view, owned};

verus! {


/// A grant list as (user, projects) character sequences.
pub open spec fn grants_view(v: Seq<(String, Vec<String>)>) -> Seq<(Seq<char>, Seq<Seq<char>>)> {
    v.map_values(|p: (String, Vec<String>)| (p.0@, names_view(p.1@)))
}

/// Projects granted to `user` by a grant list: those of the last entry for that user.
pub open spec fn grant_of(g: Seq<(Seq<char>, Seq<Seq<char>>)>, user: Seq<char>) -> Option<Set<Seq<char>>>
    decreases g.len(),
{
    if g.len() == 0 {
        None
    } else if g.last().0 == user {
        Some(g.last().1.to_set())
    } else {
        grant_of(g.drop_last(), user)
    }
}

/// Admin users and per-user project grants.
pub struct PermissionChecker {
    admin_users: Vec<String>,
    user_projects: Vec<(String, Vec<String>)>,
}

impl PermissionChecker {
    /// The administrators.
    pub closed spec fn admins(&self) -> Set<Seq<char>> {
        names_view(self.admin_users@).to_set()
    }

    /// Projects granted to `user`, if the user has a grant entry.
    pub closed spec fn grant(&self, user: Seq<char>) -> Option<Set<Seq<char>>> {
        grant_of(grants_view(self.user_projects@), user)
    }

    pub fn new(admin_users: Vec<String>, user_projects: Vec<(String, Vec<String>)>) -> (c: PermissionChecker)
        ensures
            c.admins() == names_view(admin_users@).to_set(),
            forall|u: Seq<char>| #[trigger] c.grant(u) == grant_of(grants_view(user_projects@), u),
    {
        PermissionChecker { admin_users, user_projects }
    }

    /// Whether `username` may access `project`.
    pub fn can_access(&self, username: &str, project: &str) -> (b: bool)
        ensures
            b == (self.admins().contains(username@) || (self.grant(username@) matches Some(p)
                && p.contains(project@))),
    {
        if self.is_admin(username) {
            return true;
        }
        match self.find_grant(username) {
            Some(i) => contains_string(&self.user_projects[i].1, project),
            None => false,
        }
    }

    /// Projects visible to `username`: `None` for an administrator (who sees all),
    /// otherwise the granted projects, each once, or `None` without a grant.
    pub fn visible_projects(&self, username: &str) -> (r: Option<Vec<String>>)
        ensures
            self.admins().contains(username@) ==> r is None,
            !self.admins().contains(username@) ==> match self.grant(username@) {
                None => r is None,
                Some(p) => r matches Some(v) && names_view(v@).to_set() == p && names_view(v@).no_duplicates(),
            },
    {
        if self.is_admin(username) {
            return None;
        }
        match self.find_grant(username) {
            Some(i) => {
                let list = &self.user_projects[i].1;
                let mut out: Vec<String> = Vec::new();
                let mut k: usize = 0;
                while k < list.len()
                    invariant
                        k <= list.len(),
                        names_view(out@).to_set() == names_view(list@.subrange(0, k as int)).to_set(),
                        names_view(out@).no_duplicates(),
                    decreases list.len() - k,
                {
                    let ghost before = out@;
                    let present = contains_string(&out, list[k].as_str());
                    proof {
                        assert(list@.subrange(0, k + 1) =~= list@.subrange(0, k as int).push(list@[k as int]));
                        assert(names_view(list@.subrange(0, k + 1)) =~= names_view(list@.subrange(0, k as int)).push(list@[k as int]@));
                    }
                    if !present {
                        out.push(list[k].clone());
                        proof {
                            assert(names_view(out@) =~= names_view(before).push(list@[k as int]@));
                            lemma_to_set_push(names_view(before), list@[k as int]@);
                            lemma_to_set_push(names_view(list@.subrange(0, k as int)), list@[k as int]@);
                        }
                    } else {
                        proof {
                            let j = choose|j: int| 0 <= j < out@.len() && out@[j]@ == list@[k as int]@;
                            assert(names_view(out@)[j] == list@[k as int]@);
                            assert(names_view(out@).to_set().contains(list@[k as int]@));
                            lemma_to_set_push(names_view(list@.subrange(0, k as int)), list@[k as int]@);
                            assert(names_view(list@.subrange(0, k as int)).to_set().insert(list@[k as int]@) =~= names_view(list@.subrange(0, k as int)).to_set());
                        }
                    }
                    k = k + 1;
                }
                assert(list@.subrange(0, list@.len() as int) =~= list@);
                Some(out)
            },
            None => None,
        }
    }

    /// Whether `username` is an administrator.
    fn is_admin(&self, username: &str) -> (b: bool)
        ensures
            b == self.admins().contains(username@),
    {
        let target = owned(username);
        let mut i: usize = 0;
        while i < self.admin_users.len()
            invariant
                i <= self.admin_users.len(),
                target@ == username@,
                forall|j: int| 0 <= j < i ==> self.admin_users@[j]@ != username@,
            decreases self.admin_users.len() - i,
        {
            if self.admin_users[i] == target {
                proof {
                    assert(names_view(self.admin_users@)[i as int] == username@);
                }
                return true;
            }
            i = i + 1;
        }
        proof {
            if names_view(self.admin_users@).contains(username@) {
                let j = choose|j: int| 0 <= j < names_view(self.admin_users@).len() && names_view(self.admin_users@)[j] == username@;
                assert(self.admin_users@[j]@ == username@);
            }
        }
        false
    }

    /// Index of the grant entry that decides `username`'s projects (the last one for that user).
    fn find_grant(&self, username: &str) -> (r: Option<usize>)
        ensures
            match r {
                Some(i) => i < self.user_projects@.len() && self.grant(username@) == Some(
                    names_view(self.user_projects@[i as int].1@).to_set(),
                ),
                None => self.grant(username@) is None,
            },
    {
        let target = owned(username);
        let ghost g = grants_view(self.user_projects@);
        let mut i: usize = self.user_projects.len();
        assert(g.subrange(0, i as int) =~= g);
        while i > 0
            invariant
                i <= self.user_projects.len(),
                target@ == username@,
                g == grants_view(self.user_projects@),
                grant_of(g, username@) == grant_of(g.subrange(0, i as int), username@),
            decreases i,
        {
            let ghost t = g.subrange(0, i as int);
            assert(t.drop_last() =~= g.subrange(0, i - 1));
            if self.user_projects[i - 1].0 == target {
                return Some(i - 1);
            }
            i = i - 1;
        }
        None
    }
}


proof fn lemma_to_set_push(s: Seq<Seq<char>>, x: Seq<char>)
    ensures
        s.push(x).to_set() == s.to_set().insert(x),
{
    assert forall|y: Seq<char>| #[trigger] s.push(x).to_set().contains(y) <==> s.to_set().insert(x).contains(y) by {
        if s.contains(y) {
            let k = choose|k: int| 0 <= k < s.len() && s[k] == y;
            assert(s.push(x)[k] == y);
        }
        if s.push(x).contains(y) && y != x {
            let k = choose|k: int| 0 <= k < s.push(x).len() && s.push(x)[k] == y;
            assert(k < s.len());
            assert(s[k] == y);
        }
        if y == x {
            assert(s.push(x)[s.len() as int] == x);
        }
    }
    assert(s.push(x).to_set() =~= s.to_set().insert(x));
}

impl Default for PermissionChecker {
    fn default() -> (c: PermissionChecker)
        ensures
            c.admins() == Set::<Seq<char>>::empty(),
            forall|u: Seq<char>| #[trigger] c.grant(u) is None,
    {
        let c = PermissionChecker::new(Vec::new(), Vec::new());
        assert(names_view(Seq::<String>::empty()).to_set() =~= Set::<Seq<char>>::empty());
        c
    }
}

} // verus!
