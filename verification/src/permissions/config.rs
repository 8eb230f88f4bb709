//! Loading the project allow-list from a flattened configuration map:
//! `permissions.admin_users.<i>`, `permissions.user.<j>.name`,
//! `permissions.user.<j>.projects.<k>`.
use std::collections::BTreeMap;
use vstd::prelude::*;
use crate::text::{concat2, decimal_seq, decimal_string, lemma_decimal_injective};
use super::checker::{PermissionChecker, grant_of, grants_view};
use crate::text::names_view;

verus! {

/// Calls `BTreeMap::get` on a map with string keys and copies the value.
#[verifier::external_body]
fn conf_get(conf: &BTreeMap<String, String>, key: &String) -> (r: Option<String>)
    ensures
        match r {
            Some(v) => conf.deep_view().contains_key(key@) && v@ == conf.deep_view()[key@],
            None => !conf.deep_view().contains_key(key@),
        },
{
    conf.get(key).cloned()
}

/// Key of the `i`-th administrator.
pub open spec fn admin_key(i: nat) -> Seq<char> {
    "permissions.admin_users."@ + decimal_seq(i)
}

/// Key of the `j`-th user's name.
pub open spec fn user_name_key(j: nat) -> Seq<char> {
    "permissions.user."@ + decimal_seq(j) + ".name"@
}

/// Key of the `k`-th project of the `j`-th user.
pub open spec fn project_key(j: nat, k: nat) -> Seq<char> {
    "permissions.user."@ + decimal_seq(j) + ".projects."@ + decimal_seq(k)
}

/// The key is present with a non-empty value.
pub open spec fn present(m: Map<Seq<char>, Seq<char>>, key: Seq<char>) -> bool {
    m.contains_key(key) && m[key].len() > 0
}

/// Keys `0..n` of a numbered family are present and key `n` is not.
pub open spec fn is_admin_gap(m: Map<Seq<char>, Seq<char>>, n: nat) -> bool {
    !present(m, admin_key(n)) && forall|i: nat| i < n ==> present(m, #[trigger] admin_key(i))
}

pub open spec fn is_user_gap(m: Map<Seq<char>, Seq<char>>, n: nat) -> bool {
    !present(m, user_name_key(n)) && forall|i: nat| i < n ==> present(m, #[trigger] user_name_key(i))
}

pub open spec fn is_project_gap(m: Map<Seq<char>, Seq<char>>, j: nat, n: nat) -> bool {
    !present(m, project_key(j, n)) && forall|i: nat| i < n ==> present(m, #[trigger] project_key(j, i))
}

/// Some project key of user `j` below the `usize` bound is absent.
pub open spec fn projects_end(m: Map<Seq<char>, Seq<char>>, j: nat) -> bool {
    exists|n: nat| n < usize::MAX && !present(m, #[trigger] project_key(j, n))
}

/// Number of consecutively numbered administrators.
pub open spec fn admin_count(m: Map<Seq<char>, Seq<char>>) -> nat {
    choose|n: nat| is_admin_gap(m, n)
}

/// Number of consecutively numbered users.
pub open spec fn user_count(m: Map<Seq<char>, Seq<char>>) -> nat {
    choose|n: nat| is_user_gap(m, n)
}

/// Number of consecutively numbered projects of user `j`.
pub open spec fn project_count(m: Map<Seq<char>, Seq<char>>, j: nat) -> nat {
    choose|n: nat| is_project_gap(m, j, n)
}

/// The administrators, in key order.
pub open spec fn admins_of(m: Map<Seq<char>, Seq<char>>) -> Seq<Seq<char>> {
    admin_seq(m, admin_count(m))
}

/// Values of the first `n` administrator keys.
pub open spec fn admin_seq(m: Map<Seq<char>, Seq<char>>, n: nat) -> Seq<Seq<char>> {
    Seq::new(n, |i: int| m[admin_key(i as nat)])
}

/// Values of the first `n` project keys of user `j`.
pub open spec fn project_seq(m: Map<Seq<char>, Seq<char>>, j: nat, n: nat) -> Seq<Seq<char>> {
    Seq::new(n, |k: int| m[project_key(j, k as nat)])
}

/// The projects of user `j`, in key order.
pub open spec fn projects_of(m: Map<Seq<char>, Seq<char>>, j: nat) -> Seq<Seq<char>> {
    project_seq(m, j, project_count(m, j))
}

/// Grants of the first `j` users; users without projects are left out.
pub open spec fn user_grants(m: Map<Seq<char>, Seq<char>>, j: nat) -> Seq<(Seq<char>, Seq<Seq<char>>)>
    decreases j,
{
    if j == 0 {
        Seq::empty()
    } else {
        let prev = user_grants(m, (j - 1) as nat);
        let p = projects_of(m, (j - 1) as nat);
        if p.len() > 0 {
            prev.push((m[user_name_key((j - 1) as nat)], p))
        } else {
            prev
        }
    }
}

/// Builds the permission checker from the flattened configuration.
pub fn load_permissions(conf: &BTreeMap<String, String>) -> (c: PermissionChecker)
    requires
        conf@.len() < usize::MAX,
    ensures
        c.admins() == admins_of(conf.deep_view()).to_set(),
        forall|u: Seq<char>| #[trigger] c.grant(u) == grant_of(
            user_grants(conf.deep_view(), user_count(conf.deep_view())),
            u,
        ),
{
    proof {
        lemma_config_families_end(*conf);
    }
    let ghost m = conf.deep_view();
    // Administrators.
    let mut admin_users: Vec<String> = Vec::new();
    let mut i: usize = 0;
    loop
        invariant
            m == conf.deep_view(),
            exists|n: nat| n < usize::MAX && !present(m, admin_key(n)),
            forall|i2: nat| i2 < i ==> present(m, #[trigger] admin_key(i2)),
            names_view(admin_users@) == admin_seq(m, i as nat),
        ensures
            is_admin_gap(m, i as nat),
            names_view(admin_users@) == admin_seq(m, i as nat),
        decreases usize::MAX - i,
    {
        let key = concat2("permissions.admin_users.", decimal_string(i as u64).as_str());
        match conf_get(conf, &key) {
            Some(v) if !v.as_str().is_empty() => {
                proof {
                    assert(present(m, admin_key(i as nat)));
                    let n = choose|n: nat| n < usize::MAX && !present(m, admin_key(n));
                    if n <= i {
                        if n < i {
                            assert(present(m, admin_key(n)));
                        }
                    }
                }
                let ghost before = admin_users@;
                assert(key@ == admin_key(i as nat));
                assert(v@ == m[admin_key(i as nat)]);
                let ghost vv = v@;
                admin_users.push(v);
                i = i + 1;
                proof {
                    assert(names_view(admin_users@) =~= names_view(before).push(vv));
                    assert(admin_seq(m, i as nat) =~= admin_seq(m, (i - 1) as nat).push(m[admin_key((i - 1) as nat)]));
                    assert(names_view(admin_users@) =~= admin_seq(m, i as nat));
                }
            },
            _ => {
                break;
            },
        }
    }
    proof {
        lemma_admin_gap_unique(m, i as nat);
        assert(names_view(admin_users@) =~= admins_of(m));
    }
    // Users and their projects.
    let mut user_projects: Vec<(String, Vec<String>)> = Vec::new();
    let mut j: usize = 0;
    loop
        invariant
            m == conf.deep_view(),
            exists|n: nat| n < usize::MAX && !present(m, user_name_key(n)),
            forall|j2: nat| j2 < user_count(m) ==> #[trigger] projects_end(m, j2),
            forall|j2: nat| j2 < j ==> present(m, #[trigger] user_name_key(j2)),
            grants_view(user_projects@) == user_grants(m, j as nat),
        ensures
            is_user_gap(m, j as nat),
            grants_view(user_projects@) == user_grants(m, j as nat),
        decreases usize::MAX - j,
    {
        let name_key = user_key(j, ".name");
        let name = match conf_get(conf, &name_key) {
            Some(n) if !n.as_str().is_empty() => n,
            _ => {
                break;
            },
        };
        proof {
            assert(present(m, user_name_key(j as nat)));
            let n = choose|n: nat| n < usize::MAX && !present(m, user_name_key(n));
            if n < j {
                assert(present(m, user_name_key(n)));
            }
            lemma_user_gap_exists(m, n);
            lemma_user_gap_unique(m, user_count(m));
            assert(j < user_count(m)) by {
                if j >= user_count(m) {
                    if j > user_count(m) {
                        assert(present(m, user_name_key(user_count(m))));
                    }
                }
            }
        }
        assert(projects_end(m, j as nat));
        let projects = load_projects(conf, j);
        let ghost before = user_projects@;
        if projects.len() > 0 {
            user_projects.push((name, projects));
            proof {
                assert(grants_view(user_projects@) =~= grants_view(before).push((m[user_name_key(j as nat)], projects_of(m, j as nat))));
            }
        }
        j = j + 1;
        proof {
            assert((j - 1) as nat == (j as nat - 1) as nat);
        }
    }
    proof {
        lemma_user_gap_unique(m, j as nat);
    }
    PermissionChecker::new(admin_users, user_projects)
}

/// `"permissions.user." + j + suffix`.
fn user_key(j: usize, suffix: &str) -> (k: String)
    ensures
        k@ == "permissions.user."@ + decimal_seq(j as nat) + suffix@,
{
    let mut k = concat2("permissions.user.", decimal_string(j as u64).as_str());
    k.append(suffix);
    k
}

/// The projects of user `j`, in key order.
fn load_projects(conf: &BTreeMap<String, String>, j: usize) -> (p: Vec<String>)
    requires
        exists|n: nat| n < usize::MAX && !present(conf.deep_view(), #[trigger] project_key(j as nat, n)),
    ensures
        names_view(p@) == projects_of(conf.deep_view(), j as nat),
{
    let ghost m = conf.deep_view();
    let mut projects: Vec<String> = Vec::new();
    let mut k: usize = 0;
    loop
        invariant
            m == conf.deep_view(),
            exists|n: nat| n < usize::MAX && !present(m, #[trigger] project_key(j as nat, n)),
            forall|k2: nat| k2 < k ==> present(m, #[trigger] project_key(j as nat, k2)),
            names_view(projects@) == project_seq(m, j as nat, k as nat),
        ensures
            is_project_gap(m, j as nat, k as nat),
            names_view(projects@) == project_seq(m, j as nat, k as nat),
        decreases usize::MAX - k,
    {
        let mut key = user_key(j, ".projects.");
        key.append(decimal_string(k as u64).as_str());
        assert(key@ == project_key(j as nat, k as nat));
        match conf_get(conf, &key) {
            Some(v) if !v.as_str().is_empty() => {
                proof {
                    assert(present(m, project_key(j as nat, k as nat)));
                    let n = choose|n: nat| n < usize::MAX && !present(m, #[trigger] project_key(j as nat, n));
                    if n < k {
                        assert(present(m, project_key(j as nat, n)));
                    }
                }
                assert(v@ == m[project_key(j as nat, k as nat)]);
                let ghost before = projects@;
                let ghost vv = v@;
                projects.push(v);
                k = k + 1;
                proof {
                    assert(names_view(projects@) =~= names_view(before).push(vv));
                    assert(project_seq(m, j as nat, k as nat) =~= project_seq(m, j as nat, (k - 1) as nat).push(m[project_key(j as nat, (k - 1) as nat)]));
                    assert(names_view(projects@) =~= project_seq(m, j as nat, k as nat));
                }
            },
            _ => {
                break;
            },
        }
    }
    proof {
        lemma_project_gap_unique(m, j as nat, k as nat);
        assert(names_view(projects@) =~= projects_of(m, j as nat));
    }
    projects
}

proof fn lemma_admin_gap_unique(m: Map<Seq<char>, Seq<char>>, n: nat)
    requires
        is_admin_gap(m, n),
    ensures
        admin_count(m) == n,
{
    let c = admin_count(m);
    assert(is_admin_gap(m, c));
    if c < n {
        assert(present(m, admin_key(c)));
    } else if c > n {
        assert(present(m, admin_key(n)));
    }
}

proof fn lemma_user_gap_unique(m: Map<Seq<char>, Seq<char>>, n: nat)
    requires
        is_user_gap(m, n),
    ensures
        user_count(m) == n,
{
    let c = user_count(m);
    assert(is_user_gap(m, c));
    if c < n {
        assert(present(m, user_name_key(c)));
    } else if c > n {
        assert(present(m, user_name_key(n)));
    }
}

proof fn lemma_project_gap_unique(m: Map<Seq<char>, Seq<char>>, j: nat, n: nat)
    requires
        is_project_gap(m, j, n),
    ensures
        project_count(m, j) == n,
{
    let c = project_count(m, j);
    assert(is_project_gap(m, j, c));
    if c < n {
        assert(present(m, project_key(j, c)));
    } else if c > n {
        assert(present(m, project_key(j, n)));
    }
}

/// Some user key is absent, so the numbered users end somewhere.
proof fn lemma_user_gap_exists(m: Map<Seq<char>, Seq<char>>, n: nat)
    requires
        !present(m, user_name_key(n)),
    ensures
        exists|g: nat| is_user_gap(m, g),
    decreases n,
{
    if forall|i: nat| i < n ==> present(m, #[trigger] user_name_key(i)) {
        assert(is_user_gap(m, n));
    } else {
        let i = choose|i: nat| i < n && !present(m, #[trigger] user_name_key(i));
        lemma_user_gap_exists(m, i);
    }
}


/// Within a finite map with fewer than `usize::MAX` keys, a family of keys numbered by an
/// injective function has a member below `usize::MAX` that is not present.
proof fn lemma_family_has_gap(m: Map<Seq<char>, Seq<char>>, f: spec_fn(nat) -> Seq<char>)
    requires
        m.dom().finite(),
        m.dom().len() < usize::MAX,
        forall|a: nat, b: nat| #[trigger] f(a) == #[trigger] f(b) ==> a == b,
    ensures
        exists|n: nat| n < usize::MAX && !present(m, #[trigger] f(n)),
{
    let len = m.dom().len();
    let g = |i: int| f(i as nat);
    let idx = vstd::set_lib::set_int_range(0, len + 1int);
    let keys = idx.map(g);
    vstd::set_lib::lemma_int_range(0, len + 1int);
    assert(vstd::relations::injective_on(g, idx)) by {
        assert forall|x: int, y: int| idx.contains(x) && idx.contains(y) && #[trigger] g(x) == #[trigger] g(y)
            implies x == y by {
            assert(f(x as nat) == f(y as nat));
        }
    }
    vstd::set_lib::lemma_map_size(idx, keys, g);
    if forall|n: nat| n <= len ==> present(m, #[trigger] f(n)) {
        assert(keys.subset_of(m.dom())) by {
            assert forall|k: Seq<char>| keys.contains(k) implies m.dom().contains(k) by {
                let i = choose|i: int| idx.contains(i) && g(i) == k;
                assert(present(m, f(i as nat)));
            }
        }
        vstd::set_lib::lemma_len_subset(keys, m.dom());
        assert(false);
    }
    let n = choose|n: nat| !(n <= len ==> present(m, #[trigger] f(n)));
    assert(n < usize::MAX && !present(m, f(n)));
}

proof fn lemma_prefix_suffix_injective(p: Seq<char>, q: Seq<char>, a: nat, b: nat)
    requires
        p + decimal_seq(a) + q == p + decimal_seq(b) + q,
    ensures
        a == b,
{
    let x = p + decimal_seq(a) + q;
    let y = p + decimal_seq(b) + q;
    assert(x.len() == p.len() + decimal_seq(a).len() + q.len());
    assert(y.len() == p.len() + decimal_seq(b).len() + q.len());
    assert(decimal_seq(a).len() == decimal_seq(b).len());
    assert(decimal_seq(a) =~= x.subrange(p.len() as int, (p.len() + decimal_seq(a).len()) as int));
    assert(decimal_seq(b) =~= y.subrange(p.len() as int, (p.len() + decimal_seq(b).len()) as int));
    lemma_decimal_injective(a, b);
}

/// Every configuration map holds fewer than `usize::MAX` entries in practice; under that
/// bound each numbered family of keys (administrators, users, the projects of each user)
/// ends below `usize::MAX`, so `load_permissions` may be called on it.
pub proof fn lemma_config_families_end(conf: BTreeMap<String, String>)
    requires
        conf@.len() < usize::MAX,
    ensures
        exists|n: nat| n < usize::MAX && !present(conf.deep_view(), admin_key(n)),
        exists|n: nat| n < usize::MAX && !present(conf.deep_view(), user_name_key(n)),
        forall|j: nat| #[trigger] projects_end(conf.deep_view(), j),
{
    broadcast use vstd::std_specs::btree::group_btree_axioms;
    let m = conf.deep_view();
    vstd::std_specs::btree::lemma_btree_map_deepview_dom(conf);
    vstd::set_lib::lemma_map_size_bound(conf@.dom(), m.dom(), |k: String| k.deep_view());
    let fa = |n: nat| admin_key(n);
    assert forall|a: nat, b: nat| #[trigger] fa(a) == #[trigger] fa(b) implies a == b by {
        assert(admin_key(a) == "permissions.admin_users."@ + decimal_seq(a) + Seq::<char>::empty());
        assert(admin_key(b) == "permissions.admin_users."@ + decimal_seq(b) + Seq::<char>::empty());
        lemma_prefix_suffix_injective("permissions.admin_users."@, Seq::<char>::empty(), a, b);
    }
    lemma_family_has_gap(m, fa);
    let n = choose|n: nat| n < usize::MAX && !present(m, #[trigger] fa(n));
    assert(!present(m, admin_key(n)));
    let fu = |n: nat| user_name_key(n);
    assert forall|a: nat, b: nat| #[trigger] fu(a) == #[trigger] fu(b) implies a == b by {
        lemma_prefix_suffix_injective("permissions.user."@, ".name"@, a, b);
    }
    lemma_family_has_gap(m, fu);
    let n2 = choose|n: nat| n < usize::MAX && !present(m, #[trigger] fu(n));
    assert(!present(m, user_name_key(n2)));
    assert forall|j: nat| #[trigger] projects_end(m, j) by {
        let fp = |k: nat| project_key(j, k);
        assert forall|a: nat, b: nat| #[trigger] fp(a) == #[trigger] fp(b) implies a == b by {
            lemma_prefix_suffix_injective("permissions.user."@ + decimal_seq(j) + ".projects."@, Seq::<char>::empty(), a, b);
            assert(project_key(j, a) =~= "permissions.user."@ + decimal_seq(j) + ".projects."@ + decimal_seq(a) + Seq::<char>::empty());
            assert(project_key(j, b) =~= "permissions.user."@ + decimal_seq(j) + ".projects."@ + decimal_seq(b) + Seq::<char>::empty());
        }
        lemma_family_has_gap(m, fp);
        let k = choose|k: nat| k < usize::MAX && !present(m, #[trigger] fp(k));
        assert(!present(m, project_key(j, k)));
    }
}

} // verus!
