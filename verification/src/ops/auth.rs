//! Who may ask: the credentials that guard a path, and whether a request
//! carries them.

use crate::text::{chars_of, last_index_of, lemma_last_index_of, rfind_char, same, slice};
use vstd::prelude::*;

verus! {

/// A user name, and a password where one is set.
pub struct Credentials {
    pub username: String,
    pub password: Option<String>,
}

/// The text of an optional string.
pub open spec fn text_of(s: Option<String>) -> Option<Seq<char>> {
    match s {
        Some(t) => Some(t@),
        None => None,
    }
}

impl View for Credentials {
    type V = (Seq<char>, Option<Seq<char>>);

    open spec fn view(&self) -> (Seq<char>, Option<Seq<char>>) {
        (self.username@, text_of(self.password))
    }
}

/// What guards one path: credentials, or the word that none are needed there.
pub struct PathPolicy {
    pub path: String,
    pub credentials: Option<Credentials>,
}

/// The credentials that a policy asks for, as texts.
pub open spec fn asked(policy: Option<Credentials>) -> Option<(Seq<char>, Option<Seq<char>>)> {
    match policy {
        Some(c) => Some(c@),
        None => None,
    }
}

/// The offset of the first policy for `path` in `policies`, or their number.
pub open spec fn policy_index(policies: Seq<PathPolicy>, path: Seq<char>) -> int
    decreases policies.len(),
{
    if policies.len() == 0 {
        0
    } else if policies[0].path@ == path {
        0
    } else {
        1 + policy_index(policies.skip(1), path)
    }
}

proof fn lemma_policy_index(policies: Seq<PathPolicy>, path: Seq<char>)
    ensures
        0 <= policy_index(policies, path) <= policies.len(),
        forall|j: int| 0 <= j < policy_index(policies, path) ==> (#[trigger] policies[j]).path@ != path,
        policy_index(policies, path) < policies.len() ==> policies[policy_index(
            policies,
            path,
        )].path@ == path,
    decreases policies.len(),
{
    if policies.len() != 0 && policies[0].path@ != path {
        let t = policies.skip(1);
        lemma_policy_index(t, path);
        assert forall|j: int| 0 <= j < policy_index(policies, path) implies (
        #[trigger] policies[j]).path@ != path by {
            if j > 0 {
                assert(t[j - 1] == policies[j]);
            }
        }
        if policy_index(t, path) < t.len() {
            assert(t[policy_index(t, path)] == policies[policy_index(t, path) + 1]);
        }
    }
}

/// `path` without one slash at its start and one at its end.
pub open spec fn trimmed(path: Seq<char>) -> Seq<char> {
    let a = if path.len() > 0 && path[0] == '/' {
        path.skip(1)
    } else {
        path
    };
    if a.len() > 0 && a.last() == '/' {
        a.drop_last()
    } else {
        a
    }
}

/// `path` up to its last slash, or nothing where it has none.
pub open spec fn parent_of(path: Seq<char>) -> Seq<char> {
    let i = last_index_of(path, '/');
    if 0 <= i < path.len() {
        path.take(i)
    } else {
        Seq::empty()
    }
}

/// What guards `path`: the policy of the path itself, else that of the
/// nearest path above it that has one, else the global one. The longest
/// prefix wins.
pub open spec fn policy_for(
    policies: Seq<PathPolicy>,
    global: Option<Credentials>,
    path: Seq<char>,
) -> Option<Credentials>
    decreases path.len(),
{
    if path.len() == 0 {
        global
    } else if policy_index(policies, path) < policies.len() {
        policies[policy_index(policies, path)].credentials
    } else {
        policy_for(policies, global, parent_of(path))
    }
}

/// A path with its own policy is guarded by it.
pub proof fn lemma_own_policy_wins(
    policies: Seq<PathPolicy>,
    global: Option<Credentials>,
    i: int,
)
    requires
        0 <= i < policies.len(),
        policies[i].path@.len() > 0,
        forall|j: int| 0 <= j < i ==> (#[trigger] policies[j]).path@ != policies[i].path@,
    ensures
        policy_for(policies, global, policies[i].path@) == policies[i].credentials,
{
    lemma_policy_index(policies, policies[i].path@);
}

/// A path without a policy of its own is guarded as the path above it is:
/// with policies on `a` and `a/b`, `a/b/c` is guarded as `a/b`.
pub proof fn lemma_longest_prefix_wins(
    policies: Seq<PathPolicy>,
    global: Option<Credentials>,
    above: Seq<char>,
    name: Seq<char>,
)
    requires
        forall|k: int| 0 <= k < name.len() ==> name[k] != '/',
        forall|j: int|
            0 <= j < policies.len() ==> (#[trigger] policies[j]).path@ != above + seq!['/'] + name,
    ensures
        policy_for(policies, global, above + seq!['/'] + name) == policy_for(
            policies,
            global,
            above,
        ),
{
    let path = above + seq!['/'] + name;
    lemma_policy_index(policies, path);
    lemma_last_index_of(path, '/');
    let i = last_index_of(path, '/');
    assert(path[above.len() as int] == '/');
    assert(i == above.len()) by {
        if i > above.len() {
            assert(path[i] == name[i - above.len() - 1]);
        }
    }
    assert(path.take(i) =~= above);
}

/// `above` with the segments `names` below it, slashes between them.
pub open spec fn below_path(above: Seq<char>, names: Seq<Seq<char>>) -> Seq<char>
    decreases names.len(),
{
    if names.len() == 0 {
        above
    } else {
        below_path(above, names.drop_last()) + seq!['/'] + names.last()
    }
}

/// However deep a path lies below `above`, it is guarded as `above` is, as
/// long as neither it nor any path between the two has a policy of its own.
pub proof fn lemma_nearest_policy_wins(
    policies: Seq<PathPolicy>,
    global: Option<Credentials>,
    above: Seq<char>,
    names: Seq<Seq<char>>,
)
    requires
        forall|i: int, k: int|
            0 <= i < names.len() && 0 <= k < names[i].len() ==> (#[trigger] names[i][k]) != '/',
        forall|n: int, j: int|
            1 <= n <= names.len() && 0 <= j < policies.len() ==> (#[trigger] policies[j]).path@
                != #[trigger] below_path(above, names.take(n)),
    ensures
        policy_for(policies, global, below_path(above, names)) == policy_for(
            policies,
            global,
            above,
        ),
    decreases names.len(),
{
    if names.len() != 0 {
        let shorter = names.drop_last();
        assert forall|n: int, j: int|
            1 <= n <= shorter.len() && 0 <= j < policies.len() implies (#[trigger] policies[j]).path@
            != #[trigger] below_path(above, shorter.take(n)) by {
            assert(shorter.take(n) =~= names.take(n));
        }
        lemma_nearest_policy_wins(policies, global, above, shorter);
        assert(names.take(names.len() as int) =~= names);
        assert forall|j: int| 0 <= j < policies.len() implies (#[trigger] policies[j]).path@
            != below_path(above, shorter) + seq!['/'] + names.last() by {
            assert(policies[j].path@ != below_path(above, names.take(names.len() as int)));
        }
        lemma_longest_prefix_wins(policies, global, below_path(above, shorter), names.last());
    }
}

/// The credentials that a request carries pass for `expected`: the names are
/// the same and so are the passwords, an empty password counting as none.
pub open spec fn credentials_match(
    expected: (Seq<char>, Option<Seq<char>>),
    given: (Seq<char>, Option<Seq<char>>),
) -> bool {
    let password = if given.1 == Some(Seq::<char>::empty()) {
        None
    } else {
        given.1
    };
    expected.0 == given.0 && expected.1 == password
}

/// What the guard makes of a request.
#[derive(Debug, Clone, Copy, PartialEq, Eq, Structural)]
pub enum AuthVerdict {
    /// Nothing guards the path.
    Open,
    /// The request carries the credentials that guard the path.
    Authorised,
    /// The request carries credentials, but not the right ones.
    Invalid,
    /// The request carries no credentials.
    Missing,
}

/// The verdict on a request for a path that `policy` guards.
pub open spec fn verdict_of(
    policy: Option<(Seq<char>, Option<Seq<char>>)>,
    given: Option<(Seq<char>, Option<Seq<char>>)>,
) -> AuthVerdict {
    match policy {
        None => AuthVerdict::Open,
        Some(expected) => match given {
            None => AuthVerdict::Missing,
            Some(g) => if credentials_match(expected, g) {
                AuthVerdict::Authorised
            } else {
                AuthVerdict::Invalid
            },
        },
    }
}

fn find_policy(policies: &Vec<PathPolicy>, path: &Vec<char>) -> (r: Option<usize>)
    ensures
        match r {
            Some(i) => i < policies@.len() && i == policy_index(policies@, path@),
            None => policy_index(policies@, path@) == policies@.len(),
        },
{
    proof {
        lemma_policy_index(policies@, path@);
    }
    let mut i: usize = 0;
    while i < policies.len()
        invariant
            i <= policies.len(),
            forall|j: int| 0 <= j < i ==> (#[trigger] policies@[j]).path@ != path@,
            0 <= policy_index(policies@, path@) <= policies@.len(),
            forall|j: int|
                0 <= j < policy_index(policies@, path@) ==> (#[trigger] policies@[j]).path@
                    != path@,
            policy_index(policies@, path@) < policies@.len() ==> policies@[policy_index(
                policies@,
                path@,
            )].path@ == path@,
        decreases policies.len() - i,
    {
        let p = chars_of(policies[i].path.as_str());
        if same(&p, path) {
            return Some(i);
        }
        i = i + 1;
    }
    None
}

/// Where in `policies` the policy that guards `url_path` stands, or `None`
/// where the global policy does.
pub fn resolve_policy(policies: &Vec<PathPolicy>, url_path: &str) -> (r: Option<usize>)
    ensures
        match r {
            Some(i) => i < policies@.len() && forall|global: Option<Credentials>|
                #[trigger] policy_for(policies@, global, trimmed(url_path@))
                    == policies@[i as int].credentials,
            None => forall|global: Option<Credentials>|
                #[trigger] policy_for(policies@, global, trimmed(url_path@)) == global,
        },
{
    let all = chars_of(url_path);
    let from: usize = if all.len() > 0 && all[0] == '/' {
        1
    } else {
        0
    };
    let to: usize = if all.len() > from && all[all.len() - 1] == '/' {
        all.len() - 1
    } else {
        all.len()
    };
    let mut path = slice(&all, from, to);
    proof {
        let a = if all@.len() > 0 && all@[0] == '/' {
            all@.skip(1)
        } else {
            all@
        };
        assert(a =~= all@.subrange(from as int, all@.len() as int));
        assert(path@ =~= trimmed(url_path@));
    }
    while path.len() > 0
        invariant
            forall|global: Option<Credentials>|
                #[trigger] policy_for(policies@, global, trimmed(url_path@)) == policy_for(
                    policies@,
                    global,
                    path@,
                ),
        decreases path.len(),
    {
        match find_policy(policies, &path) {
            Some(i) => {
                return Some(i);
            },
            None => {},
        }
        proof {
            lemma_last_index_of(path@, '/');
        }
        let cut: usize = match rfind_char(&path, '/') {
            Some(i) => i,
            None => 0,
        };
        let shorter = slice(&path, 0, cut);
        assert(shorter@ =~= parent_of(path@));
        path = shorter;
    }
    None
}

fn same_text(a: &str, b: &str) -> (r: bool)
    ensures
        r == (a@ == b@),
{
    same(&chars_of(a), &chars_of(b))
}

/// Whether the credentials `given` pass for `expected`.
pub fn check_credentials(expected: &Credentials, given: &Credentials) -> (r: bool)
    ensures
        r == credentials_match(expected@, given@),
{
    if !same_text(expected.username.as_str(), given.username.as_str()) {
        return false;
    }
    match &given.password {
        Some(g) => {
            if g.as_str().unicode_len() == 0 {
                assert(g@ =~= Seq::<char>::empty());
                expected.password.is_none()
            } else {
                match &expected.password {
                    Some(e) => same_text(e.as_str(), g.as_str()),
                    None => false,
                }
            }
        },
        None => expected.password.is_none(),
    }
}

/// The verdict on a request that asks for `url_path` and carries the
/// credentials `given`.
pub fn verify(
    global: &Option<Credentials>,
    policies: &Vec<PathPolicy>,
    url_path: &str,
    given: &Option<Credentials>,
) -> (r: AuthVerdict)
    ensures
        r == verdict_of(
            asked(policy_for(policies@, *global, trimmed(url_path@))),
            asked(*given),
        ),
{
    let found = resolve_policy(policies, url_path);
    let policy: &Option<Credentials> = match found {
        Some(i) => &policies[i].credentials,
        None => global,
    };
    assert(*policy == policy_for(policies@, *global, trimmed(url_path@)));
    match policy {
        None => AuthVerdict::Open,
        Some(expected) => match given {
            None => AuthVerdict::Missing,
            Some(g) => if check_credentials(expected, g) {
                AuthVerdict::Authorised
            } else {
                AuthVerdict::Invalid
            },
        },
    }
}

} // verus!
