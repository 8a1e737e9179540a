//! The keys of tenants' projects: the tenant, a colon, the key of the project.
use vstd::prelude::*;
use vstd::string::*;

use crate::provider::agent::{self, Agent};
use crate::provider::store::Project;
use crate::text::{find_char, joined};

verus! {

/// The position of the first colon, or the length of the text where there is none.
pub open spec fn first_colon(key: Seq<char>) -> int
    decreases key.len(),
{
    if key.len() == 0 || key[0] == ':' {
        0
    } else {
        1 + first_colon(key.skip(1))
    }
}

/// What stands before the first colon.
pub open spec fn tenant_part(key: Seq<char>) -> Seq<char> {
    key.take(first_colon(key))
}

/// What stands behind the first colon. Nothing where there is no colon.
pub open spec fn project_part(key: Seq<char>) -> Seq<char> {
    if first_colon(key) < key.len() {
        key.skip(first_colon(key) + 1)
    } else {
        Seq::empty()
    }
}

/// The tenant and the project that a composite key names, or what is said of a key that lacks one
/// of them.
pub open spec fn split_outcome(key: Seq<char>) -> Result<(Seq<char>, Seq<char>), Seq<char>> {
    if tenant_part(key).len() == 0 {
        Err("composite key missing tenant part: '"@ + key + "'"@)
    } else if project_part(key).len() == 0 {
        Err("composite key missing project part: '"@ + key + "'"@)
    } else {
        Ok((tenant_part(key), project_part(key)))
    }
}

/// A position is the first colon's exactly if there is none before it and either one at it or no
/// text left.
proof fn lemma_first_colon(key: Seq<char>, i: int)
    requires
        0 <= i <= key.len(),
        forall|j: int| 0 <= j < i ==> key[j] != ':',
        i < key.len() ==> key[i] == ':',
    ensures
        first_colon(key) == i,
    decreases i,
{
    if i > 0 {
        let rest = key.skip(1);
        assert forall|j: int| 0 <= j < i - 1 implies rest[j] != ':' by {
            assert(rest[j] == key[j + 1]);
        }
        if i < key.len() {
            assert(rest[i - 1] == key[i]);
        }
        assert(key[0] != ':');
        lemma_first_colon(rest, i - 1);
    }
}

/// The tenant and the project of a composite key. The first colon parts them.
pub fn split_composite_key(key: &str) -> (r: Result<(&str, &str), String>)
    ensures
        match r {
            Ok((tenant, project)) => split_outcome(key@) == Ok::<_, Seq<char>>(
                (tenant@, project@),
            ),
            Err(message) => split_outcome(key@) == Err::<(Seq<char>, Seq<char>), _>(message@),
        },
{
    let n: usize = key.unicode_len();
    let colon: usize = match find_char(key, ':') {
        Some(i) => i,
        None => n,
    };
    proof {
        assert forall|j: int| 0 <= j < colon implies key@[j] != ':' by {
            if key@[j] == ':' {
                assert(key@.contains(':'));
            }
        }
        lemma_first_colon(key@, colon as int);
        assert(key@.take(colon as int) =~= key@.subrange(0, colon as int));
    }
    let tenant: &str = key.substring_char(0, colon);
    if colon == 0 {
        return Err(joined("composite key missing tenant part: '", key, "'"));
    }
    if colon == n || colon + 1 == n {
        return Err(joined("composite key missing project part: '", key, "'"));
    }
    let project: &str = key.substring_char(colon + 1, n);
    assert(project@ =~= key@.skip(colon + 1));
    Ok((tenant, project))
}

/// A composite key gives back the tenant and the project it was put together from, where neither is
/// empty and the tenant has no colon.
pub proof fn law_composite_key_round_trip(tenant: Seq<char>, project: Seq<char>)
    requires
        tenant.len() > 0,
        !tenant.contains(':'),
        project.len() > 0,
    ensures
        split_outcome(agent::tenant_prefix(tenant) + project) == Ok::<_, Seq<char>>(
            (tenant, project),
        ),
{
    let key = agent::tenant_prefix(tenant) + project;
    let n = tenant.len() as int;
    assert forall|j: int| 0 <= j < n implies key[j] != ':' by {
        assert(key[j] == tenant[j]);
    }
    assert(key[n] == ':');
    lemma_first_colon(key, n);
    assert(tenant_part(key) =~= tenant);
    assert(project_part(key) =~= project);
}

/// A key begins with a tenant and a colon exactly if its tenant is that tenant, where the tenant
/// has no colon and the key has one.
proof fn lemma_prefix_is_tenant(key: Seq<char>, tenant: Seq<char>)
    requires
        !tenant.contains(':'),
    ensures
        agent::tenant_prefix(tenant).is_prefix_of(key) <==> key.contains(':') && tenant_part(key)
            == tenant,
{
    let prefix = agent::tenant_prefix(tenant);
    let n = tenant.len() as int;
    if prefix.is_prefix_of(key) {
        assert forall|j: int| 0 <= j < n implies key[j] != ':' by {
            assert(key[j] == prefix[j]);
            assert(prefix[j] == tenant[j]);
        }
        assert(key[n] == prefix[n]);
        lemma_first_colon(key, n);
        assert(tenant_part(key) =~= tenant);
    }
    if key.contains(':') && tenant_part(key) == tenant {
        lemma_first_colon_reached(key);
        assert(prefix =~= key.subrange(0, n + 1));
    }
}

/// A key with a colon has its first colon at the position that `first_colon` says.
proof fn lemma_first_colon_reached(key: Seq<char>)
    requires
        key.contains(':'),
    ensures
        0 <= first_colon(key) < key.len(),
        key[first_colon(key)] == ':',
    decreases key.len(),
{
    let i = choose|i: int| 0 <= i < key.len() && key[i] == ':';
    if key[0] != ':' {
        assert(key.skip(1)[i - 1] == ':');
        lemma_first_colon_reached(key.skip(1));
    }
}

/// A tenant without a colon in its name is only ever given projects whose keys name that tenant.
pub proof fn law_tenants_are_apart(
    agent: Agent,
    tenant: Seq<char>,
    project: Seq<char>,
    found: Option<std::sync::Arc<Project>>,
)
    requires
        !tenant.contains(':'),
        agent.finds_for_tenant(tenant, project, found),
        found is Some,
    ensures
        exists|key: Seq<char>| #[trigger]
            agent.data@.contains_key(key) && agent.data@[key] == found->0 && tenant_part(key)
                == tenant,
{
    let direct = agent::tenant_prefix(tenant) + project;
    if agent.data@.contains_key(direct) {
        assert(agent::tenant_prefix(tenant).is_prefix_of(direct)) by {
            assert(agent::tenant_prefix(tenant) =~= direct.subrange(
                0,
                agent::tenant_prefix(tenant).len() as int,
            ));
        }
        lemma_prefix_is_tenant(direct, tenant);
    } else {
        let key = choose|key: Seq<char>| #[trigger]
            agent.data@.contains_key(key) && agent::answers(
                key,
                agent.data@[key],
                agent::tenant_prefix(tenant),
                project,
            ) && agent.data@[key] == found->0;
        lemma_prefix_is_tenant(key, tenant);
    }
}

} // verus!
