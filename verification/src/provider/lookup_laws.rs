//! What a search for a project finds, down to the characters of keys and ids.
use std::sync::Arc;

use vstd::prelude::*;

use crate::provider::agent::{self, Agent};
use crate::provider::composite_key;
use crate::provider::store::{Project, Walk};

verus! {

/// What a request for a project may be given: the project that is held under the asked key; where
/// there is none, a held project whose release says that the project has the asked id; nothing
/// exactly where there is none either. No other field of the release has a say.
pub proof fn law_project_by_key_or_id(
    agent: Agent,
    project: Seq<char>,
    found: Option<Arc<Project>>,
)
    requires
        agent.finds(project, found),
    ensures
        agent.data@.contains_key(project) ==> found == Some(agent.data@[project]),
        !agent.data@.contains_key(project) && found is Some ==> exists|key: Seq<char>|
            {
                &&& #[trigger] agent.data@.contains_key(key)
                &&& agent.data@[key] == found->0
                &&& agent.data@[key].release_data is Some
                &&& agent.data@[key].release_data->0.project.id@ == project
            },
        (exists|key: Seq<char>|
            {
                &&& #[trigger] agent.data@.contains_key(key)
                &&& agent.data@[key].release_data is Some
                &&& agent.data@[key].release_data->0.project.id@ == project
            }) ==> found is Some,
{
    assert forall|key: Seq<char>| Seq::<char>::empty().is_prefix_of(key) by {}
    if !agent.data@.contains_key(project) && found is None {
        assert forall|key: Seq<char>| #[trigger] agent.data@.contains_key(key) implies !(
        agent.data@[key].release_data is Some && agent.data@[key].release_data->0.project.id@
            == project) by {
            assert(!agent::answers(key, agent.data@[key], Seq::empty(), project));
            assert(Seq::<char>::empty().is_prefix_of(key));
        }
    }
}

/// What a request for a project of a tenant may be given: the project that is held under the tenant,
/// a colon and the asked key; where there is none, a held project whose key begins with the tenant
/// and a colon and whose release says that the project has the asked id; nothing exactly where there
/// is none either. No other field of the release has a say.
pub proof fn law_tenant_project_by_key_or_id(
    agent: Agent,
    tenant: Seq<char>,
    project: Seq<char>,
    found: Option<Arc<Project>>,
)
    requires
        agent.finds_for_tenant(tenant, project, found),
    ensures
        agent.data@.contains_key(tenant + seq![':'] + project) ==> found == Some(
            agent.data@[tenant + seq![':'] + project],
        ),
        !agent.data@.contains_key(tenant + seq![':'] + project) && found is Some ==> exists|
            key: Seq<char>,
        |
            {
                &&& #[trigger] agent.data@.contains_key(key)
                &&& key.len() > tenant.len()
                &&& key.take(tenant.len() as int) == tenant
                &&& key[tenant.len() as int] == ':'
                &&& agent.data@[key] == found->0
                &&& agent.data@[key].release_data is Some
                &&& agent.data@[key].release_data->0.project.id@ == project
            },
        (exists|key: Seq<char>|
            {
                &&& #[trigger] agent.data@.contains_key(key)
                &&& key.len() > tenant.len()
                &&& key.take(tenant.len() as int) == tenant
                &&& key[tenant.len() as int] == ':'
                &&& agent.data@[key].release_data is Some
                &&& agent.data@[key].release_data->0.project.id@ == project
            }) ==> found is Some,
{
    let prefix = agent::tenant_prefix(tenant);
    let direct = tenant + seq![':'] + project;
    assert(prefix + project =~= direct);
    if !agent.data@.contains_key(direct) {
        match found {
            Some(_) => {
                let key = choose|key: Seq<char>| #[trigger]
                    agent.data@.contains_key(key) && agent::answers(
                        key,
                        agent.data@[key],
                        prefix,
                        project,
                    ) && agent.data@[key] == found->0;
                lemma_tenant_prefix(tenant, key);
                assert(agent.data@.contains_key(key));
            },
            None => {
                assert forall|key: Seq<char>| #[trigger]
                    agent.data@.contains_key(key) && key.len() > tenant.len() && key.take(
                        tenant.len() as int,
                    ) == tenant && key[tenant.len() as int] == ':' implies !(
                agent.data@[key].release_data is Some
                    && agent.data@[key].release_data->0.project.id@ == project) by {
                    assert(!agent::answers(key, agent.data@[key], prefix, project));
                    lemma_tenant_prefix(tenant, key);
                }
            },
        }
    }
}

/// A key begins with what a tenant's keys begin with exactly if it begins with the tenant and a
/// colon.
proof fn lemma_tenant_prefix(tenant: Seq<char>, key: Seq<char>)
    ensures
        agent::tenant_prefix(tenant).is_prefix_of(key) <==> key.len() > tenant.len() && key.take(
            tenant.len() as int,
        ) == tenant && key[tenant.len() as int] == ':',
{
    let prefix = agent::tenant_prefix(tenant);
    let n = tenant.len() as int;
    if prefix.is_prefix_of(key) {
        assert(prefix[n] == key[n]);
        assert forall|i: int| 0 <= i < n implies key[i] == tenant[i] by {
            assert(prefix[i] == key[i]);
        }
        assert(key.take(n) =~= tenant);
    }
    if key.len() > n && key.take(n) == tenant && key[n] == ':' {
        assert forall|i: int| 0 <= i < n implies key[i] == tenant[i] by {
            assert(key.take(n)[i] == key[i]);
        }
        assert(prefix =~= key.subrange(0, prefix.len() as int));
    }
}

/// A search by id gives the first project of the walk whose key begins with the prefix and whose
/// release says that the project has the id.
pub proof fn law_search_gives_first_of_walk(
    walk: Walk,
    prefix: Seq<char>,
    id: Seq<char>,
    i: int,
)
    requires
        0 <= i < walk.len(),
        prefix.is_prefix_of(walk[i].0@),
        walk[i].1.release_data is Some,
        walk[i].1.release_data->0.project.id@ == id,
        forall|j: int|
            0 <= j < i ==> !(prefix.is_prefix_of((#[trigger] walk[j]).0@)
                && walk[j].1.release_data is Some && walk[j].1.release_data->0.project.id@ == id),
    ensures
        agent::first_answer(walk, prefix, id) == Some(walk[i].1),
    decreases i,
{
    if i > 0 {
        let rest = walk.skip(1);
        assert(rest[i - 1] == walk[i]);
        assert(!agent::answers(walk[0].0@, walk[0].1, prefix, id));
        assert forall|j: int| 0 <= j < i - 1 implies !(prefix.is_prefix_of(
            (#[trigger] rest[j]).0@,
        ) && rest[j].1.release_data is Some && rest[j].1.release_data->0.project.id@ == id) by {
            assert(rest[j] == walk[j + 1]);
        }
        law_search_gives_first_of_walk(rest, prefix, id, i - 1);
    }
}

/// A search by id gives nothing where no project of the walk has a key that begins with the prefix
/// and a release that says that the project has the id.
pub proof fn law_search_gives_nothing_else(walk: Walk, prefix: Seq<char>, id: Seq<char>)
    requires
        forall|j: int|
            0 <= j < walk.len() ==> !(prefix.is_prefix_of((#[trigger] walk[j]).0@)
                && walk[j].1.release_data is Some && walk[j].1.release_data->0.project.id@ == id),
    ensures
        agent::first_answer(walk, prefix, id) is None,
    decreases walk.len(),
{
    if walk.len() > 0 {
        let rest = walk.skip(1);
        assert(!agent::answers(walk[0].0@, walk[0].1, prefix, id));
        assert forall|j: int| 0 <= j < rest.len() implies !(prefix.is_prefix_of(
            (#[trigger] rest[j]).0@,
        ) && rest[j].1.release_data is Some && rest[j].1.release_data->0.project.id@ == id) by {
            assert(rest[j] == walk[j + 1]);
        }
        law_search_gives_nothing_else(rest, prefix, id);
    }
}

/// On a walk a request is given the project that is held under the asked key, or else what a search
/// by id gives; of a tenant's projects, under the tenant, a colon and the asked key, or else what a
/// search by id gives among the keys that begin with the tenant and a colon.
pub proof fn law_lookup_on_walk(
    agent: Agent,
    walk: Walk,
    tenant: Seq<char>,
    project: Seq<char>,
)
    ensures
        agent.found_on(walk, project) == (if agent.data@.contains_key(project) {
            Some(agent.data@[project])
        } else {
            agent::first_answer(walk, Seq::empty(), project)
        }),
        agent.found_for_tenant_on(walk, tenant, project) == (if agent.data@.contains_key(
            tenant + seq![':'] + project,
        ) {
            Some(agent.data@[tenant + seq![':'] + project])
        } else {
            agent::first_answer(walk, tenant + seq![':'], project)
        }),
{
    assert(agent::tenant_prefix(tenant) =~= tenant + seq![':']);
    assert(agent::tenant_prefix(tenant) + project =~= tenant + seq![':'] + project);
}

/// A composite key is split into a tenant and a project exactly if it is that tenant, a colon and
/// that project, neither of them is empty, and the tenant has no colon.
pub proof fn law_split_parts_make_the_key(key: Seq<char>, tenant: Seq<char>, project: Seq<char>)
    ensures
        composite_key::split_outcome(key) == Ok::<_, Seq<char>>((tenant, project)) <==> {
            &&& tenant.len() > 0
            &&& project.len() > 0
            &&& !tenant.contains(':')
            &&& key == tenant + seq![':'] + project
        },
{
    if composite_key::split_outcome(key) == Ok::<_, Seq<char>>((tenant, project)) {
        let n = composite_key::first_colon(key);
        lemma_first_colon_is_first(key);
        assert(!tenant.contains(':')) by {
            if tenant.contains(':') {
                let j = choose|j: int| 0 <= j < tenant.len() && tenant[j] == ':';
                assert(key[j] == ':');
            }
        }
        assert(key =~= tenant + seq![':'] + project);
    }
    if tenant.len() > 0 && project.len() > 0 && !tenant.contains(':') && key == tenant + seq![':']
        + project {
        composite_key::law_composite_key_round_trip(tenant, project);
        assert(agent::tenant_prefix(tenant) + project =~= key);
    }
}

/// No colon stands before the first one, and what `first_colon` points at is a colon or the end.
proof fn lemma_first_colon_is_first(key: Seq<char>)
    ensures
        0 <= composite_key::first_colon(key) <= key.len(),
        forall|j: int| 0 <= j < composite_key::first_colon(key) ==> key[j] != ':',
        composite_key::first_colon(key) < key.len() ==> key[composite_key::first_colon(key)]
            == ':',
    decreases key.len(),
{
    if key.len() > 0 && key[0] != ':' {
        let rest = key.skip(1);
        lemma_first_colon_is_first(rest);
        assert forall|j: int| 0 <= j < composite_key::first_colon(key) implies key[j] != ':' by {
            if j > 0 {
                assert(rest[j - 1] == key[j]);
            }
        }
    }
}

/// A composite key that cannot be split is empty or begins with a colon, and is then said to lack
/// its tenant, or has no colon or only one at its end, and is then said to lack its project. Either
/// message quotes the key.
pub proof fn law_unsplit_keys(key: Seq<char>, message: Seq<char>)
    requires
        composite_key::split_outcome(key) == Err::<(Seq<char>, Seq<char>), _>(message),
    ensures
        key.len() == 0 || key[0] == ':' ==> message == "composite key missing tenant part: '"@ + key
            + "'"@,
        key.len() > 0 && key[0] != ':' ==> message == "composite key missing project part: '"@ + key
            + "'"@ && forall|j: int| 0 <= j < key.len() - 1 ==> key[j] != ':',
{
    lemma_first_colon_is_first(key);
    if key.len() > 0 && key[0] != ':' {
        let n = composite_key::first_colon(key);
        assert(n > 0);
        assert(n >= key.len() - 1);
    }
}

/// The tenant of a key is what stands before its first colon.
pub proof fn law_tenant_part_ends_at_first_colon(key: Seq<char>)
    requires
        key.contains(':'),
    ensures
        !composite_key::tenant_part(key).contains(':'),
        (composite_key::tenant_part(key) + seq![':']).is_prefix_of(key),
{
    lemma_first_colon_is_first(key);
    let n = composite_key::first_colon(key);
    let tenant = composite_key::tenant_part(key);
    let i = choose|i: int| 0 <= i < key.len() && key[i] == ':';
    assert(n <= i);
    if tenant.contains(':') {
        let j = choose|j: int| 0 <= j < tenant.len() && tenant[j] == ':';
        assert(key[j] == ':');
    }
    assert(tenant + seq![':'] =~= key.subrange(0, n + 1));
}

} // verus!
