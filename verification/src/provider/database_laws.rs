//! What becomes of the rows of a database, down to their characters.
use std::sync::Arc;

use vstd::prelude::*;

use crate::data::FileDecisionGraph;
use crate::outside;
use crate::provider::diff::{self, ProjectData};
use crate::provider::lookup_laws;
use crate::provider::pg::{
    self, DecisionModelRow, LoadAction, LoadEvent, LoadState, LoadedProject, ProjectDetailRow,
    ProjectSummaryRow, TokenRow,
};

verus! {

/// Each row is listed in its place, under its key and with the bytes of its release.
pub proof fn law_rows_are_listed(rows: Seq<ProjectSummaryRow>, data: Seq<ProjectData>)
    requires
        diff::listings(data) == pg::row_listings(rows),
    ensures
        data.len() == rows.len(),
        forall|i: int|
            0 <= i < rows.len() ==> (#[trigger] data[i]).key@ == rows[i].composite_key@ && (
            data[i].content_hash matches Some(hash) && hash@ == outside::uuid_bytes(
                rows[i].release_pk,
            )),
{
    assert(diff::listings(data).len() == data.len());
    assert forall|i: int| 0 <= i < rows.len() implies (#[trigger] data[i]).key@
        == rows[i].composite_key@ && (data[i].content_hash matches Some(hash) && hash@
        == outside::uuid_bytes(rows[i].release_pk)) by {
        assert(diff::listings(data)[i] == data[i]@);
    }
}

/// There are as many tokens as rows, and each has exactly the characters of the row in its place.
pub proof fn law_tokens_are_those_of_the_rows(list: Seq<Arc<str>>, tokens: Seq<TokenRow>)
    requires
        pg::shared_texts(list) == pg::row_tokens(tokens),
    ensures
        list.len() == tokens.len(),
        forall|i: int| 0 <= i < list.len() ==> (#[trigger] list[i])@ == tokens[i].token@,
{
    assert(pg::shared_texts(list).len() == list.len());
    assert forall|i: int| 0 <= i < list.len() implies (#[trigger] list[i])@ == tokens[i].token@ by {
        assert(pg::shared_texts(list)[i] == list[i]@);
    }
}

/// A loaded project has the characters of its row: the version, twice, the project's id and key, and
/// the release's id. It has the bytes of its release as its hash, and the tokens of the token rows,
/// each with exactly its characters and in its place.
pub proof fn law_loaded_release_is_that_of_the_rows<C>(
    loaded: LoadedProject<C>,
    row: ProjectDetailRow,
    models: Seq<DecisionModelRow<C>>,
    tokens: Seq<TokenRow>,
)
    requires
        pg::is_loaded_from(loaded, row, models, tokens),
    ensures
        loaded.release_data.version matches Some(version) && version@ == row.version@,
        loaded.release_data.project.id@ == row.project_id@,
        loaded.release_data.project.key@ == row.project_key@,
        loaded.release_data.release.id@ == row.release_id@,
        loaded.release_data.release.version@ == row.version@,
        loaded.release_data.access_tokens@.len() == tokens.len(),
        forall|i: int|
            0 <= i < tokens.len() ==> (#[trigger] loaded.release_data.access_tokens@[i])@
                == tokens[i].token@,
        loaded.content_hash@ == outside::uuid_bytes(row.release_pk),
        loaded.content_hash@.len() == 16,
{
    law_tokens_are_those_of_the_rows(loaded.release_data.access_tokens@, tokens);
}

/// The graph that the models have under a key is that of the last model with a graph whose key is
/// that key in lower case.
proof fn lemma_last_model<C>(models: Seq<DecisionModelRow<C>>, i: int)
    requires
        0 <= i < models.len(),
        models[i].content is Some,
        forall|j: int|
            i < j < models.len() && (#[trigger] models[j]).content is Some ==> outside::lower_case(
                models[j].model_key@,
            ) != outside::lower_case(models[i].model_key@),
    ensures
        pg::model_graphs(models).contains_key(outside::lower_case(models[i].model_key@)),
        pg::model_graphs(models)[outside::lower_case(models[i].model_key@)] == pg::model_graph(
            models[i],
        )->0,
    decreases models.len(),
{
    let init = models.drop_last();
    let last = models.len() - 1;
    if i < last {
        assert(init[i] == models[i]);
        assert forall|j: int|
            i < j < init.len() && (#[trigger] init[j]).content is Some implies outside::lower_case(
            init[j].model_key@,
        ) != outside::lower_case(init[i].model_key@) by {
            assert(init[j] == models[j]);
        }
        lemma_last_model(init, i);
        assert(models[last].content is Some ==> outside::lower_case(models[last].model_key@)
            != outside::lower_case(models[i].model_key@));
    }
}

/// Whatever the models have under a key comes from a model that no later one with a graph replaces.
proof fn lemma_model_of_key<C>(models: Seq<DecisionModelRow<C>>, key: Seq<char>) -> (i: int)
    requires
        pg::model_graphs(models).contains_key(key),
    ensures
        0 <= i < models.len(),
        models[i].content is Some,
        outside::lower_case(models[i].model_key@) == key,
        forall|j: int|
            i < j < models.len() && (#[trigger] models[j]).content is Some ==> outside::lower_case(
                models[j].model_key@,
            ) != key,
    decreases models.len(),
{
    let init = models.drop_last();
    let last = models.len() - 1;
    if models[last].content is Some && outside::lower_case(models[last].model_key@) == key {
        last
    } else {
        let i = lemma_model_of_key(init, key);
        assert(init[i] == models[i]);
        assert forall|j: int|
            i < j < models.len() && (#[trigger] models[j]).content is Some implies
            outside::lower_case(models[j].model_key@) != key by {
            if j < last {
                assert(init[j] == models[j]);
            }
        }
        i
    }
}

/// A model with a graph that no later one with a graph replaces is found under its key in lower
/// case, with its content, and with the version beside the content where there is one, or else the
/// one inside it.
pub proof fn law_models_are_kept<C>(
    content: Seq<(String, FileDecisionGraph<C>)>,
    models: Seq<DecisionModelRow<C>>,
    i: int,
)
    requires
        pg::holds_graphs(content, pg::model_graphs(models)),
        0 <= i < models.len(),
        models[i].content is Some,
        forall|j: int|
            i < j < models.len() && (#[trigger] models[j]).content is Some ==> outside::lower_case(
                models[j].model_key@,
            ) != outside::lower_case(models[i].model_key@),
    ensures
        exists|c: int|
            {
                let kept = (#[trigger] content[c]).1;
                let inner = models[i].content->0.meta.version_id;
                &&& 0 <= c < content.len()
                &&& content[c].0@ == outside::lower_case(models[i].model_key@)
                &&& kept.content == models[i].content->0.content
                &&& match models[i].version_id {
                    Some(version) => kept.meta.version_id is Some && kept.meta.version_id->0@
                        == version@,
                    None => (kept.meta.version_id is Some <==> inner is Some) && (
                    inner is Some ==> kept.meta.version_id->0@ == inner->0@),
                }
            },
{
    let key = outside::lower_case(models[i].model_key@);
    lemma_last_model(models, i);
    let c = choose|c: int| 0 <= c < content.len() && (#[trigger] content[c]).0@ == key;
    assert(pg::model_graphs(models)[key] == pg::graph_view(content[c].1));
    assert(pg::model_graph(models[i]) == Some(pg::graph_view(content[c].1)));
    assert(content[c].0@ == key);
}

/// Nothing is kept but models: each key that is kept is that of a model with a graph, in lower case,
/// that no later one with a graph replaces; and no key is kept twice.
pub proof fn law_nothing_but_models_is_kept<C>(
    content: Seq<(String, FileDecisionGraph<C>)>,
    models: Seq<DecisionModelRow<C>>,
    c: int,
) -> (i: int)
    requires
        pg::holds_graphs(content, pg::model_graphs(models)),
        0 <= c < content.len(),
    ensures
        0 <= i < models.len(),
        models[i].content is Some,
        outside::lower_case(models[i].model_key@) == content[c].0@,
        forall|j: int|
            i < j < models.len() && (#[trigger] models[j]).content is Some ==> outside::lower_case(
                models[j].model_key@,
            ) != content[c].0@,
        forall|d: int|
            0 <= d < content.len() && d != c ==> (#[trigger] content[d]).0@ != content[c].0@,
{
    assert(pg::model_graphs(models).contains_key(content[c].0@));
    lemma_model_of_key(models, content[c].0@)
}

/// The graphs of a loaded project are those of its models.
pub proof fn law_loaded_project_holds_its_models<C>(
    loaded: LoadedProject<C>,
    row: ProjectDetailRow,
    models: Seq<DecisionModelRow<C>>,
    tokens: Seq<TokenRow>,
    i: int,
)
    requires
        pg::is_loaded_from(loaded, row, models, tokens),
        0 <= i < models.len(),
        models[i].content is Some,
        forall|j: int|
            i < j < models.len() && (#[trigger] models[j]).content is Some ==> outside::lower_case(
                models[j].model_key@,
            ) != outside::lower_case(models[i].model_key@),
    ensures
        exists|c: int|
            0 <= c < loaded.content@.len() && (#[trigger] loaded.content@[c]).0@
                == outside::lower_case(models[i].model_key@) && loaded.content@[c].1.content
                == models[i].content->0.content,
{
    law_models_are_kept(loaded.content@, models, i);
    let c = choose|c: int|
        {
            let kept = (#[trigger] loaded.content@[c]).1;
            &&& 0 <= c < loaded.content@.len()
            &&& loaded.content@[c].0@ == outside::lower_case(models[i].model_key@)
            &&& kept.content == models[i].content->0.content
        };
    assert(0 <= c < loaded.content@.len());
}

/// A project that is read from the first answer to the last: the models of the release in the row are
/// asked for, then the tokens of the project in the row, and what is loaded has the characters of
/// the row, the bytes of its release, and the tokens in their places.
pub proof fn law_reading_of_a_project<C>(
    row: ProjectDetailRow,
    models: Vec<DecisionModelRow<C>>,
    tokens: Vec<TokenRow>,
    first: LoadState<C>,
    ask_models: LoadAction<C>,
    second: LoadState<C>,
    ask_tokens: LoadAction<C>,
    end: LoadState<C>,
    finish: LoadAction<C>,
)
    requires
        pg::reads_on(LoadState::Project, LoadEvent::Project(row), first, ask_models),
        pg::reads_on(first, LoadEvent::Models(models), second, ask_tokens),
        pg::reads_on(second, LoadEvent::Tokens(tokens), end, finish),
    ensures
        ask_models matches LoadAction::FetchModels { release_pk } && release_pk == row.release_pk,
        ask_tokens matches LoadAction::FetchTokens { project_pk } && project_pk == row.project_pk,
        end is Ended,
        finish matches LoadAction::Finish(loaded) && {
            let release = loaded.release_data;
            &&& release.project.id@ == row.project_id@
            &&& release.project.key@ == row.project_key@
            &&& release.release.id@ == row.release_id@
            &&& release.release.version@ == row.version@
            &&& release.version is Some && release.version->0@ == row.version@
            &&& loaded.content_hash@ == outside::uuid_bytes(row.release_pk)
            &&& release.access_tokens@.len() == tokens@.len()
            &&& forall|i: int|
                0 <= i < tokens@.len() ==> (#[trigger] release.access_tokens@[i])@
                    == tokens@[i].token@
            &&& pg::holds_graphs(loaded.content@, pg::model_graphs(models@))
        },
{
    law_loaded_release_is_that_of_the_rows(finish->Finish_0, row, models@, tokens@);
}

/// A database that fails ends the reading, with the words that it failed with.
pub proof fn law_failed_answer_ends_the_reading<C>(
    state: LoadState<C>,
    error: String,
    next: LoadState<C>,
    action: LoadAction<C>,
)
    requires
        pg::reads_on(state, LoadEvent::Failed(error), next, action),
    ensures
        next is Ended,
        action == LoadAction::<C>::Fail(error),
{
}

/// A project is asked for exactly if its key is a tenant, a colon and a project's key, neither of
/// them empty: by the tenant before the first colon and the key behind it. Any other key fails at
/// once.
pub proof fn law_project_is_asked_for_by_its_key<C>(
    key: Seq<char>,
    tenant: Seq<char>,
    project: Seq<char>,
    state: LoadState<C>,
    action: LoadAction<C>,
)
    requires
        pg::begins_to_read(key, state, action),
    ensures
        tenant.len() > 0 && project.len() > 0 && !tenant.contains(':') && key == tenant + seq![':']
            + project ==> (action matches LoadAction::FetchProject { tenant_slug, project_key }
            && tenant_slug@ == tenant && project_key@ == project) && state is Project,
        action matches LoadAction::FetchProject { tenant_slug, project_key } ==> key == tenant_slug@
            + seq![':'] + project_key@ && !tenant_slug@.contains(':') && tenant_slug@.len() > 0
            && project_key@.len() > 0,
        !(action is FetchProject) ==> action is Fail && state is Ended,
{
    lookup_laws::law_split_parts_make_the_key(key, tenant, project);
    if let LoadAction::FetchProject { tenant_slug, project_key } = action {
        lookup_laws::law_split_parts_make_the_key(key, tenant_slug@, project_key@);
    }
}

/// While a project is read no answer of the database is turned away for what it holds.
pub proof fn law_every_answer_is_expected<C>(
    row: ProjectDetailRow,
    models: Vec<DecisionModelRow<C>>,
    other: Vec<DecisionModelRow<C>>,
    tokens: Vec<TokenRow>,
    error: String,
)
    ensures
        LoadState::<C>::Project.expects(LoadEvent::Project(row)),
        LoadState::Models(row).expects(LoadEvent::Models(models)),
        LoadState::Tokens(row, other).expects(LoadEvent::Tokens(tokens)),
        LoadState::<C>::Project.expects(LoadEvent::Failed(error)),
        LoadState::<C>::Models(row).expects(LoadEvent::Failed(error)),
        LoadState::Tokens(row, other).expects(LoadEvent::Failed(error)),
{
}

} // verus!
