//! What surrounds a catalog request for a model: where to ask, and how a
//! data source's answer is put in order.

use crate::pipeline_effects::endpoint::{
    basename, basenames, checked_construct_endpoint_url, endpoint_fits, endpoint_url,
};
use crate::pipeline_effects::gathering::{
    lemma_resolution_preserves_order, pipelines_of, DataSourceModelView, DataSourceRestModel,
    PipelineModelView,
};
use crate::pipeline_effects::{result_view, ProcessingError, ProcessingErrorView};
use crate::rendering::texts;
use vstd::prelude::*;
use vstd::string::*;

verus! {

/// The path segments under which the catalog holds the data source `id`.
pub open spec fn data_source_path(id: Seq<char>) -> Seq<Seq<char>> {
    seq!["data-sources"@, id]
}

/// The path segments under which the catalog holds the pipeline `id`.
pub open spec fn pipeline_path(id: Seq<char>) -> Seq<Seq<char>> {
    seq!["pipelines"@, id]
}

/// The address of the data source `data_source_id` in the catalog at
/// `endpoint_prefix`; no answer where the address could outgrow what the
/// `url` crate can hold.
pub fn data_source_endpoint(data_source_id: &str, endpoint_prefix: &str) -> (r: Option<
    Result<String, ProcessingError>,
>)
    ensures
        r is Some <==> endpoint_fits(endpoint_prefix@, data_source_path(data_source_id@)),
        r matches Some(built) ==> result_view(built) == endpoint_url(
            endpoint_prefix@,
            data_source_path(data_source_id@),
        ),
{
    let mut extension: Vec<String> = Vec::new();
    extension.push("data-sources".to_owned());
    extension.push(data_source_id.to_owned());
    assert(texts(extension@) =~= data_source_path(data_source_id@));
    checked_construct_endpoint_url(endpoint_prefix, &extension)
}

/// The address of the pipeline `pipeline_id` in the catalog at
/// `endpoint_prefix`; no answer where the address could outgrow what the
/// `url` crate can hold.
pub fn pipeline_endpoint(pipeline_id: &str, endpoint_prefix: &str) -> (r: Option<
    Result<String, ProcessingError>,
>)
    ensures
        r is Some <==> endpoint_fits(endpoint_prefix@, pipeline_path(pipeline_id@)),
        r matches Some(built) ==> result_view(built) == endpoint_url(
            endpoint_prefix@,
            pipeline_path(pipeline_id@),
        ),
{
    let mut extension: Vec<String> = Vec::new();
    extension.push("pipelines".to_owned());
    extension.push(pipeline_id.to_owned());
    assert(texts(extension@) =~= pipeline_path(pipeline_id@));
    checked_construct_endpoint_url(endpoint_prefix, &extension)
}

/// The terminal segments of `paths`, in their order.
pub open spec fn basenames_of(paths: Seq<Seq<char>>) -> Seq<Seq<char>> {
    paths.map_values(|path: Seq<char>| basename(path))
}

/// A data source as the catalog describes it, with each dependent pipeline
/// named by its id alone: the catalog may give a path that ends in the id.
pub fn normalized_data_source_model(model: DataSourceRestModel) -> (normalized:
    DataSourceRestModel)
    ensures
        normalized@ == (DataSourceModelView {
            dependent_pipelines: basenames_of(model@.dependent_pipelines),
            ..model@
        }),
{
    let dependent_pipelines = basenames(&model.dependent_pipelines);
    assert(texts(dependent_pipelines@) =~= basenames_of(texts(model.dependent_pipelines@)));
    DataSourceRestModel { id: model.id, description: model.description, dependent_pipelines }
}

/// Where the catalog answers for each id with a pipeline of that id, the
/// pipelines that a source event resolves to carry the terminal segments of
/// the source's dependents, in the catalog's order.
pub proof fn lemma_pipeline_ids_are_basenames(
    dependent_pipelines: Seq<Seq<char>>,
    catalog: spec_fn(Seq<char>) -> Result<PipelineModelView, ProcessingErrorView>,
)
    requires
        forall|id: Seq<char>| #[trigger] catalog(id) matches Ok(model) ==> model.id == id,
        pipelines_of(basenames_of(dependent_pipelines), catalog) is Ok,
    ensures
        pipelines_of(basenames_of(dependent_pipelines), catalog)->Ok_0.len()
            == dependent_pipelines.len(),
        forall|i: int|
            0 <= i < dependent_pipelines.len() ==> (#[trigger] pipelines_of(
                basenames_of(dependent_pipelines),
                catalog,
            )->Ok_0[i]).id == basename(dependent_pipelines[i]),
{
    let ids = basenames_of(dependent_pipelines);
    lemma_resolution_preserves_order(ids, catalog);
    assert forall|i: int| 0 <= i < dependent_pipelines.len() implies (#[trigger] pipelines_of(
        ids,
        catalog,
    )->Ok_0[i]).id == basename(dependent_pipelines[i]) by {
        assert(ids[i] == basename(dependent_pipelines[i]));
    }
}

} // verus!
