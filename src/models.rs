//! Catalog of the transcription models the worker can run.
use crate::text::{concat, has_prefix, same_text, starts_with};
use vstd::prelude::*;

verus! {

#[derive(Clone, Copy, Debug)]
pub struct ModelSpec {
    pub id: &'static str,
    pub name: &'static str,
    pub size_label: &'static str,
    pub folder: &'static str,
}

/// A model as offered for selection.
#[derive(Clone, Debug)]
pub struct ModelOption {
    pub id: String,
    pub name: String,
    pub size_label: String,
}

/// The catalog, in the order it is offered.
pub open spec fn catalog() -> Seq<ModelSpec> {
    seq![
        ModelSpec {
            id: "large-v3-turbo",
            name: "Large v3 Turbo",
            size_label: "0.81 GB",
            folder: "whisper-large-v3-turbo",
        },
        ModelSpec {
            id: "large-v3",
            name: "Large v3",
            size_label: "3.10 GB",
            folder: "whisper-large-v3",
        },
    ]
}

/// Whether some model of the catalog has this id.
pub open spec fn in_catalog(id: Seq<char>) -> bool {
    exists|k: int| 0 <= k < catalog().len() && (#[trigger] catalog()[k]).id@ == id
}

/// The models of the catalog.
pub fn model_specs() -> (r: Vec<ModelSpec>)
    ensures
        r@ == catalog(),
{
    let r = vec![
        ModelSpec {
            id: "large-v3-turbo",
            name: "Large v3 Turbo",
            size_label: "0.81 GB",
            folder: "whisper-large-v3-turbo",
        },
        ModelSpec {
            id: "large-v3",
            name: "Large v3",
            size_label: "3.10 GB",
            folder: "whisper-large-v3",
        },
    ];
    proof {
        assert(r@ =~= catalog());
    }
    r
}

/// The id of the model selected when nothing else is chosen.
pub fn default_model_id() -> (r: &'static str)
    ensures
        r@ == catalog()[0].id@,
{
    "large-v3-turbo"
}

/// The first model of the catalog with this id.
pub fn find_model(model_id: &str) -> (r: Option<ModelSpec>)
    ensures
        r is Some <==> in_catalog(model_id@),
        r matches Some(m) ==> exists|k: int|
            0 <= k < catalog().len() && catalog()[k] == m && m.id@ == model_id@,
{
    let specs = model_specs();
    let mut i: usize = 0;
    while i < specs.len()
        invariant
            specs@ == catalog(),
            i <= specs@.len(),
            forall|k: int| 0 <= k < i ==> (#[trigger] catalog()[k]).id@ != model_id@,
        decreases specs@.len() - i,
    {
        if same_text(specs[i].id, model_id) {
            return Some(specs[i]);
        }
        i = i + 1;
    }
    None
}

/// Where a model of the catalog is installed: `<app_data_dir>/models/<folder>`.
pub fn model_path(app_data_dir: &str, model_id: &str) -> (r: Option<String>)
    ensures
        r is Some <==> in_catalog(model_id@),
        r matches Some(p) ==> exists|k: int|
            0 <= k < catalog().len() && (#[trigger] catalog()[k]).id@ == model_id@ && p@
                == app_data_dir@ + "/models/"@ + catalog()[k].folder@,
{
    let model = find_model(model_id)?;
    let dir = concat(app_data_dir, "/models/");
    Some(concat(dir.as_str(), model.folder))
}

/// The catalog as options for selection.
pub fn model_options() -> (r: Vec<ModelOption>)
    ensures
        r@.len() == catalog().len(),
        forall|k: int|
            0 <= k < r@.len() ==> (#[trigger] r@[k]).id@ == catalog()[k].id@ && r@[k].name@
                == catalog()[k].name@ && r@[k].size_label@ == catalog()[k].size_label@,
{
    let specs = model_specs();
    let mut out: Vec<ModelOption> = Vec::new();
    let mut i: usize = 0;
    while i < specs.len()
        invariant
            specs@ == catalog(),
            i <= specs@.len(),
            out@.len() == i,
            forall|k: int|
                0 <= k < i ==> (#[trigger] out@[k]).id@ == catalog()[k].id@ && out@[k].name@
                    == catalog()[k].name@ && out@[k].size_label@ == catalog()[k].size_label@,
        decreases specs@.len() - i,
    {
        let m = specs[i];
        out.push(
            ModelOption {
                id: m.id.to_owned(),
                name: m.name.to_owned(),
                size_label: m.size_label.to_owned(),
            },
        );
        i = i + 1;
    }
    out
}

/// Whether a file of a model directory holds weights: its name begins with
/// `weights.` or `model`.
pub open spec fn is_weights_name(name: Seq<char>) -> bool {
    has_prefix(name, "weights."@) || has_prefix(name, "model"@)
}

/// Whether a file of a model directory holds weights.
pub fn is_weights_file(name: &str) -> (r: bool)
    ensures
        r == is_weights_name(name@),
{
    starts_with(name, "weights.") || starts_with(name, "model")
}

} // verus!
