//! Scaffolding engine for component project templates.
//!
//! The library turns a read-only, in-memory catalog of template trees into
//! concrete project trees: it discovers and parses the template index,
//! rewrites identifiers under several naming conventions, and computes the
//! full list of filesystem actions that materialise a template, leaving the
//! actual disk writes to the caller.

use vstd::prelude::*;

pub mod catalog;
pub mod chars;
pub mod index;
pub mod instantiate;
pub mod json;
pub mod model;
pub mod naming;
pub mod strutil;
pub mod transform;

use crate::catalog::Catalog;
use crate::index::build_index;
use crate::index::index_spec;
use crate::index::IndexError;
use crate::index::IndexErrorV;
use crate::instantiate::acts_of;
use crate::instantiate::instantiate_plan;
use crate::instantiate::instantiate_spec;
use crate::instantiate::tr;
use crate::instantiate::InstantiateError;
use crate::instantiate::InstantiatePlan;
use crate::model::Example;
use crate::model::ExampleV;
use crate::model::ExampleParameters;
use crate::catalog::Act;

verus! {

/// The caller-facing contract of the scaffolding engine.
pub trait Examples {
    /// Lists every example of the catalog, in catalog iteration order: each
    /// language bucket's candidate directories, parsed and resolved. The
    /// outcome, the full list or the exact first configuration error, is
    /// the `index_spec` of the catalog.
    fn list_all_examples(catalog: &Catalog) -> (r: Result<Vec<Example>, IndexError>)
        ensures
            r matches Ok(es) ==> index_spec(catalog.examples, catalog.examples.entries@, 0) == Ok::<Seq<ExampleV>, IndexErrorV>(es.deep_view()),
            r matches Err(er) ==> index_spec(catalog.examples, catalog.examples.entries@, 0) == Err::<Seq<ExampleV>, IndexErrorV>(er@),
    ;

    /// Computes the instantiation plan for an example: the ordered
    /// filesystem actions that materialise it under the caller's names,
    /// and the rendered instruction text.
    fn instantiate(catalog: &Catalog, example: &Example, parameters: &ExampleParameters) -> (r:
        Result<InstantiatePlan, InstantiateError>)
        ensures
            r matches Ok(plan) ==> instantiate_spec(
                catalog.examples,
                catalog.adapters,
                catalog.wit,
                example@,
                *parameters,
            ) == Ok::<(Seq<Act>, Seq<char>), Seq<Seq<char>>>(
                (acts_of(plan.actions@), plan.instructions@),
            ),
            r matches Err(er) ==> (er matches InstantiateError::MissingEntry(path)
                && instantiate_spec(
                catalog.examples,
                catalog.adapters,
                catalog.wit,
                example@,
                *parameters,
            ) == Err::<(Seq<Act>, Seq<char>), Seq<Seq<char>>>(path.deep_view())),
    ;

    /// Renders an example's instruction text under the caller's names;
    /// pure, no catalog access.
    fn instructions(example: &Example, parameters: &ExampleParameters) -> (r: String)
        ensures
            r@ == tr(example.instructions@, *parameters),
    ;
}

/// The engine over the bundled catalog trees.
pub struct GolemExamples {}

impl Examples for GolemExamples {
    fn list_all_examples(catalog: &Catalog) -> (r: Result<Vec<Example>, IndexError>) {
        build_index(&catalog.examples)
    }

    fn instantiate(catalog: &Catalog, example: &Example, parameters: &ExampleParameters) -> (r:
        Result<InstantiatePlan, InstantiateError>) {
        instantiate_plan(&catalog.examples, &catalog.adapters, &catalog.wit, example, parameters)
    }

    fn instructions(example: &Example, parameters: &ExampleParameters) -> (r: String) {
        crate::transform::transform(example.instructions.as_str(), parameters)
    }
}

} // verus!
