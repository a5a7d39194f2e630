//! The entity capability descriptor as a type-level contract: an entity's descriptor, its
//! create, update and filter payload types, and the key path codec they share.

use crate::codec::{
    decode, id_from_path, id_path, join_template, key_result, key_segment_names, scope_view,
    KeyValue, PathParams,
};
use crate::entity::{EntityDescriptor, EntityView};
use crate::error::Error;
use crate::filter::Filter;
use crate::model::{Create, Update};
use vstd::prelude::*;

verus! {

/// What an entity provides to be exposed over REST.
pub trait Rest {
    type Create: Create;

    type Update: Update;

    type Filter: Filter;

    /// The entity's columns and primary key.
    spec fn spec_descriptor() -> EntityView;

    fn descriptor() -> (d: EntityDescriptor)
        ensures
            d@ == Self::spec_descriptor(),
    ;

    /// The descriptor is well formed, and the payloads speak of its columns.
    proof fn lemma_capabilities()
        ensures
            Self::spec_descriptor().wf(),
            <Self::Create as Create>::spec_width() == Self::spec_descriptor().width(),
            <Self::Update as Update>::spec_width() == Self::spec_descriptor().width(),
    ;

    /// The URL template of the key: `{name}` per key column, in declared order, joined
    /// with `/`, each name after `<scope>_` when a scope is given.
    fn id_path(scope: Option<&str>) -> (r: String)
        ensures
            r@ == join_template(key_segment_names(Self::spec_descriptor(), scope_view(scope))),
    {
        proof {
            Self::lemma_capabilities();
        }
        id_path(&Self::descriptor(), scope)
    }

    /// Decodes the key from the segments the router matched.
    fn id_from_path(scope: Option<&str>, path: &PathParams) -> (r: Result<KeyValue, Error>)
        ensures
            key_result(r) == decode(Self::spec_descriptor(), scope_view(scope), path@),
    {
        proof {
            Self::lemma_capabilities();
        }
        id_from_path(&Self::descriptor(), scope, path)
    }
}

} // verus!
