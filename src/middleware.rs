//! The extraction step that decodes a request's key before its handler runs.

use crate::codec::{decode, KeyValue, PathParams};
use crate::rest::Rest;
use core::marker::PhantomData;
use vstd::prelude::*;

verus! {

/// Builds the extraction step for the entity `T`.
#[derive(Debug)]
pub struct PrimaryKey<T> {
    entity: PhantomData<T>,
}

/// The extraction step for the entity `T`.
#[derive(Debug)]
pub struct PrimaryKeyMiddleware<T> {
    entity: PhantomData<T>,
}

impl<T: Rest> PrimaryKey<T> {
    pub fn new() -> (r: Self) {
        PrimaryKey { entity: PhantomData }
    }

    pub fn new_transform(&self) -> (r: PrimaryKeyMiddleware<T>) {
        PrimaryKeyMiddleware { entity: PhantomData }
    }
}

impl<T: Rest> PrimaryKeyMiddleware<T> {
    /// Decodes the key of the request's path ahead of the handler. When decoding fails it
    /// leaves nothing and does not reject the request: the handler's own decoding reports
    /// the failure.
    pub fn call(&self, path: &PathParams) -> (r: Option<KeyValue>)
        ensures
            match r {
                Some(k) => decode(T::spec_descriptor(), None, path@) == Ok::<
                    Seq<crate::value::ValueView>,
                    crate::error::ErrorView,
                >(k@),
                None => decode(T::spec_descriptor(), None, path@) is Err,
            },
    {
        match T::id_from_path(None, path) {
            Ok(k) => Some(k),
            Err(_) => None,
        }
    }
}

} // verus!
