//! The primary-key request context: the decoded key a handler reads instead of parsing the
//! path again.

use crate::codec::{decode, lemma_decode_len, KeyValue, PathParams};
use crate::error::{Error, ErrorView};
use crate::rest::Rest;
use crate::value::ValueView;
use core::marker::PhantomData;
use vstd::prelude::*;

verus! {

/// The decoded primary key of the entity `T` that a request addresses.
#[derive(Debug)]
pub struct PrimaryKey<T> {
    key: KeyValue,
    entity: PhantomData<T>,
}

impl<T> View for PrimaryKey<T> {
    type V = Seq<ValueView>;

    closed spec fn view(&self) -> Seq<ValueView> {
        self.key@
    }
}

pub open spec fn context_result<T>(r: Result<PrimaryKey<T>, Error>) -> Result<
    Seq<ValueView>,
    ErrorView,
> {
    match r {
        Ok(k) => Ok(k@),
        Err(e) => Err(e@),
    }
}

impl<T: Rest> PrimaryKey<T> {
    /// The key for the request: the one the extraction step left, when it has a value per
    /// key column; otherwise the key decoded from the path, whose failure is the request's.
    pub fn from_request(cached: Option<KeyValue>, path: &PathParams) -> (r: Result<
        PrimaryKey<T>,
        Error,
    >)
        ensures
            match r {
                Ok(k) => k@.len() == T::spec_descriptor().key.len(),
                Err(_) => true,
            },
            match cached {
                Some(c) if c@.len() == T::spec_descriptor().key.len() => context_result(r) == Ok::<
                    Seq<ValueView>,
                    ErrorView,
                >(c@),
                _ => context_result(r) == decode(T::spec_descriptor(), None, path@),
            },
    {
        proof {
            T::lemma_capabilities();
        }
        let desc = T::descriptor();
        if let Some(c) = cached {
            if c.values.len() == desc.key.len() {
                return Ok(PrimaryKey { key: c, entity: PhantomData });
            }
        }
        proof {
            lemma_decode_len(T::spec_descriptor(), None, path@);
        }
        match T::id_from_path(None, path) {
            Ok(key) => Ok(PrimaryKey { key, entity: PhantomData }),
            Err(e) => Err(e),
        }
    }

    /// The key value.
    pub fn value(&self) -> (k: &KeyValue)
        ensures
            k@ == self@,
    {
        &self.key
    }
}

} // verus!
