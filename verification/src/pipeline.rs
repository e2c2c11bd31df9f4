//! The persisted pipeline definition, as the gateway promises to keep it.
//!
//! The definition is a single document overwritten whole and read back whole.
//! This module is the verified model of that store: the shell mirrors every
//! transition onto the backing file (a write failure surfaces as
//! `GatewayError::IoError`, a missing file as `GatewayError::PipelineMissing`)
//! and keeps no other copy, so the round-trip contract here is exactly what
//! the pipeline endpoints promise.

use vstd::prelude::*;
use crate::errors::GatewayError;

verus! {

/// The pipeline document: absent until first written, then the bytes of the
/// last write, verbatim.
pub struct PipelineStore {
    pub content: Option<Vec<u8>>,
}

impl View for PipelineStore {
    type V = Option<Seq<u8>>;

    open spec fn view(&self) -> Option<Seq<u8>> {
        match self.content {
            Some(c) => Some(c@),
            None => None,
        }
    }
}

/// The store after a pipeline write: the written bytes, whole.
pub open spec fn put_spec(pre: Option<Seq<u8>>, bytes: Seq<u8>) -> Option<Seq<u8>> {
    Some(bytes)
}

/// What a pipeline read returns: the persisted document as-is, or the
/// not-found report where none exists.
pub open spec fn get_spec(s: Option<Seq<u8>>) -> Result<Seq<u8>, GatewayError> {
    match s {
        Some(c) => Ok(c),
        None => Err(GatewayError::PipelineMissing),
    }
}

impl PipelineStore {
    /// An empty store: nothing has been persisted yet.
    pub fn new() -> (s: PipelineStore)
        ensures
            s@ is None,
    {
        PipelineStore { content: None }
    }

    /// A store holding a document that already exists on disk.
    pub fn with_existing(bytes: Vec<u8>) -> (s: PipelineStore)
        ensures
            s@ == Some(bytes@),
    {
        PipelineStore { content: Some(bytes) }
    }

    /// Overwrites the document with the request body, verbatim.
    pub fn put(&mut self, bytes: Vec<u8>)
        ensures
            final(self)@ == put_spec(old(self)@, bytes@),
    {
        self.content = Some(bytes);
    }

    /// Returns the persisted document as-is, or reports that none exists.
    pub fn get(&self) -> (r: Result<&Vec<u8>, GatewayError>)
        ensures
            match get_spec(self@) {
                Ok(c) => r matches Ok(b) && b@ == c,
                Err(e) => r matches Err(g) && g == e,
            },
    {
        match &self.content {
            Some(c) => Ok(c),
            None => Err(GatewayError::PipelineMissing),
        }
    }
}

/// Law: writing a document and reading it straight back yields byte-identical
/// content, whatever the store held before — the store never rewrites, trims
/// or reorders what was put.
pub proof fn lemma_pipeline_round_trip(pre: Option<Seq<u8>>, bytes: Seq<u8>)
    ensures
        get_spec(put_spec(pre, bytes)) == Ok::<Seq<u8>, GatewayError>(bytes),
{
}

} // verus!
