//! Requests of the inference interface.
use vstd::prelude::*;

verus! {

/// Request to load a model.
#[derive(Debug, Clone)]
pub struct LoadModelRequest {
    /// Id to register the model under
    pub model_id: String,
    /// Directory that holds the model
    pub model_dir: String,
}

} // verus!
