//! Backend manager: tracks which backend holds the loaded model.
use vstd::prelude::*;

use crate::backend_selector::{
    format_of_extension, path_extension, selected_backend, BackendChoice, BackendPreference, BackendSelector,
};
use crate::error::{text, MinervaError, MinervaResult};

verus! {

/// Backend type identifier.
#[derive(Debug, Clone, Copy, PartialEq, Eq, Structural)]
pub enum BackendType {
    /// llama.cpp backend
    LlamaCpp,
    /// Pure Rust backend
    PureRust,
}

/// Display name of a backend.
pub open spec fn backend_type_name(t: BackendType) -> Seq<char> {
    match t {
        BackendType::LlamaCpp => "llama.cpp"@,
        BackendType::PureRust => "Pure Rust"@,
    }
}

impl BackendType {
    /// Display name of the backend.
    pub fn to_string(&self) -> (r: String)
        ensures
            r@ == backend_type_name(*self),
    {
        match self {
            BackendType::LlamaCpp => text("llama.cpp"),
            BackendType::PureRust => text("Pure Rust"),
        }
    }
}

/// The backend type a selection names, if any.
pub open spec fn backend_of(selected: Option<bool>) -> Option<BackendType> {
    match selected {
        Some(true) => Some(BackendType::LlamaCpp),
        Some(false) => Some(BackendType::PureRust),
        None => None,
    }
}

/// Chooses the backend for each model and remembers which one holds it.
#[derive(Debug)]
pub struct BackendManager {
    active_backend: Option<BackendType>,
    preference: BackendPreference,
    enable_fallback: bool,
}

impl BackendManager {
    /// Backend holding the loaded model, if any.
    pub closed spec fn spec_active(&self) -> Option<BackendType> {
        self.active_backend
    }

    /// The user's preference.
    pub closed spec fn spec_preference(&self) -> BackendPreference {
        self.preference
    }

    /// Whether the fallback chain is on.
    pub closed spec fn spec_fallback(&self) -> bool {
        self.enable_fallback
    }

    /// Manager with automatic selection and nothing loaded.
    pub fn new() -> (r: Self)
        ensures
            r.spec_active() is None,
            r.spec_preference() == BackendPreference::Auto,
            !r.spec_fallback(),
    {
        BackendManager { active_backend: None, preference: BackendPreference::Auto, enable_fallback: false }
    }

    /// Manager with the given preference; the fallback chain is on exactly
    /// for the fallback preference.
    pub fn with_preference(preference: BackendPreference) -> (r: Self)
        ensures
            r.spec_active() is None,
            r.spec_preference() == preference,
            r.spec_fallback() == (preference == BackendPreference::Fallback),
    {
        let enable_fallback = match preference {
            BackendPreference::Fallback => true,
            _ => false,
        };
        BackendManager { active_backend: None, preference, enable_fallback }
    }

    /// The user's preference.
    pub fn preference(&self) -> (r: BackendPreference)
        ensures
            r == self.spec_preference(),
    {
        self.preference
    }

    /// Whether the fallback chain is on.
    pub fn fallback_enabled(&self) -> (r: bool)
        ensures
            r == self.spec_fallback(),
    {
        self.enable_fallback
    }

    /// Loads the model at `path` into the backend selected for its format.
    /// `path_exists` tells whether the file is there.
    pub fn load_model(&mut self, path: &str, path_exists: bool, n_ctx: usize) -> (r: MinervaResult<BackendType>)
        ensures
            final(self).spec_preference() == old(self).spec_preference(),
            final(self).spec_fallback() == old(self).spec_fallback(),
            !path_exists ==> (r matches Err(MinervaError::ModelNotFound(m)) && m@ == "Model file not found: "@ + path@)
                && final(self).spec_active() == old(self).spec_active(),
            path_exists ==> match backend_of(selected_backend(format_of_extension(path_extension(path@)), old(self).spec_preference())) {
                Some(t) => r == Ok::<BackendType, MinervaError>(t) && final(self).spec_active() == Some(t),
                None => (r matches Err(MinervaError::InferenceError(_))) && final(self).spec_active() == old(self).spec_active(),
            },
    {
        if !path_exists {
            let mut msg = text("Model file not found: ");
            msg.append(path);
            return Err(MinervaError::ModelNotFound(msg));
        }
        let choice = BackendSelector::select(path, self.preference);
        let backend_type = self.handle_backend_choice(choice)?;
        self.active_backend = Some(backend_type);
        Ok(backend_type)
    }

    /// Maps a selection to a backend type, or to an error carrying its message.
    fn handle_backend_choice(&self, choice: BackendChoice) -> (r: MinervaResult<BackendType>)
        ensures
            match choice {
                BackendChoice::UseLlamaCpp => r == Ok::<BackendType, MinervaError>(BackendType::LlamaCpp),
                BackendChoice::UsePureRust => r == Ok::<BackendType, MinervaError>(BackendType::PureRust),
                BackendChoice::Error(m) => r matches Err(MinervaError::InferenceError(e)) && e@ == m@,
            },
    {
        match choice {
            BackendChoice::UseLlamaCpp => Ok(BackendType::LlamaCpp),
            BackendChoice::UsePureRust => Ok(BackendType::PureRust),
            BackendChoice::Error(msg) => Err(MinervaError::InferenceError(msg)),
        }
    }

    /// Whether a model is loaded.
    pub fn is_loaded(&self) -> (r: bool)
        ensures
            r == self.spec_active() is Some,
    {
        self.active_backend.is_some()
    }

    /// The backend holding the loaded model, if any.
    pub fn active_backend(&self) -> (r: Option<BackendType>)
        ensures
            r == self.spec_active(),
    {
        self.active_backend
    }

    /// Unloads the current model, if any.
    pub fn unload_model(&mut self)
        ensures
            final(self).spec_active() is None,
            final(self).spec_preference() == old(self).spec_preference(),
            final(self).spec_fallback() == old(self).spec_fallback(),
    {
        self.active_backend = None;
    }

    /// Checks that a model is loaded before generating text and returns the
    /// backend that would serve the request.
    pub fn generation_backend(&self) -> (r: MinervaResult<BackendType>)
        ensures
            match self.spec_active() {
                Some(t) => r == Ok::<BackendType, MinervaError>(t),
                None => r matches Err(MinervaError::InferenceError(m)) && m@ == "No model loaded. Call load_model first."@,
            },
    {
        match self.active_backend {
            Some(t) => Ok(t),
            None => Err(MinervaError::InferenceError(text("No model loaded. Call load_model first."))),
        }
    }
}

impl Default for BackendManager {
    fn default() -> (r: Self)
        ensures
            r.spec_active() is None,
            r.spec_preference() == BackendPreference::Auto,
            !r.spec_fallback(),
    {
        Self::new()
    }
}

} // verus!
