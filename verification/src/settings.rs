//! What a user has set: the key and the address of the service that sums
//! up, and the names of the models that sum up and that transcribe.

use vstd::prelude::*;

verus! {

/// The settings of the application.
#[derive(Clone, Debug, PartialEq, Eq)]
pub struct AppSettings {
    pub api_key: String,
    pub ai_supplier_url: String,
    pub ai_model_name: String,
    pub whisper_model_name: String,
}

impl Default for AppSettings {
    /// The settings before anything is set: all four are empty.
    fn default() -> (settings: Self)
        ensures
            settings.api_key@.len() == 0,
            settings.ai_supplier_url@.len() == 0,
            settings.ai_model_name@.len() == 0,
            settings.whisper_model_name@.len() == 0,
    {
        AppSettings {
            api_key: String::new(),
            ai_supplier_url: String::new(),
            ai_model_name: String::new(),
            whisper_model_name: String::new(),
        }
    }
}

} // verus!
