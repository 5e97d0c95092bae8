use vstd::prelude::*;

use std::path::PathBuf;

verus! {

/// Settings of the detector: where its model is, and how many threads it may use.
pub struct Config {
    pub ultra_model_path: PathBuf,
    pub ultra_threads: i16,
}

} // verus!
