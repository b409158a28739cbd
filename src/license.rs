use vstd::prelude::*;

verus! {

/// One entry of a license dataset, as it is stored.
#[derive(Debug, Clone)]
pub struct License {
    pub license_key: String,
    pub category: String,
    pub spdx_license_key: Option<String>,
    pub other_spdx_license_keys: Vec<String>,
    pub is_exception: bool,
    pub is_deprecated: bool,
    pub json: String,
    pub yaml: String,
    pub html: String,
    pub license: String,
}

} // verus!
