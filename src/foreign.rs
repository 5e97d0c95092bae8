//! Outside types that the library carries through without looking inside, and the
//! outside functions that create them.

use vstd::prelude::*;

use std::path::PathBuf;
use std::time::SystemTime;

use image::ImageFormat;
use uuid::Uuid;

verus! {

#[verifier::external_type_specification]
#[verifier::external_body]
pub struct ExUuid(Uuid);

#[verifier::external_type_specification]
#[verifier::external_body]
pub struct ExPathBuf(PathBuf);

#[verifier::external_type_specification]
#[verifier::external_body]
pub struct ExImageFormat(ImageFormat);

#[verifier::external_type_specification]
#[verifier::external_body]
pub struct ExSystemTime(SystemTime);

/// Relies on uuid::Uuid::new_v4: a fresh random (version 4) identifier. Nothing is
/// promised of its value.
pub assume_specification[ Uuid::new_v4 ]() -> Uuid;

/// Relies on std::time::SystemTime::now: the current wall-clock time.
pub assume_specification[ SystemTime::now ]() -> SystemTime;

} // verus!
