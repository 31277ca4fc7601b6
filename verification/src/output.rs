//! The fixed message wordings recorded with each kind of check.

use vstd::prelude::*;

verus! {

pub const ASSERT_OK: &'static str = "The value match true";

pub const ASSERT_SHOULD_BE_OK: &'static str = "The value match false and should be match true";

pub const ASSERT_KO: &'static str = "The value match false";

pub const ASSERT_SHOULD_BE_KO: &'static str = "The value match true and should be match false";

pub const ASSERT_EQUALS: &'static str = "The values are equals";

pub const ASSERT_SHOULD_BE_EQUALS: &'static str =
    "The values match inequality but should be equals";

pub const ASSERT_UNEQUALS: &'static str = "The values are unequals";

pub const ASSERT_SHOULD_BE_UNEQUALS: &'static str =
    "The values are equals but values should be unequals";

pub const ASSERT_BETWEEN: &'static str = "The value are between min and max";

pub const ASSERT_SHOULD_BE_BETWEEN: &'static str =
    "The value are not between min and max but should be between the values";

pub const ASSERT_SUPERIOR: &'static str = "The value is superior to the minimum value";

pub const ASSERT_SHOULD_BE_SUPERIOR: &'static str =
    "The value is inferior to the minimum value and should be superior";

pub const ASSERT_EXISTS: &'static str = "The path exists";

pub const ASSERT_SHOULD_BE_EXISTS: &'static str = "The path not exist but it's should be exists";

pub const ASSERT_NOT_EXISTS: &'static str = "The path not exists";

pub const ASSERT_SHOULD_BE_NOT_EXISTS: &'static str = "The path exists and should be not";

pub const ASSERT_CONTAINS: &'static str = "The value contains the expected value";

pub const ASSERT_SHOULD_CONTAINS: &'static str = "The value has not been founded";

pub const ASSERT_NOT_CONTAINS: &'static str = "The data don't contains the value";

pub const ASSERT_SHOULD_BE_NOT_CONTAINS: &'static str =
    "The value has been founded in data and should be not";

pub const ASSERT_IS_EXECUTABLE: &'static str = "The file is executable";

pub const ASSERT_SHOULD_BE_EXECUTABLE: &'static str =
    "The file is not an executable but it's should be";

pub const ASSERT_MATCH: &'static str = "The value match the regex";

pub const ASSERT_SHOULD_MATCH: &'static str = "The value should be match the regex";

pub const ASSERT_BEGIN: &'static str = "The data begin with the expected value";

pub const ASSERT_SHOULD_BE_BEGIN: &'static str =
    "The data don't begin with the expected value and should be begin with";

pub const ASSERT_FINNISH: &'static str = "The data finnish by the expected value";

pub const ASSERT_SHOULD_BE_FINNISH: &'static str =
    "The data don't finnish with the value and she should be";

pub const ASSERT_SUCCESS: &'static str = "The callback has a success exit status code";

pub const ASSERT_SHOULD_BE_SUCCESS: &'static str =
    "The callback should have a success exit status code";

pub const ASSERT_FAIL: &'static str = "The callback has a failure exit status code";

pub const ASSERT_SHOULD_BE_FAIL: &'static str =
    "The callback should be have a failure exit status code";

pub const ASSERT_THEORY_IS_TRUE: &'static str = "The theory is true";

pub const ASSERT_THEORY_SHOULD_BE_TRUE: &'static str =
    "The theory match false but she should be match true";

pub const ASSERT_THEORY_IS_FALSE: &'static str = "The theory is false";

pub const ASSERT_THEORY_SHOULD_BE_FALSE: &'static str =
    "The theory match true she should be match false";

pub const IS_OK: &'static str = "The test match true";

pub const IS_KO: &'static str = "The test match false";

pub const IS_EQUALS: &'static str = "The values are equals";

pub const IS_UNEQUALS: &'static str = "The values are unequals";

pub const IS_SUPERIOR: &'static str = "The value is superior to the minimum value";

pub const IS_INFERIOR: &'static str = "The value is inferior to the maximum value";

pub const IS_BETWEEN: &'static str = "The value is between min and max";

pub const IS_NOT_BETWEEN: &'static str = "The value is not between min and max";

pub const IS_CONTAINS: &'static str = "The value contains the data";

pub const IS_NOT_CONTAINS: &'static str = "The value don't contains the data";

pub const IS_EXISTS: &'static str = "The path exists";

pub const IS_NOT_EXISTS: &'static str = "The path not exists";

pub const IS_EXECUTABLE: &'static str = "The file is executable";

pub const IS_NOT_EXECUTABLE: &'static str = "The file is not an executable";

pub const IS_MATCH: &'static str = "The value match the regex";

pub const IS_NOT_MATCH: &'static str = "The value no match the regex";

pub const IS_BEGIN: &'static str = "The value begin with the expected value";

pub const IS_NOT_BEGIN: &'static str = "The value not begin with the expected value";

pub const IS_FINNISH: &'static str = "The value finnish by the expected value";

pub const IS_NOT_FINNISH: &'static str = "The value don't finnish by the expected value";

pub const IS_SUCCESS: &'static str = "The callback has a success exit status code";

pub const IS_NOT_SUCCESS: &'static str = "The callback has not a success exit status code";

pub const IS_FAIL: &'static str = "The callback has a failure exit status code";

pub const IS_NOT_FAIL: &'static str = "The callback has not a failure exit status";

pub const THEORY_IS_TRUE: &'static str = "The theory is true";

pub const THEORY_IS_FALSE: &'static str = "The theory if false";

pub const ASSERT_LENGTH_EQUALS: &'static str = "The length match the expected length";

pub const ASSERT_LENGTH_UN0EQUALS: &'static str = "The length don't match the expected length";

/// The pacing delay, in milliseconds, that a run uses by default.
pub const ASSERT_PROGRESS_TIME: u64 = 100;

/// The pacing delay, in milliseconds, of a permissive run.
pub const UNIT_PROGRESS_TIME: u64 = 100;

/// A pacing delay of zero fully disables pacing.
pub const DISABLE_PROGRESS_TIME: u64 = 0;

} // verus!
