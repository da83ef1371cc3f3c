//! What every source of climate data can do.

use crate::datasources::fetch::{session_for, FetchSession};
use crate::utils::error::ClimateError;
use crate::utils::retry::RetryPolicy;
use vstd::prelude::*;

verus! {

/// A source of climate data: it has a name, and it can be fetched for a time
/// window. New sources are added by implementing this trait.
pub trait DataSource {
    /// The name of the source.
    spec fn name(&self) -> Seq<char>;

    /// How the source tries a failed request again.
    spec fn policy(&self) -> RetryPolicy;

    /// The name of the source; every record that it produces carries it.
    fn source_name(&self) -> (name: &str)
        ensures
            name@ == self.name(),
    ;

    /// Starts the fetch of the window from `start_date` to `end_date`, two
    /// calendar dates of which the first is not after the second. The caller
    /// requests the pages that the session asks for.
    fn fetch_data(&self, start_date: &str, end_date: &str) -> (session: Result<
        FetchSession,
        ClimateError,
    >)
        ensures
            match session_for(self.name(), start_date@, end_date@, self.policy()) {
                Ok(fresh) => session matches Ok(s) && s@ == fresh,
                Err(error) => session matches Err(e) && e@ == error,
            },
    ;
}

} // verus!
