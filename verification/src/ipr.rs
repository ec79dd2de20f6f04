//! Decision logic of the IPR production-inventory lookups, the second
//! inventory backend: which record to fetch next and the exact
//! operator-facing error for every failure.  The surrounding workflow
//! performs the HTTP requests and hands the fetched records (or the
//! transport error's text) back in.

use vstd::prelude::*;
use vstd::string::StringExecFns;

verus! {

/// Failure of the IPR lookup workflow, carrying the operator-facing
/// message.
#[derive(Debug)]
pub enum Error {
    IprError(String),
}

impl Error {
    /// The message this error carries.
    pub open spec fn spec_message(&self) -> Seq<char> {
        match self {
            Error::IprError(m) => m@,
        }
    }

    /// The operator-facing message.
    pub fn message(&self) -> (m: &String)
        ensures
            m@ == self.spec_message(),
    {
        match self {
            Error::IprError(m) => m,
        }
    }
}

/// One IPR product record.
pub struct Data {
    pub ipr_id: String,
    pub parent: Option<String>,
    pub status: String,
}

/// Follow-up decided after the Linux module's own record was fetched.
#[derive(Debug)]
pub enum Lookup {
    /// Fetch the record of this id next: it is the gateway's.
    FetchParent(String),
    /// Stop, reporting this error.
    Fail(Error),
}

/// The request path of one IPR product record.
pub fn request_path(ipr_url: &str, lm_id: &str) -> (p: String)
    ensures
        p@ == ipr_url@ + "/v2/products/"@ + lm_id@,
{
    ipr_url.to_owned().concat("/v2/products/").concat(lm_id)
}

/// Decides how to get the gateway's record for the Linux module `lm_id`,
/// given the result of fetching the module's own record: fetch the parent
/// gateway's record next, or fail because the module has no parent or its
/// record could not be fetched.  `lm_result` carries the fetched record, or
/// the fetch failure's text.
pub fn get_gw_data(lm_id: &str, lm_result: Result<Data, String>) -> (r: Lookup)
    ensures
        match lm_result {
            Result::Ok(d) => match d.parent {
                Option::Some(gw_id) => r matches Lookup::FetchParent(g) && g@ == gw_id@,
                Option::None => r matches Lookup::Fail(e) && e.spec_message()
                    == "Failed to get parent of "@ + lm_id@,
            },
            Result::Err(e0) => r matches Lookup::Fail(e) && e.spec_message()
                == "Failed to fetch IPR data for "@ + lm_id@ + "\nError: "@ + e0@,
        },
{
    match lm_result {
        Result::Ok(d) => match d.parent {
            Option::Some(gw_id) => Lookup::FetchParent(gw_id),
            Option::None => Lookup::Fail(
                Error::IprError("Failed to get parent of ".to_owned().concat(lm_id)),
            ),
        },
        Result::Err(e0) => Lookup::Fail(
            Error::IprError(
                "Failed to fetch IPR data for ".to_owned().concat(lm_id).concat(
                    "\nError: ",
                ).concat(e0.as_str()),
            ),
        ),
    }
}

} // verus!
