//! Decision logic of the CPMS production-inventory lookups: which record to
//! fetch next, which removal request to issue, and the exact operator-facing
//! error for every failure.  The surrounding workflow performs the HTTP
//! requests and hands the fetched records (or the transport error's text)
//! back in.

use vstd::prelude::*;
use vstd::string::StringExecFns;

verus! {

/// Failure of the CPMS lookup workflow, carrying the operator-facing
/// message.
#[derive(Debug)]
pub enum Error {
    CpmsError(String),
}

impl Error {
    /// The message this error carries.
    pub open spec fn spec_message(&self) -> Seq<char> {
        match self {
            Error::CpmsError(m) => m@,
        }
    }

    /// The operator-facing message.
    pub fn message(&self) -> (m: &String)
        ensures
            m@ == self.spec_message(),
    {
        match self {
            Error::CpmsError(m) => m,
        }
    }
}

/// Configuration block of a CPMS record.
pub struct Configuration {
    pub eol_test_passed: Option<bool>,
    pub hardware_version: Option<String>,
    pub self_test_passed: Option<bool>,
}

/// Reference to an assembled component of a gateway.
pub struct Component {
    ipr_id: String,
}

impl Component {
    /// The inventory id this component reference points at.
    pub closed spec fn id_spec(&self) -> Seq<char> {
        self.ipr_id@
    }

    /// A reference to the component with this inventory id.
    pub fn new(ipr_id: String) -> (c: Component)
        ensures
            c.id_spec() == ipr_id@,
    {
        Component { ipr_id }
    }

    /// The inventory id this component reference points at.
    pub fn ipr_id(&self) -> (id: &String)
        ensures
            id@ == self.id_spec(),
    {
        &self.ipr_id
    }
}

/// Component references of a gateway record.
pub struct Components {
    pub linux_module: Option<Component>,
    pub radio_module: Option<Component>,
}

/// One CPMS inventory record.
pub struct Data {
    pub components: Components,
    pub configuration: Configuration,
    pub ipr_id: String,
    pub parent: Option<String>,
    pub status: String,
}

/// Follow-up decided after the Linux module's own record was fetched.
#[derive(Debug)]
pub enum Lookup {
    /// Fetch the record of this id next: it is the gateway's.
    FetchParent(String),
    /// Stop, reporting this error.
    Fail(Error),
}

/// The request path of one CPMS inventory record.
pub fn request_path(cpms_url: &str, ipr_id: &str) -> (p: String)
    ensures
        p@ == cpms_url@ + "/api/iprconfig/"@ + ipr_id@,
{
    cpms_url.to_owned().concat("/api/iprconfig/").concat(ipr_id)
}

/// Decides how to get the gateway's record for the Linux module `lm_id`,
/// given the result of fetching the module's own record: fetch the parent
/// gateway's record next, or fail because the module has no parent or its
/// record could not be fetched.  `lm_result` carries the fetched record, or
/// the fetch failure's text.
pub fn get_gw_data(lm_id: &str, lm_result: Result<Data, String>) -> (r: Lookup)
    ensures
        match lm_result {
            Result::Ok(d) => match d.parent {
                Option::Some(gw_id) => r matches Lookup::FetchParent(g) && g@ == gw_id@,
                Option::None => r matches Lookup::Fail(e) && e.spec_message()
                    == "Failed to get parent of "@ + lm_id@,
            },
            Result::Err(e0) => r matches Lookup::Fail(e) && e.spec_message()
                == "Failed to fetch CPMS data for "@ + lm_id@ + "\nError: "@ + e0@,
        },
{
    match lm_result {
        Result::Ok(d) => match d.parent {
            Option::Some(gw_id) => Lookup::FetchParent(gw_id),
            Option::None => Lookup::Fail(
                Error::CpmsError("Failed to get parent of ".to_owned().concat(lm_id)),
            ),
        },
        Result::Err(e0) => Lookup::Fail(
            Error::CpmsError(
                "Failed to fetch CPMS data for ".to_owned().concat(lm_id).concat(
                    "\nError: ",
                ).concat(e0.as_str()),
            ),
        ),
    }
}

/// Decides the disassembly request for gateway `gw_id`, given the result of
/// fetching its record: the full path of the assembly-removal request for
/// its Linux module, or the error to report when the gateway has no Linux
/// module or its record could not be fetched.
pub fn disassemble_gw(cpms_url: &str, gw_id: &str, gw_result: Result<Data, String>) -> (r: Result<
    String,
    Error,
>)
    ensures
        match gw_result {
            Result::Ok(d) => match d.components.linux_module {
                Option::Some(lm) => r matches Result::Ok(path) && path@ == cpms_url@
                    + "/api/iprconfig/"@ + gw_id@ + "/assembly/"@ + lm.id_spec(),
                Option::None => r matches Result::Err(e) && e.spec_message()
                    == "Failed to get Linux module for "@ + gw_id@,
            },
            Result::Err(e0) => r matches Result::Err(e) && e.spec_message()
                == "Failed to fetch CPMS data for "@ + gw_id@ + "\nError: "@ + e0@,
        },
{
    match gw_result {
        Result::Ok(d) => match d.components.linux_module {
            Option::Some(lm) => Result::Ok(
                request_path(cpms_url, gw_id).concat("/assembly/").concat(lm.ipr_id.as_str()),
            ),
            Option::None => Result::Err(
                Error::CpmsError("Failed to get Linux module for ".to_owned().concat(gw_id)),
            ),
        },
        Result::Err(e0) => Result::Err(
            Error::CpmsError(
                "Failed to fetch CPMS data for ".to_owned().concat(gw_id).concat(
                    "\nError: ",
                ).concat(e0.as_str()),
            ),
        ),
    }
}

} // verus!
