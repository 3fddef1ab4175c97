//! The answer to an operator request from the GUI or the local API.
use vstd::prelude::*;
use vstd::string::*;

verus! {

/// Whether a request was taken, with a message and, for queries, the data.
#[derive(Debug)]
pub struct Reply {
    pub ok: bool,
    pub message: String,
    pub data: String,
    pub token: Option<String>,
}

impl Reply {
    /// The request was taken; whether the boards followed shows in the status.
    pub fn accepted() -> (r: Reply)
        ensures
            r.ok,
            r.message@ == "受付済み。基板の反映はstatusで確認してください"@,
            r.data@ == Seq::<char>::empty(),
            r.token is None,
    {
        Reply {
            ok: true,
            message: String::from_str("受付済み。基板の反映はstatusで確認してください"),
            data: String::new(),
            token: None,
        }
    }

    /// The answer to a query.
    pub fn data(data: String) -> (r: Reply)
        ensures
            r.ok,
            r.message@ == "確認済み"@,
            r.data@ == data@,
            r.token is None,
    {
        Reply { ok: true, message: String::from_str("確認済み"), data, token: None }
    }

    /// The request was refused.
    pub fn error(message: String) -> (r: Reply)
        ensures
            !r.ok,
            r.message@ == message@,
            r.data@ == Seq::<char>::empty(),
            r.token is None,
    {
        Reply { ok: false, message, data: String::new(), token: None }
    }
}

} // verus!
