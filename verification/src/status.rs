//! Reading the server's JSON documents: the latest build's number from a
//! job description, and the `building` flag and `result` label from a build
//! description. Fields that are missing, or of another type than expected,
//! read as absent; nothing here fails.

use serde_json::Value;
use vstd::prelude::*;

verus! {

/// `serde_json::Value`, a JSON document. Nothing of its inside is known
/// here; what is read from it goes through the functions below.
#[verifier::external_type_specification]
#[verifier::external_body]
pub struct ExValue(serde_json::Value);

/// The member that a JSON value has under `key`: some value where the
/// value is an object that holds the key, none otherwise.
pub uninterp spec fn member(doc: serde_json::Value, key: Seq<char>) -> Option<serde_json::Value>;

/// The number that a JSON value stands for, where it is an integer that
/// fits `u64`.
pub uninterp spec fn as_unsigned(value: serde_json::Value) -> Option<u64>;

/// The truth value that a JSON value stands for, where it is a boolean.
pub uninterp spec fn as_boolean(value: serde_json::Value) -> Option<bool>;

/// The text that a JSON value stands for, where it is a string.
pub uninterp spec fn as_text(value: serde_json::Value) -> Option<Seq<char>>;

/// `serde_json::Value::get` with a string index. It hands out the member
/// stored under `key` if the value is an object that has one, and `None`
/// for any other value and for a key that the object lacks. The contract
/// names that member [`member`]; it claims nothing else of it.
#[verifier::external_body]
fn get<'a>(doc: &'a Value, key: &str) -> (r: Option<&'a Value>)
    ensures
        r matches Some(m) ==> member(*doc, key@) == Some(*m),
        r is None ==> member(*doc, key@) is None,
{
    doc.get(key)
}

/// `serde_json::Value::as_u64`: the integer of a number that is
/// representable as `u64`, `None` for every other value. The contract names
/// the result [`as_unsigned`].
pub assume_specification[ serde_json::Value::as_u64 ](value: &serde_json::Value) -> (r: Option<u64>)
    ensures
        r == as_unsigned(*value),
;

/// `serde_json::Value::as_bool`: the content of a boolean, `None` for every
/// other value. The contract names the result [`as_boolean`].
pub assume_specification[ serde_json::Value::as_bool ](value: &serde_json::Value) -> (r: Option<bool>)
    ensures
        r == as_boolean(*value),
;

/// `serde_json::Value::as_str`: the content of a string, `None` for every
/// other value. The contract names the result [`as_text`].
pub assume_specification[ serde_json::Value::as_str ](value: &serde_json::Value) -> (r: Option<&str>)
    ensures
        r matches Some(s) ==> as_text(*value) == Some(s@),
        r is None ==> as_text(*value) is None,
;

/// What a build description says of the build's state.
#[derive(Clone, Debug, PartialEq, Eq)]
pub struct BuildInfo {
    /// Whether the build is running, where the server says so.
    pub building: Option<bool>,
    /// The outcome label, where the server gives one.
    pub result: Option<String>,
}

/// Mathematical content of a [`BuildInfo`].
pub struct BuildInfoView {
    pub building: Option<bool>,
    pub result: Option<Seq<char>>,
}

impl View for BuildInfo {
    type V = BuildInfoView;

    open spec fn view(&self) -> BuildInfoView {
        BuildInfoView {
            building: self.building,
            result: match self.result {
                Some(s) => Some(s@),
                None => None,
            },
        }
    }
}

/// State of a build as the client sees it.
#[derive(Clone, Debug, PartialEq, Eq)]
pub enum BuildStatus {
    /// Queued, or not visible yet: the server does not say whether the
    /// build runs.
    Pending,
    /// The build runs.
    Running,
    /// The build has ended; `outcome` is the server's label for how.
    Completed { outcome: String },
}

/// Mathematical content of a [`BuildStatus`].
pub enum BuildStatusView {
    Pending,
    Running,
    Completed { outcome: Seq<char> },
}

impl View for BuildStatus {
    type V = BuildStatusView;

    open spec fn view(&self) -> BuildStatusView {
        match *self {
            BuildStatus::Pending => BuildStatusView::Pending,
            BuildStatus::Running => BuildStatusView::Running,
            BuildStatus::Completed { outcome } => BuildStatusView::Completed { outcome: outcome@ },
        }
    }
}

/// The label under which a build's outcome is reported: the server's, as
/// it stands, or `UNKNOWN` where it gave none.
pub open spec fn label(result: Option<Seq<char>>) -> Seq<char> {
    match result {
        Some(r) => r,
        None => "UNKNOWN"@,
    }
}

/// The state that a build description stands for. Without the `building`
/// flag nothing is known of the build; it has ended only where the flag
/// says that it does not run.
pub open spec fn status_of(info: BuildInfoView) -> BuildStatusView {
    match info.building {
        None => BuildStatusView::Pending,
        Some(true) => BuildStatusView::Running,
        Some(false) => BuildStatusView::Completed { outcome: label(info.result) },
    }
}

impl BuildInfo {
    /// The state that this description stands for.
    pub fn status(self) -> (r: BuildStatus)
        ensures
            r@ == status_of(self@),
    {
        match self.building {
            None => BuildStatus::Pending,
            Some(true) => BuildStatus::Running,
            Some(false) => BuildStatus::Completed {
                outcome: match self.result {
                    Some(r) => r,
                    None => "UNKNOWN".to_owned(),
                },
            },
        }
    }
}

/// The number under `lastBuild.number` of a job description.
pub open spec fn last_build_of(job: serde_json::Value) -> Option<u64> {
    match member(job, "lastBuild"@) {
        Some(build) => match member(build, "number"@) {
            Some(number) => as_unsigned(number),
            None => None,
        },
        None => None,
    }
}

/// The flag under `building` of a build description.
pub open spec fn building_of(build: serde_json::Value) -> Option<bool> {
    match member(build, "building"@) {
        Some(flag) => as_boolean(flag),
        None => None,
    }
}

/// The label under `result` of a build description.
pub open spec fn result_of(build: serde_json::Value) -> Option<Seq<char>> {
    match member(build, "result"@) {
        Some(label) => as_text(label),
        None => None,
    }
}

/// Reads the latest build's number from a job description.
pub fn last_build_number(job: &Value) -> (r: Option<u64>)
    ensures
        r == last_build_of(*job),
{
    match get(job, "lastBuild") {
        Some(build) => match get(build, "number") {
            Some(number) => number.as_u64(),
            None => None,
        },
        None => None,
    }
}

/// Reads the state of a build from its description.
pub fn build_info(build: &Value) -> (r: BuildInfo)
    ensures
        r@ == (BuildInfoView { building: building_of(*build), result: result_of(*build) }),
{
    let building = match get(build, "building") {
        Some(flag) => flag.as_bool(),
        None => None,
    };
    let result = match get(build, "result") {
        Some(label) => match label.as_str() {
            Some(s) => Some(s.to_owned()),
            None => None,
        },
        None => None,
    };
    BuildInfo { building, result }
}

} // verus!
