//! Status codes and value types of the Node.js native API.

use vstd::prelude::*;
use vstd::string::*;
use crate::error::TsError;

verus! {

/// Type of a value of the native API, in the API's numbering order.
#[derive(Debug, Clone, Copy, PartialEq, Eq, Structural)]
pub enum NapiValueType {
    /// `undefined` values.
    Undefined,
    /// `null` values.
    Null,
    /// `boolean` values.
    Boolean,
    /// `number` values.
    Number,
    /// `string` values.
    String,
    /// `symbol` values.
    Symbol,
    /// `object` values.
    Object,
    /// `function` values.
    Function,
    /// `external` values.
    External,
    /// `bigint` values.
    Bigint,
}

/// Status code of a native-API call, in the API's numbering order.
#[derive(Debug, Clone, Copy, PartialEq, Eq, Structural)]
pub enum NapiStatus {
    /// The call succeeded (the API's `Ok` status).
    Success,
    /// The `InvalidArg` status.
    InvalidArg,
    /// The `ObjectExpected` status.
    ObjectExpected,
    /// The `StringExpected` status.
    StringExpected,
    /// The `NameExpected` status.
    NameExpected,
    /// The `FunctionExpected` status.
    FunctionExpected,
    /// The `NumberExpected` status.
    NumberExpected,
    /// The `BooleanExpected` status.
    BooleanExpected,
    /// The `ArrayExpected` status.
    ArrayExpected,
    /// The `GenericFailure` status.
    GenericFailure,
    /// The `PendingException` status.
    PendingException,
    /// The `Cancelled` status.
    Cancelled,
    /// The `EscapeCalledTwice` status.
    EscapeCalledTwice,
    /// The `HandleScopeMismatch` status.
    HandleScopeMismatch,
    /// The `CallbackScopeMismatch` status.
    CallbackScopeMismatch,
    /// The `QueueFull` status.
    QueueFull,
    /// The `Closing` status.
    Closing,
    /// The `BigintExpected` status.
    BigintExpected,
    /// The `DateExpected` status.
    DateExpected,
    /// The `ArraybufferExpected` status.
    ArraybufferExpected,
    /// The `DetachableArraybufferExpected` status.
    DetachableArraybufferExpected,
    /// The `WouldDeadlock` status.
    WouldDeadlock,
    /// The `NoExternalBuffersAllowed` status.
    NoExternalBuffersAllowed,
}

/// The name of a status.
pub open spec fn status_name(status: NapiStatus) -> Seq<char> {
    match status {
        NapiStatus::Success => "Ok"@,
        NapiStatus::InvalidArg => "InvalidArg"@,
        NapiStatus::ObjectExpected => "ObjectExpected"@,
        NapiStatus::StringExpected => "StringExpected"@,
        NapiStatus::NameExpected => "NameExpected"@,
        NapiStatus::FunctionExpected => "FunctionExpected"@,
        NapiStatus::NumberExpected => "NumberExpected"@,
        NapiStatus::BooleanExpected => "BooleanExpected"@,
        NapiStatus::ArrayExpected => "ArrayExpected"@,
        NapiStatus::GenericFailure => "GenericFailure"@,
        NapiStatus::PendingException => "PendingException"@,
        NapiStatus::Cancelled => "Cancelled"@,
        NapiStatus::EscapeCalledTwice => "EscapeCalledTwice"@,
        NapiStatus::HandleScopeMismatch => "HandleScopeMismatch"@,
        NapiStatus::CallbackScopeMismatch => "CallbackScopeMismatch"@,
        NapiStatus::QueueFull => "QueueFull"@,
        NapiStatus::Closing => "Closing"@,
        NapiStatus::BigintExpected => "BigintExpected"@,
        NapiStatus::DateExpected => "DateExpected"@,
        NapiStatus::ArraybufferExpected => "ArraybufferExpected"@,
        NapiStatus::DetachableArraybufferExpected => "DetachableArraybufferExpected"@,
        NapiStatus::WouldDeadlock => "WouldDeadlock"@,
        NapiStatus::NoExternalBuffersAllowed => "NoExternalBuffersAllowed"@,
    }
}

impl NapiStatus {
    /// The status's name.
    pub fn name(&self) -> (s: &'static str)
        ensures
            s@ == status_name(*self),
    {
        match self {
            NapiStatus::Success => "Ok",
            NapiStatus::InvalidArg => "InvalidArg",
            NapiStatus::ObjectExpected => "ObjectExpected",
            NapiStatus::StringExpected => "StringExpected",
            NapiStatus::NameExpected => "NameExpected",
            NapiStatus::FunctionExpected => "FunctionExpected",
            NapiStatus::NumberExpected => "NumberExpected",
            NapiStatus::BooleanExpected => "BooleanExpected",
            NapiStatus::ArrayExpected => "ArrayExpected",
            NapiStatus::GenericFailure => "GenericFailure",
            NapiStatus::PendingException => "PendingException",
            NapiStatus::Cancelled => "Cancelled",
            NapiStatus::EscapeCalledTwice => "EscapeCalledTwice",
            NapiStatus::HandleScopeMismatch => "HandleScopeMismatch",
            NapiStatus::CallbackScopeMismatch => "CallbackScopeMismatch",
            NapiStatus::QueueFull => "QueueFull",
            NapiStatus::Closing => "Closing",
            NapiStatus::BigintExpected => "BigintExpected",
            NapiStatus::DateExpected => "DateExpected",
            NapiStatus::ArraybufferExpected => "ArraybufferExpected",
            NapiStatus::DetachableArraybufferExpected => "DetachableArraybufferExpected",
            NapiStatus::WouldDeadlock => "WouldDeadlock",
            NapiStatus::NoExternalBuffersAllowed => "NoExternalBuffersAllowed",
        }
    }
}

/// The error for a failed native-API call: `NAPI Error: ` and `message`.
pub fn create_napi_error(message: &str) -> (e: TsError)
    ensures
        e matches TsError::Other(m) && m@ == "NAPI Error: "@ + message@,
{
    let mut m = String::from_str("NAPI Error: ");
    m.append(message);
    TsError::Other(m)
}

/// Success for the success status; otherwise an error naming the status:
/// `NAPI operation failed with status: ` and its name.
pub fn check_napi_status(status: NapiStatus) -> (r: Result<(), TsError>)
    ensures
        status == NapiStatus::Success ==> r is Ok,
        status != NapiStatus::Success ==> (r matches Err(TsError::Other(m))
            && m@ == "NAPI operation failed with status: "@ + status_name(status)),
{
    if status == NapiStatus::Success {
        Ok(())
    } else {
        let mut m = String::from_str("NAPI operation failed with status: ");
        m.append(status.name());
        Err(TsError::Other(m))
    }
}

} // verus!
