//! What a failed command prints: its error envelope, and the exit code.

use vstd::prelude::*;
use crate::commands::{members, object, put, text, Report};
use crate::error::{Error, Failure, spec_code_name, spec_exit_code};
use crate::value::{Json, Value, member_views};

verus! {

/// The error envelope: the symbol of the failure's class, its message (under
/// `error`), then
/// its detail and its remediation when it has them.
pub open spec fn envelope_json(f: Failure) -> Json {
    let head = seq![("code"@, Json::Str(spec_code_name(f.code))), ("error"@, Json::Str(f.message))];
    let with_detail = match f.detail {
        Some(d) => head.push(("detail"@, Json::Str(d))),
        None => head,
    };
    Json::Object(
        match f.fix {
            Some(x) => with_detail.push(("remediation"@, Json::Str(x))),
            None => with_detail,
        },
    )
}

/// The error envelope of a failure.
pub fn envelope(e: &Error) -> (v: Value)
    ensures
        v@ == envelope_json(e@),
{
    let mut m = members();
    put(&mut m, "code", text(e.code.name()));
    put(&mut m, "error", Value::Str(e.message.clone()));
    match &e.detail {
        Some(d) => put(&mut m, "detail", Value::Str(d.clone())),
        None => {},
    }
    match &e.fix {
        Some(x) => put(&mut m, "remediation", Value::Str(x.clone())),
        None => {},
    }
    assert(member_views(m@) =~= envelope_json(e@)->Object_0);
    object(m)
}

/// The exit code of a command: 0 unless it ends with an error, else that
/// error's code.
pub fn exit_status(r: &Report) -> (code: i32)
    ensures
        code == match r.error {
            Some(e) => spec_exit_code(e.code),
            None => 0,
        },
{
    match &r.error {
        Some(e) => e.code.exit_code(),
        None => 0,
    }
}

/// A command exits with 0 exactly when it ends without an error.
pub proof fn only_success_exits_zero(r: Report)
    ensures
        (match r.error {
            Some(e) => spec_exit_code(e.code),
            None => 0,
        } == 0) <==> r.error is None,
{
    match r.error {
        Some(e) => crate::error::exit_codes_are_distinct(e.code, e.code),
        None => {},
    }
}

} // verus!
