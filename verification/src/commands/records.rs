//! DNS zone record management commands.

use vstd::prelude::*;
use crate::cli::RecordsCommand;
use crate::error::Error;
use crate::value::{Value, Json, views, member_views};
use super::{Invocation, Reply, ReplyModel, Scope, planned, call, confirm, put, members, object, text, invocation};

verus! {

broadcast use vstd::string::group_string_axioms;

/// A zone record as the API takes it.
pub open spec fn zone_record_json(
    record_type: Seq<char>,
    rdata: Seq<char>,
    ttl: u32,
    priority: u32,
    record_id: u32,
) -> Json {
    Json::Object(
        seq![
            ("type"@, Json::Str(record_type)),
            ("ttl"@, Json::Int(ttl as i64)),
            ("priority"@, Json::Int(priority as i64)),
            ("rdata"@, Json::Str(rdata)),
            ("record_id"@, Json::Int(record_id as i64)),
        ],
    )
}

/// A zone record as the API takes it.
pub fn zone_record(record_type: &str, rdata: &str, ttl: u32, priority: u32, record_id: u32) -> (v: Value)
    ensures
        v@ == zone_record_json(record_type@, rdata@, ttl, priority, record_id),
{
    let mut m = members();
    put(&mut m, "type", text(record_type));
    put(&mut m, "ttl", Value::Int(ttl as i64));
    put(&mut m, "priority", Value::Int(priority as i64));
    put(&mut m, "rdata", text(rdata));
    put(&mut m, "record_id", Value::Int(record_id as i64));
    assert(member_views(m@) =~= seq![
        ("type"@, Json::Str(record_type@)),
        ("ttl"@, Json::Int(ttl as i64)),
        ("priority"@, Json::Int(priority as i64)),
        ("rdata"@, Json::Str(rdata@)),
        ("record_id"@, Json::Int(record_id as i64)),
    ]);
    object(m)
}

/// What a records command asks of the API.
pub open spec fn records_plan(cmd: RecordsCommand) -> Result<(crate::cli::ApiArgs, super::Plan), crate::error::Failure> {
    match cmd {
        RecordsCommand::List { domain, subdomain, api } => call(
            api,
            Scope::Customer,
            "getZoneRecords"@,
            seq![Json::Str(domain@), Json::Str(subdomain@)],
            ReplyModel::Show,
        ),
        RecordsCommand::Add { domain, subdomain, record_type, rdata, ttl, priority, api } => call(
            api,
            Scope::Customer,
            "addZoneRecord"@,
            seq![
                Json::Str(domain@),
                Json::Str(subdomain@),
                zone_record_json(record_type@, rdata@, ttl, priority, 0),
            ],
            confirm(
                "addZoneRecord"@,
                Json::Object(
                    seq![
                        ("status"@, Json::Str("ok"@)),
                        ("domain"@, Json::Str(domain@)),
                        ("subdomain"@, Json::Str(subdomain@)),
                        ("type"@, Json::Str(record_type@)),
                        ("rdata"@, Json::Str(rdata@)),
                        ("added"@, Json::Bool(true)),
                    ],
                ),
            ),
        ),
        RecordsCommand::Update {
            domain,
            subdomain,
            record_id,
            record_type,
            rdata,
            ttl,
            priority,
            api,
        } => call(
            api,
            Scope::Customer,
            "updateZoneRecord"@,
            seq![
                Json::Str(domain@),
                Json::Str(subdomain@),
                zone_record_json(record_type@, rdata@, ttl, priority, record_id),
            ],
            confirm(
                "updateZoneRecord"@,
                Json::Object(
                    seq![
                        ("status"@, Json::Str("ok"@)),
                        ("domain"@, Json::Str(domain@)),
                        ("subdomain"@, Json::Str(subdomain@)),
                        ("record_id"@, Json::Int(record_id as i64)),
                        ("updated"@, Json::Bool(true)),
                    ],
                ),
            ),
        ),
        RecordsCommand::Remove { domain, subdomain, record_id, api } => call(
            api,
            Scope::Customer,
            "removeZoneRecord"@,
            seq![Json::Str(domain@), Json::Str(subdomain@), Json::Int(record_id as i64)],
            confirm(
                "removeZoneRecord"@,
                Json::Object(
                    seq![
                        ("status"@, Json::Str("ok"@)),
                        ("domain"@, Json::Str(domain@)),
                        ("subdomain"@, Json::Str(subdomain@)),
                        ("record_id"@, Json::Int(record_id as i64)),
                        ("removed"@, Json::Bool(true)),
                    ],
                ),
            ),
        ),
    }
}

/// What a records command asks of the API: list the zone records of a
/// subdomain, or add, update or remove one.
pub fn run(cmd: RecordsCommand) -> (r: Result<Invocation, Error>)
    ensures
        planned(r) == records_plan(cmd),
{
    match cmd {
        RecordsCommand::List { domain, subdomain, api } => {
            let params = vec![Value::Str(domain), Value::Str(subdomain)];
            assert(views(params@) =~= seq![Json::Str(domain@), Json::Str(subdomain@)]);
            let inv = invocation(api, Scope::Customer, "getZoneRecords", params, Reply::Show);
            assert(planned(Ok::<Invocation, Error>(inv)) == records_plan(cmd));
            Ok(inv)
        },
        RecordsCommand::Add { domain, subdomain, record_type, rdata, ttl, priority, api } => {
            let record = zone_record(record_type.as_str(), rdata.as_str(), ttl, priority, 0);
            let mut m = members();
            put(&mut m, "status", text("ok"));
            put(&mut m, "domain", Value::Str(domain.clone()));
            put(&mut m, "subdomain", Value::Str(subdomain.clone()));
            put(&mut m, "type", Value::Str(record_type.clone()));
            put(&mut m, "rdata", Value::Str(rdata.clone()));
            put(&mut m, "added", Value::Bool(true));
            assert(member_views(m@) =~= seq![
                ("status"@, Json::Str("ok"@)),
                ("domain"@, Json::Str(domain@)),
                ("subdomain"@, Json::Str(subdomain@)),
                ("type"@, Json::Str(record_type@)),
                ("rdata"@, Json::Str(rdata@)),
                ("added"@, Json::Bool(true)),
            ]);
            let output = object(m);
            let ghost rv = record@;
            let params = vec![Value::Str(domain), Value::Str(subdomain), record];
            assert(views(params@) =~= seq![Json::Str(domain@), Json::Str(subdomain@), rv]);
            let reply = Reply::Confirm { operation: String::from_str("addZoneRecord"), output };
            let inv = invocation(api, Scope::Customer, "addZoneRecord", params, reply);
            assert(planned(Ok::<Invocation, Error>(inv)) == records_plan(cmd));
            Ok(inv)
        },
        RecordsCommand::Update { domain, subdomain, record_id, record_type, rdata, ttl, priority, api } => {
            let record = zone_record(record_type.as_str(), rdata.as_str(), ttl, priority, record_id);
            let mut m = members();
            put(&mut m, "status", text("ok"));
            put(&mut m, "domain", Value::Str(domain.clone()));
            put(&mut m, "subdomain", Value::Str(subdomain.clone()));
            put(&mut m, "record_id", Value::Int(record_id as i64));
            put(&mut m, "updated", Value::Bool(true));
            assert(member_views(m@) =~= seq![
                ("status"@, Json::Str("ok"@)),
                ("domain"@, Json::Str(domain@)),
                ("subdomain"@, Json::Str(subdomain@)),
                ("record_id"@, Json::Int(record_id as i64)),
                ("updated"@, Json::Bool(true)),
            ]);
            let output = object(m);
            let ghost rv = record@;
            let params = vec![Value::Str(domain), Value::Str(subdomain), record];
            assert(views(params@) =~= seq![Json::Str(domain@), Json::Str(subdomain@), rv]);
            let reply = Reply::Confirm { operation: String::from_str("updateZoneRecord"), output };
            let inv = invocation(api, Scope::Customer, "updateZoneRecord", params, reply);
            assert(planned(Ok::<Invocation, Error>(inv)) == records_plan(cmd));
            Ok(inv)
        },
        RecordsCommand::Remove { domain, subdomain, record_id, api } => {
            let mut m = members();
            put(&mut m, "status", text("ok"));
            put(&mut m, "domain", Value::Str(domain.clone()));
            put(&mut m, "subdomain", Value::Str(subdomain.clone()));
            put(&mut m, "record_id", Value::Int(record_id as i64));
            put(&mut m, "removed", Value::Bool(true));
            assert(member_views(m@) =~= seq![
                ("status"@, Json::Str("ok"@)),
                ("domain"@, Json::Str(domain@)),
                ("subdomain"@, Json::Str(subdomain@)),
                ("record_id"@, Json::Int(record_id as i64)),
                ("removed"@, Json::Bool(true)),
            ]);
            let output = object(m);
            let params = vec![Value::Str(domain), Value::Str(subdomain), Value::Int(record_id as i64)];
            assert(views(params@) =~= seq![Json::Str(domain@), Json::Str(subdomain@), Json::Int(record_id as i64)]);
            let reply = Reply::Confirm { operation: String::from_str("removeZoneRecord"), output };
            let inv = invocation(api, Scope::Customer, "removeZoneRecord", params, reply);
            assert(planned(Ok::<Invocation, Error>(inv)) == records_plan(cmd));
            Ok(inv)
        },
    }
}

/// `rec` is a zone record of the given type, data, time to live, priority
/// and record id, under the member names the API uses.
pub open spec fn is_zone_record(
    rec: Json,
    record_type: Seq<char>,
    rdata: Seq<char>,
    ttl: int,
    priority: int,
    record_id: int,
) -> bool {
    &&& rec matches Json::Object(ms)
    &&& ms.len() == 5
    &&& ms[0] == ("type"@, Json::Str(record_type))
    &&& ms[1] == ("ttl"@, Json::Int(ttl as i64))
    &&& ms[2] == ("priority"@, Json::Int(priority as i64))
    &&& ms[3] == ("rdata"@, Json::Str(rdata))
    &&& ms[4] == ("record_id"@, Json::Int(record_id as i64))
}

/// Adding a zone record sends, after the domain and the subdomain, a record
/// with the `--ttl` given as its `ttl` and the `--priority` given as its
/// `priority`, and record id 0; updating one sends them with the record id
/// given.
pub proof fn zone_records_carry_ttl_and_priority(cmd: RecordsCommand)
    ensures
        match cmd {
            RecordsCommand::Add { domain, subdomain, record_type, rdata, ttl, priority, .. } => {
                &&& records_plan(cmd) matches Ok((_, p))
                &&& p.method == "addZoneRecord"@
                &&& p.params.len() == 3
                &&& p.params[0] == Json::Str(domain@)
                &&& p.params[1] == Json::Str(subdomain@)
                &&& is_zone_record(p.params[2], record_type@, rdata@, ttl as int, priority as int, 0)
            },
            RecordsCommand::Update {
                domain,
                subdomain,
                record_id,
                record_type,
                rdata,
                ttl,
                priority,
                ..
            } => {
                &&& records_plan(cmd) matches Ok((_, p))
                &&& p.method == "updateZoneRecord"@
                &&& p.params.len() == 3
                &&& p.params[0] == Json::Str(domain@)
                &&& p.params[1] == Json::Str(subdomain@)
                &&& is_zone_record(p.params[2], record_type@, rdata@, ttl as int, priority as int, record_id as int)
            },
            _ => true,
        },
{
}

} // verus!
