//! What each command asks of the API, and what it reports from the answer.
//!
//! A command becomes an [`Invocation`]: the credentials options, the method
//! with its parameters, and what to make of the result ([`Reply`]).
//! [`conclude`] turns the result into the output and the error to report.

pub mod accounts;
pub mod billing;
pub mod domains;
pub mod login;
pub mod records;
pub mod reseller;
pub mod subdomains;

use vstd::prelude::*;
use crate::cli::{ApiArgs, Command};
use crate::error::{Error, ErrorCode, Failure, failure};
use crate::value::{Value, Json, views, member_views, lemma_object_view, lemma_array_view};
use crate::xmlrpc::{LoopiaStatus, status_of, status_failure};
use crate::text::eq_ignore_case;

verus! {

broadcast use vstd::string::group_string_axioms;

/// Whether a method takes the reseller customer number after the credentials.
#[derive(Clone, Copy, PartialEq, Eq, Structural)]
pub enum Scope {
    Customer,
    Global,
}

/// What a command makes of the result of its call.
pub enum Reply {
    /// Reports the result as it is.
    Show,
    /// Checks that the status word is `OK`, then reports `output`.
    Confirm { operation: String, output: Value },
    /// Reports whether a domain is free to register; fails when it is not.
    Availability { domain: String },
    /// Reports that a stored account's credentials work.
    AccountTest { name: String },
}

/// The model of a [`Reply`].
pub enum ReplyModel {
    Show,
    Confirm(Seq<char>, Json),
    Availability(Seq<char>),
    AccountTest(Seq<char>),
}

impl View for Reply {
    type V = ReplyModel;

    open spec fn view(&self) -> ReplyModel {
        match self {
            Reply::Show => ReplyModel::Show,
            Reply::Confirm { operation, output } => ReplyModel::Confirm(operation@, output@),
            Reply::Availability { domain } => ReplyModel::Availability(domain@),
            Reply::AccountTest { name } => ReplyModel::AccountTest(name@),
        }
    }
}

/// One API call of a command.
pub struct Invocation {
    pub api: ApiArgs,
    pub scope: Scope,
    pub method: String,
    pub params: Vec<Value>,
    pub reply: Reply,
}

/// The model of an [`Invocation`], credentials options aside.
pub struct Plan {
    pub scope: Scope,
    pub method: Seq<char>,
    pub params: Seq<Json>,
    pub reply: ReplyModel,
}

impl Invocation {
    pub open spec fn plan(&self) -> Plan {
        Plan { scope: self.scope, method: self.method@, params: views(self.params@), reply: self.reply@ }
    }
}

/// The model of a command's outcome: its credentials options and plan, or an error.
pub open spec fn planned(r: Result<Invocation, Error>) -> Result<(ApiArgs, Plan), Failure> {
    match r {
        Ok(inv) => Ok((inv.api, inv.plan())),
        Err(e) => Err(e@),
    }
}

pub open spec fn call(
    api: ApiArgs,
    scope: Scope,
    method: Seq<char>,
    params: Seq<Json>,
    reply: ReplyModel,
) -> Result<(ApiArgs, Plan), Failure> {
    Ok((api, Plan { scope, method, params, reply }))
}

pub open spec fn confirm(operation: Seq<char>, output: Json) -> ReplyModel {
    ReplyModel::Confirm(operation, output)
}

/// The strings of a list, as string values.
pub open spec fn strings(ns: Seq<String>) -> Seq<Json> {
    ns.map_values(|n: String| Json::Str(n@))
}

/// String values of a list of strings.
pub fn string_values(ns: &Vec<String>) -> (v: Value)
    ensures
        v@ == Json::Array(strings(ns@)),
{
    let mut items: Vec<Value> = Vec::new();
    let mut i: usize = 0;
    while i < ns.len()
        invariant
            i <= ns.len(),
            views(items@) =~= strings(ns@).take(i as int),
        decreases ns.len() - i,
    {
        let ghost before = views(items@);
        items.push(Value::Str(ns[i].clone()));
        proof {
            assert(views(items@) =~= before.push(Json::Str(ns@[i as int]@)));
            assert(strings(ns@).take(i + 1) =~= strings(ns@).take(i as int).push(Json::Str(ns@[i as int]@)));
        }
        i = i + 1;
    }
    assert(strings(ns@).take(ns.len() as int) =~= strings(ns@));
    proof {
        lemma_array_view(items);
    }
    Value::Array(items)
}

pub fn invocation(
    api: crate::cli::ApiArgs,
    scope: Scope,
    method: &str,
    params: Vec<Value>,
    reply: Reply,
) -> (inv: Invocation)
    ensures
        inv.api == api,
        inv.scope == scope,
        inv.method@ == method@,
        inv.params@ == params@,
        inv.reply == reply,
{
    Invocation { api, scope, method: String::from_str(method), params, reply }
}

/// What a command reports: the output it writes, and the error it ends with.
#[derive(Debug)]
pub struct Report {
    pub output: Option<Value>,
    pub error: Option<Error>,
}

/// The model of a [`Report`].
pub struct ReportModel {
    pub output: Option<Json>,
    pub error: Option<Failure>,
}

impl View for Report {
    type V = ReportModel;

    open spec fn view(&self) -> ReportModel {
        ReportModel {
            output: match self.output {
                Some(v) => Some(v@),
                None => None,
            },
            error: match self.error {
                Some(e) => Some(e@),
                None => None,
            },
        }
    }
}

/// The number of items of an array result; nothing else has items.
pub open spec fn item_count(v: Json) -> int {
    match v {
        Json::Array(items) => items.len() as int,
        _ => 0,
    }
}

/// What a command reports once its call returned `result`.
pub open spec fn report(reply: ReplyModel, result: Json) -> ReportModel {
    match reply {
        ReplyModel::Show => ReportModel { output: Some(result), error: None },
        ReplyModel::Confirm(op, output) => if eq_ignore_case(status_of(result), "OK"@) {
            ReportModel { output: Some(output), error: None }
        } else {
            ReportModel { output: None, error: Some(status_failure(status_of(result), op)) }
        },
        ReplyModel::Availability(domain) => {
            let status = status_of(result);
            if eq_ignore_case(status, "OK"@) {
                ReportModel {
                    output: Some(
                        Json::Object(
                            seq![
                                ("domain"@, Json::Str(domain)),
                                ("available"@, Json::Bool(true)),
                                ("status"@, Json::Str("OK"@)),
                            ],
                        ),
                    ),
                    error: None,
                }
            } else {
                ReportModel {
                    output: Some(
                        Json::Object(
                            seq![
                                ("domain"@, Json::Str(domain)),
                                ("available"@, Json::Bool(false)),
                                ("status"@, Json::Str(status)),
                            ],
                        ),
                    ),
                    error: Some(
                        Failure {
                            code: ErrorCode::InvalidInput,
                            message: domain + " is not available ("@ + status + ")."@,
                            detail: Some(status),
                            fix: None,
                        },
                    ),
                }
            }
        },
        ReplyModel::AccountTest(name) => ReportModel {
            output: Some(
                Json::Object(
                    seq![
                        ("status"@, Json::Str("ok"@)),
                        ("account"@, Json::Str(name)),
                        ("valid"@, Json::Bool(true)),
                        ("domainCount"@, Json::Int(item_count(result) as i64)),
                    ],
                ),
            ),
            error: None,
        },
    }
}

/// Adds a member to an object under construction.
pub fn put(members: &mut Vec<(String, Value)>, key: &str, v: Value)
    ensures
        member_views(final(members)@) == member_views(old(members)@).push((key@, v@)),
{
    let ghost kv = (key@, v@);
    members.push((String::from_str(key), v));
    proof {
        assert(member_views(members@) =~= member_views(old(members)@).push(kv));
    }
}

/// An object with no members yet.
pub fn members() -> (m: Vec<(String, Value)>)
    ensures
        member_views(m@) == Seq::<(Seq<char>, Json)>::empty(),
{
    let m: Vec<(String, Value)> = Vec::new();
    assert(member_views(m@) =~= Seq::<(Seq<char>, Json)>::empty());
    m
}

/// An object of the members built.
pub fn object(m: Vec<(String, Value)>) -> (v: Value)
    ensures
        v@ == Json::Object(member_views(m@)),
{
    proof {
        lemma_object_view(m);
    }
    Value::Object(m)
}

/// A string value.
pub fn text(s: &str) -> (v: Value)
    ensures
        v@ == Json::Str(s@),
{
    Value::Str(String::from_str(s))
}

/// The number of items of an array value.
fn count_items(v: &Value) -> (n: usize)
    ensures
        n == item_count(v@),
{
    match v {
        Value::Array(items) => items.len(),
        _ => 0,
    }
}

/// What a command reports once its call returned `result`.
pub fn conclude(reply: &Reply, result: Value) -> (r: Report)
    ensures
        r@ == report(reply@, result@),
{
    match reply {
        Reply::Show => {
            let r = Report { output: Some(result), error: None };
            assert(r@ == report(reply@, result@));
            r
        },
        Reply::Confirm { operation, output } => match LoopiaStatus::ensure_ok(&result, operation.as_str()) {
            Ok(()) => Report { output: Some(output.copy()), error: None },
            Err(e) => Report { output: None, error: Some(e) },
        },
        Reply::Availability { domain } => {
            let status = LoopiaStatus::read(&result);
            let free = crate::text::eq_ignore_ascii_case(status.as_str(), LoopiaStatus::OK);
            let mut m = members();
            put(&mut m, "domain", text(domain.as_str()));
            put(&mut m, "available", Value::Bool(free));
            if free {
                put(&mut m, "status", text("OK"));
                assert(member_views(m@) =~= seq![
                    ("domain"@, Json::Str(domain@)),
                    ("available"@, Json::Bool(true)),
                    ("status"@, Json::Str("OK"@)),
                ]);
                let r = Report { output: Some(object(m)), error: None };
                assert(r@ == report(reply@, result@));
                r
            } else {
                put(&mut m, "status", Value::Str(status.clone()));
                assert(member_views(m@) =~= seq![
                    ("domain"@, Json::Str(domain@)),
                    ("available"@, Json::Bool(false)),
                    ("status"@, Json::Str(status@)),
                ]);
                let mut msg = domain.clone();
                msg.append(" is not available (");
                msg.append(status.as_str());
                msg.append(").");
                assert(msg@ =~= domain@ + " is not available ("@ + status@ + ")."@);
                Report {
                    output: Some(object(m)),
                    error: Some(Error::invalid(msg).detail(status)),
                }
            }
        },
        Reply::AccountTest { name } => {
            let n = count_items(&result);
            let mut m = members();
            put(&mut m, "status", text("ok"));
            put(&mut m, "account", text(name.as_str()));
            put(&mut m, "valid", Value::Bool(true));
            put(&mut m, "domainCount", Value::Int(n as i64));
            assert(member_views(m@) =~= seq![
                ("status"@, Json::Str("ok"@)),
                ("account"@, Json::Str(name@)),
                ("valid"@, Json::Bool(true)),
                ("domainCount"@, Json::Int(item_count(result@) as i64)),
            ]);
            let r = Report { output: Some(object(m)), error: None };
            assert(r@ == report(reply@, result@));
            r
        },
    }
}

/// The work of a command line.
pub enum Task {
    /// Print the agent manual.
    AgentReadme,
    /// Work on the stored accounts.
    Accounts(accounts::AccountsTask),
    /// Call the API, unless the command is refused.
    Api(Result<Invocation, Error>),
}

/// The work that each command comes to.
pub fn run(command: Command) -> (t: Task)
    ensures
        match command {
            Command::AgentReadme => t is AgentReadme,
            Command::Login(args) => t == Task::Accounts(accounts::AccountsTask::Add(args)),
            Command::Accounts(cmd) => t matches Task::Accounts(a) && accounts::accounts_task(cmd, a),
            Command::Domains(cmd) => t matches Task::Api(r) && planned(r) == domains::domains_plan(cmd),
            Command::Subdomains(cmd) => t matches Task::Api(r) && planned(r)
                == subdomains::subdomains_plan(cmd),
            Command::Records(cmd) => t matches Task::Api(r) && planned(r) == records::records_plan(cmd),
            Command::Billing(cmd) => t matches Task::Api(r) && planned(r) == billing::billing_plan(cmd),
            Command::Invoices(cmd) => t matches Task::Api(r) && planned(r) == billing::invoices_plan(cmd),
            Command::Reseller(cmd) => t matches Task::Api(r) && planned(r) == reseller::reseller_plan(cmd),
        },
{
    match command {
        Command::AgentReadme => Task::AgentReadme,
        Command::Login(args) => Task::Accounts(login::run(args)),
        Command::Accounts(cmd) => Task::Accounts(accounts::run(cmd)),
        Command::Domains(cmd) => Task::Api(domains::run(cmd)),
        Command::Subdomains(cmd) => Task::Api(subdomains::run(cmd)),
        Command::Records(cmd) => Task::Api(records::run(cmd)),
        Command::Billing(cmd) => Task::Api(billing::run(cmd)),
        Command::Invoices(cmd) => Task::Api(billing::run_invoices(cmd)),
        Command::Reseller(cmd) => Task::Api(reseller::run(cmd)),
    }
}

} // verus!
