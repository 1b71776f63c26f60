//! Subdomain management commands.

use vstd::prelude::*;
use crate::cli::SubdomainsCommand;
use crate::error::Error;
use crate::value::{Value, Json, views, member_views};
use super::{Invocation, Reply, ReplyModel, Scope, planned, call, confirm, put, members, object, text, invocation};

verus! {

broadcast use vstd::string::group_string_axioms;

/// What a subdomains command asks of the API.
pub open spec fn subdomains_plan(cmd: SubdomainsCommand) -> Result<(crate::cli::ApiArgs, super::Plan), crate::error::Failure> {
    match cmd {
        SubdomainsCommand::List { domain, api } => call(
            api,
            Scope::Customer,
            "getSubdomains"@,
            seq![Json::Str(domain@)],
            ReplyModel::Show,
        ),
        SubdomainsCommand::Add { domain, subdomain, api } => call(
            api,
            Scope::Customer,
            "addSubdomain"@,
            seq![Json::Str(domain@), Json::Str(subdomain@)],
            confirm(
                "addSubdomain"@,
                Json::Object(
                    seq![
                        ("status"@, Json::Str("ok"@)),
                        ("domain"@, Json::Str(domain@)),
                        ("subdomain"@, Json::Str(subdomain@)),
                        ("added"@, Json::Bool(true)),
                    ],
                ),
            ),
        ),
        SubdomainsCommand::Remove { domain, subdomain, api } => call(
            api,
            Scope::Customer,
            "removeSubdomain"@,
            seq![Json::Str(domain@), Json::Str(subdomain@)],
            confirm(
                "removeSubdomain"@,
                Json::Object(
                    seq![
                        ("status"@, Json::Str("ok"@)),
                        ("domain"@, Json::Str(domain@)),
                        ("subdomain"@, Json::Str(subdomain@)),
                        ("removed"@, Json::Bool(true)),
                    ],
                ),
            ),
        ),
    }
}

/// What a subdomains command asks of the API: list the subdomains of a
/// domain, add one or remove one.
pub fn run(cmd: SubdomainsCommand) -> (r: Result<Invocation, Error>)
    ensures
        planned(r) == subdomains_plan(cmd),
{
    match cmd {
        SubdomainsCommand::List { domain, api } => {
            let params = vec![Value::Str(domain)];
            assert(views(params@) =~= seq![Json::Str(domain@)]);
            let inv = invocation(api, Scope::Customer, "getSubdomains", params, Reply::Show);
            assert(planned(Ok::<Invocation, Error>(inv)) == subdomains_plan(cmd));
            Ok(inv)
        },
        SubdomainsCommand::Add { domain, subdomain, api } => {
            let mut m = members();
            put(&mut m, "status", text("ok"));
            put(&mut m, "domain", Value::Str(domain.clone()));
            put(&mut m, "subdomain", Value::Str(subdomain.clone()));
            put(&mut m, "added", Value::Bool(true));
            assert(member_views(m@) =~= seq![
                ("status"@, Json::Str("ok"@)),
                ("domain"@, Json::Str(domain@)),
                ("subdomain"@, Json::Str(subdomain@)),
                ("added"@, Json::Bool(true)),
            ]);
            let output = object(m);
            let params = vec![Value::Str(domain), Value::Str(subdomain)];
            assert(views(params@) =~= seq![Json::Str(domain@), Json::Str(subdomain@)]);
            let reply = Reply::Confirm { operation: String::from_str("addSubdomain"), output };
            let inv = invocation(api, Scope::Customer, "addSubdomain", params, reply);
            assert(planned(Ok::<Invocation, Error>(inv)) == subdomains_plan(cmd));
            Ok(inv)
        },
        SubdomainsCommand::Remove { domain, subdomain, api } => {
            let mut m = members();
            put(&mut m, "status", text("ok"));
            put(&mut m, "domain", Value::Str(domain.clone()));
            put(&mut m, "subdomain", Value::Str(subdomain.clone()));
            put(&mut m, "removed", Value::Bool(true));
            assert(member_views(m@) =~= seq![
                ("status"@, Json::Str("ok"@)),
                ("domain"@, Json::Str(domain@)),
                ("subdomain"@, Json::Str(subdomain@)),
                ("removed"@, Json::Bool(true)),
            ]);
            let output = object(m);
            let params = vec![Value::Str(domain), Value::Str(subdomain)];
            assert(views(params@) =~= seq![Json::Str(domain@), Json::Str(subdomain@)]);
            let reply = Reply::Confirm { operation: String::from_str("removeSubdomain"), output };
            let inv = invocation(api, Scope::Customer, "removeSubdomain", params, reply);
            assert(planned(Ok::<Invocation, Error>(inv)) == subdomains_plan(cmd));
            Ok(inv)
        },
    }
}

} // verus!
