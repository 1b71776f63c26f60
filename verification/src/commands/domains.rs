//! Domain management commands.

use vstd::prelude::*;
use crate::cli::DomainsCommand;
use crate::error::{Error, ErrorCode, failure};
use crate::value::{Value, Json, views, member_views};
use super::{Invocation, Reply, ReplyModel, Scope, planned, call, confirm, put, members, object, text, invocation, strings, string_values};

verus! {

broadcast use vstd::string::group_string_axioms;

/// What a domains command asks of the API, or why it is refused.
pub open spec fn domains_plan(cmd: DomainsCommand) -> Result<(crate::cli::ApiArgs, super::Plan), crate::error::Failure> {
    match cmd {
        DomainsCommand::List { api } => call(api, Scope::Customer, "getDomains"@, Seq::empty(), ReplyModel::Show),
        DomainsCommand::Get { domain, api } => call(
            api,
            Scope::Customer,
            "getDomain"@,
            seq![Json::Str(domain@)],
            ReplyModel::Show,
        ),
        DomainsCommand::Check { domain, api } => call(
            api,
            Scope::Global,
            "domainIsFree"@,
            seq![Json::Str(domain@)],
            ReplyModel::Availability(domain@),
        ),
        DomainsCommand::Order { domain, accept_terms, api } => if !accept_terms {
            Err(
                failure(
                    ErrorCode::InvalidInput,
                    "Loopia rejects orders without accepted terms; pass --accept-terms."@,
                ),
            )
        } else {
            call(
                api,
                Scope::Customer,
                "orderDomain"@,
                seq![Json::Str(domain@), Json::Bool(true)],
                confirm(
                    "orderDomain"@,
                    Json::Object(
                        seq![
                            ("status"@, Json::Str("ok"@)),
                            ("domain"@, Json::Str(domain@)),
                            ("ordered"@, Json::Bool(true)),
                        ],
                    ),
                ),
            )
        },
        DomainsCommand::Add { domain, api } => call(
            api,
            Scope::Customer,
            "addDomain"@,
            seq![Json::Str(domain@)],
            confirm(
                "addDomain"@,
                Json::Object(
                    seq![
                        ("status"@, Json::Str("ok"@)),
                        ("domain"@, Json::Str(domain@)),
                        ("added"@, Json::Bool(true)),
                    ],
                ),
            ),
        ),
        DomainsCommand::Transfer { domain, auth_code, api } => call(
            api,
            Scope::Customer,
            "transferDomain"@,
            seq![Json::Str(domain@), Json::Str(auth_code@)],
            confirm(
                "transferDomain"@,
                Json::Object(
                    seq![
                        ("status"@, Json::Str("ok"@)),
                        ("domain"@, Json::Str(domain@)),
                        ("transferStarted"@, Json::Bool(true)),
                    ],
                ),
            ),
        ),
        DomainsCommand::Remove { domain, deactivate, api } => call(
            api,
            Scope::Customer,
            "removeDomain"@,
            seq![Json::Str(domain@), Json::Bool(deactivate)],
            confirm(
                "removeDomain"@,
                Json::Object(
                    seq![
                        ("status"@, Json::Str("ok"@)),
                        ("domain"@, Json::Str(domain@)),
                        ("deactivated"@, Json::Bool(deactivate)),
                        ("removed"@, Json::Bool(!deactivate)),
                    ],
                ),
            ),
        ),
        DomainsCommand::Nameservers { domain, nameservers, api } => if nameservers.len() < 2 {
            Err(
                failure(
                    ErrorCode::InvalidInput,
                    "At least two --nameserver values are required."@,
                ),
            )
        } else {
            call(
                api,
                Scope::Customer,
                "updateDNSServers"@,
                seq![Json::Str(domain@), Json::Array(strings(nameservers@))],
                confirm(
                    "updateDNSServers"@,
                    Json::Object(
                        seq![
                            ("status"@, Json::Str("ok"@)),
                            ("domain"@, Json::Str(domain@)),
                            ("nameservers"@, Json::Array(strings(nameservers@))),
                        ],
                    ),
                ),
            )
        },
    }
}

/// What a domains command asks of the API: list, look up, check, order,
/// add, transfer or remove domains, or set their name servers. An order
/// needs accepted terms, and name servers come at least two at a time.
pub fn run(cmd: DomainsCommand) -> (r: Result<Invocation, Error>)
    ensures
        planned(r) == domains_plan(cmd),
{
    match cmd {
        DomainsCommand::List { api } => {
            let params: Vec<Value> = Vec::new();
            assert(views(params@) =~= Seq::<Json>::empty());
            {
            let inv = invocation(api, Scope::Customer, "getDomains", params, Reply::Show);
            assert(planned(Ok::<Invocation, Error>(inv)) == domains_plan(cmd));
            Ok(inv)
        }
        },
        DomainsCommand::Get { domain, api } => {
            let params = vec![Value::Str(domain)];
            assert(views(params@) =~= seq![Json::Str(domain@)]);
            {
            let inv = invocation(api, Scope::Customer, "getDomain", params, Reply::Show);
            assert(planned(Ok::<Invocation, Error>(inv)) == domains_plan(cmd));
            Ok(inv)
        }
        },
        DomainsCommand::Check { domain, api } => {
            let params = vec![Value::Str(domain.clone())];
            assert(views(params@) =~= seq![Json::Str(domain@)]);
            {
            let inv = invocation(api, Scope::Global, "domainIsFree", params, Reply::Availability { domain });
            assert(planned(Ok::<Invocation, Error>(inv)) == domains_plan(cmd));
            Ok(inv)
        }
        },
        DomainsCommand::Order { domain, accept_terms, api } => {
            if !accept_terms {
                return Err(
                    Error::invalid(
                        String::from_str(
                            "Loopia rejects orders without accepted terms; pass --accept-terms.",
                        ),
                    ),
                );
            }
            let mut m = members();
            put(&mut m, "status", text("ok"));
            put(&mut m, "domain", Value::Str(domain.clone()));
            put(&mut m, "ordered", Value::Bool(true));
            assert(member_views(m@) =~= seq![
                ("status"@, Json::Str("ok"@)),
                ("domain"@, Json::Str(domain@)),
                ("ordered"@, Json::Bool(true)),
            ]);
            let output = object(m);
            let params = vec![Value::Str(domain), Value::Bool(true)];
            assert(views(params@) =~= seq![Json::Str(domain@), Json::Bool(true)]);
            {
            let inv = invocation(
                    api,
                    Scope::Customer,
                    "orderDomain",
                    params,
                    Reply::Confirm { operation: String::from_str("orderDomain"), output },
                );
            assert(planned(Ok::<Invocation, Error>(inv)) == domains_plan(cmd));
            Ok(inv)
        }
        },
        DomainsCommand::Add { domain, api } => {
            let mut m = members();
            put(&mut m, "status", text("ok"));
            put(&mut m, "domain", Value::Str(domain.clone()));
            put(&mut m, "added", Value::Bool(true));
            assert(member_views(m@) =~= seq![
                ("status"@, Json::Str("ok"@)),
                ("domain"@, Json::Str(domain@)),
                ("added"@, Json::Bool(true)),
            ]);
            let output = object(m);
            let params = vec![Value::Str(domain)];
            assert(views(params@) =~= seq![Json::Str(domain@)]);
            {
            let inv = invocation(
                    api,
                    Scope::Customer,
                    "addDomain",
                    params,
                    Reply::Confirm { operation: String::from_str("addDomain"), output },
                );
            assert(planned(Ok::<Invocation, Error>(inv)) == domains_plan(cmd));
            Ok(inv)
        }
        },
        DomainsCommand::Transfer { domain, auth_code, api } => {
            let mut m = members();
            put(&mut m, "status", text("ok"));
            put(&mut m, "domain", Value::Str(domain.clone()));
            put(&mut m, "transferStarted", Value::Bool(true));
            assert(member_views(m@) =~= seq![
                ("status"@, Json::Str("ok"@)),
                ("domain"@, Json::Str(domain@)),
                ("transferStarted"@, Json::Bool(true)),
            ]);
            let output = object(m);
            let params = vec![Value::Str(domain), Value::Str(auth_code)];
            assert(views(params@) =~= seq![Json::Str(domain@), Json::Str(auth_code@)]);
            {
            let inv = invocation(
                    api,
                    Scope::Customer,
                    "transferDomain",
                    params,
                    Reply::Confirm { operation: String::from_str("transferDomain"), output },
                );
            assert(planned(Ok::<Invocation, Error>(inv)) == domains_plan(cmd));
            Ok(inv)
        }
        },
        DomainsCommand::Remove { domain, deactivate, api } => {
            let mut m = members();
            put(&mut m, "status", text("ok"));
            put(&mut m, "domain", Value::Str(domain.clone()));
            put(&mut m, "deactivated", Value::Bool(deactivate));
            put(&mut m, "removed", Value::Bool(!deactivate));
            assert(member_views(m@) =~= seq![
                ("status"@, Json::Str("ok"@)),
                ("domain"@, Json::Str(domain@)),
                ("deactivated"@, Json::Bool(deactivate)),
                ("removed"@, Json::Bool(!deactivate)),
            ]);
            let output = object(m);
            let params = vec![Value::Str(domain), Value::Bool(deactivate)];
            assert(views(params@) =~= seq![Json::Str(domain@), Json::Bool(deactivate)]);
            {
            let inv = invocation(
                    api,
                    Scope::Customer,
                    "removeDomain",
                    params,
                    Reply::Confirm { operation: String::from_str("removeDomain"), output },
                );
            assert(planned(Ok::<Invocation, Error>(inv)) == domains_plan(cmd));
            Ok(inv)
        }
        },
        DomainsCommand::Nameservers { domain, nameservers, api } => {
            if nameservers.len() < 2 {
                return Err(
                    Error::invalid(String::from_str("At least two --nameserver values are required.")),
                );
            }
            let mut m = members();
            put(&mut m, "status", text("ok"));
            put(&mut m, "domain", Value::Str(domain.clone()));
            put(&mut m, "nameservers", string_values(&nameservers));
            assert(member_views(m@) =~= seq![
                ("status"@, Json::Str("ok"@)),
                ("domain"@, Json::Str(domain@)),
                ("nameservers"@, Json::Array(strings(nameservers@))),
            ]);
            let output = object(m);
            let ns = string_values(&nameservers);
            let params = vec![Value::Str(domain), ns];
            assert(views(params@) =~= seq![Json::Str(domain@), Json::Array(strings(nameservers@))]);
            {
            let inv = invocation(
                    api,
                    Scope::Customer,
                    "updateDNSServers",
                    params,
                    Reply::Confirm { operation: String::from_str("updateDNSServers"), output },
                );
            assert(planned(Ok::<Invocation, Error>(inv)) == domains_plan(cmd));
            Ok(inv)
        }
        },
    }
}

/// Removing a domain passes `--deactivate` on as the second parameter of
/// `removeDomain`, after the domain, and reports it as `deactivated`; the
/// domain is reported removed exactly when it is not deactivated.
pub proof fn removal_follows_the_deactivate_flag(domain: String, deactivate: bool, api: crate::cli::ApiArgs)
    ensures
        ({
            &&& domains_plan(DomainsCommand::Remove { domain, deactivate, api }) matches Ok((_, p))
            &&& p.method == "removeDomain"@
            &&& p.params.len() == 2
            &&& p.params[0] == Json::Str(domain@)
            &&& p.params[1] == Json::Bool(deactivate)
            &&& p.reply matches ReplyModel::Confirm(_, Json::Object(ms))
            &&& ms.len() == 4
            &&& ms[2] == ("deactivated"@, p.params[1])
            &&& ms[3] == ("removed"@, Json::Bool(!deactivate))
        }),
{
}

} // verus!
