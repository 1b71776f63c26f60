//! Reseller operations commands.

use vstd::prelude::*;
use crate::cli::{ApiArgs, ResellerCommand};
use crate::error::{Error, ErrorCode, Failure, failure};
use crate::value::{Value, Json, views, member_views};
use super::{Invocation, Reply, ReplyModel, Scope, Plan, planned, call, confirm, put, members, object, text, invocation};

verus! {

broadcast use vstd::string::group_string_axioms;

/// How the amount of a credit transfer is reported: the number when it is
/// a finite one, else nil.
pub open spec fn shown_amount(amount: Json) -> Json {
    match amount {
        Json::Double(t) => Json::Double(t),
        _ => Json::Null,
    }
}

/// The owner contact of a new account.
pub open spec fn contact_json(
    firstname: Seq<char>,
    lastname: Seq<char>,
    company: Seq<char>,
    street: Seq<char>,
    street2: Seq<char>,
    zip: Seq<char>,
    city: Seq<char>,
    country: Seq<char>,
    orgno: Seq<char>,
    norid_pid: Seq<char>,
    phone: Seq<char>,
    cell: Seq<char>,
    fax: Seq<char>,
    email: Seq<char>,
) -> Json {
    Json::Object(
        seq![
            ("firstname"@, Json::Str(firstname)),
            ("lastname"@, Json::Str(lastname)),
            ("company"@, Json::Str(company)),
            ("street"@, Json::Str(street)),
            ("street2"@, Json::Str(street2)),
            ("zip"@, Json::Str(zip)),
            ("city"@, Json::Str(city)),
            ("country_iso2"@, Json::Str(country)),
            ("orgno"@, Json::Str(orgno)),
            ("norid_pid"@, Json::Str(norid_pid)),
            ("phone"@, Json::Str(phone)),
            ("cell"@, Json::Str(cell)),
            ("fax"@, Json::Str(fax)),
            ("email"@, Json::Str(email)),
        ],
    )
}

/// What a reseller command asks of the API, or why it is refused.
pub open spec fn reseller_plan(cmd: ResellerCommand) -> Result<(ApiArgs, Plan), Failure> {
    match cmd {
        ResellerCommand::Customers { api } => call(
            api,
            Scope::Global,
            "getCustomers"@,
            Seq::empty(),
            ReplyModel::Show,
        ),
        ResellerCommand::CreateAccount {
            domain,
            account_type,
            domain_configuration,
            buy_domain,
            billing_contact_reseller,
            tech_contact_reseller,
            accept_terms,
            firstname,
            lastname,
            company,
            street,
            street2,
            zip,
            city,
            country,
            orgno,
            norid_pid,
            phone,
            cell,
            fax,
            email,
            api,
        } => if !accept_terms {
            Err(
                failure(
                    ErrorCode::InvalidInput,
                    "Loopia requires the end user to have accepted the agreements; pass --accept-terms."@,
                ),
            )
        } else {
            call(
                api,
                Scope::Global,
                "createNewAccount"@,
                seq![
                    Json::Str(domain@),
                    contact_json(
                        firstname@,
                        lastname@,
                        company@,
                        street@,
                        street2@,
                        zip@,
                        city@,
                        country@,
                        orgno@,
                        norid_pid@,
                        phone@,
                        cell@,
                        fax@,
                        email@,
                    ),
                    Json::Bool(billing_contact_reseller),
                    Json::Bool(tech_contact_reseller),
                    Json::Bool(buy_domain),
                    Json::Str(domain_configuration@),
                    Json::Str(account_type@),
                    Json::Bool(true),
                ],
                ReplyModel::Show,
            )
        },
        ResellerCommand::OrderStatus { order_reference, api } => call(
            api,
            Scope::Global,
            "getOrderStatus"@,
            seq![Json::Str(order_reference@)],
            ReplyModel::Show,
        ),
        ResellerCommand::TransferCredits { from, to, amount, currency, api } => call(
            api,
            Scope::Global,
            "transferCreditsByCurrency"@,
            seq![Json::Str(from@), Json::Str(to@), amount@, Json::Str(currency@)],
            confirm(
                "transferCreditsByCurrency"@,
                Json::Object(
                    seq![
                        ("status"@, Json::Str("ok"@)),
                        ("from"@, Json::Str(from@)),
                        ("to"@, Json::Str(to@)),
                        ("amount"@, shown_amount(amount@)),
                        ("currency"@, Json::Str(currency@)),
                        ("transferred"@, Json::Bool(true)),
                    ],
                ),
            ),
        ),
    }
}

fn shown(amount: &Value) -> (v: Value)
    ensures
        v@ == shown_amount(amount@),
{
    match amount {
        Value::Double(t) => Value::Double(t.clone()),
        _ => Value::Null,
    }
}

/// What a reseller command asks of the API: the customers, creating an
/// account (which needs accepted agreements), the status of an order, or a
/// transfer of credits.
pub fn run(cmd: ResellerCommand) -> (r: Result<Invocation, Error>)
    ensures
        planned(r) == reseller_plan(cmd),
{
    match cmd {
        ResellerCommand::Customers { api } => {
            let params: Vec<Value> = Vec::new();
            assert(views(params@) =~= Seq::<Json>::empty());
            let inv = invocation(api, Scope::Global, "getCustomers", params, Reply::Show);
            assert(planned(Ok::<Invocation, Error>(inv)) == reseller_plan(cmd));
            Ok(inv)
        },
        ResellerCommand::CreateAccount {
            domain,
            account_type,
            domain_configuration,
            buy_domain,
            billing_contact_reseller,
            tech_contact_reseller,
            accept_terms,
            firstname,
            lastname,
            company,
            street,
            street2,
            zip,
            city,
            country,
            orgno,
            norid_pid,
            phone,
            cell,
            fax,
            email,
            api,
        } => {
            if !accept_terms {
                return Err(
                    Error::invalid(
                        String::from_str(
                            "Loopia requires the end user to have accepted the agreements; pass --accept-terms.",
                        ),
                    ),
                );
            }
            let mut m = members();
            put(&mut m, "firstname", Value::Str(firstname));
            put(&mut m, "lastname", Value::Str(lastname));
            put(&mut m, "company", Value::Str(company));
            put(&mut m, "street", Value::Str(street));
            put(&mut m, "street2", Value::Str(street2));
            put(&mut m, "zip", Value::Str(zip));
            put(&mut m, "city", Value::Str(city));
            put(&mut m, "country_iso2", Value::Str(country));
            put(&mut m, "orgno", Value::Str(orgno));
            put(&mut m, "norid_pid", Value::Str(norid_pid));
            put(&mut m, "phone", Value::Str(phone));
            put(&mut m, "cell", Value::Str(cell));
            put(&mut m, "fax", Value::Str(fax));
            put(&mut m, "email", Value::Str(email));
            let contact = object(m);
            assert(contact@ == contact_json(
                firstname@, lastname@, company@, street@, street2@, zip@, city@, country@, orgno@,
                norid_pid@, phone@, cell@, fax@, email@,
            )) by {
                assert(member_views(m@) =~= contact_json(
                    firstname@, lastname@, company@, street@, street2@, zip@, city@, country@,
                    orgno@, norid_pid@, phone@, cell@, fax@, email@,
                )->Object_0);
            }
            let ghost cv = contact@;
            let params = vec![
                Value::Str(domain),
                contact,
                Value::Bool(billing_contact_reseller),
                Value::Bool(tech_contact_reseller),
                Value::Bool(buy_domain),
                Value::Str(domain_configuration),
                Value::Str(account_type),
                Value::Bool(true),
            ];
            assert(views(params@) =~= seq![
                Json::Str(domain@),
                cv,
                Json::Bool(billing_contact_reseller),
                Json::Bool(tech_contact_reseller),
                Json::Bool(buy_domain),
                Json::Str(domain_configuration@),
                Json::Str(account_type@),
                Json::Bool(true),
            ]);
            let inv = invocation(api, Scope::Global, "createNewAccount", params, Reply::Show);
            assert(planned(Ok::<Invocation, Error>(inv)) == reseller_plan(cmd));
            Ok(inv)
        },
        ResellerCommand::OrderStatus { order_reference, api } => {
            let params = vec![Value::Str(order_reference)];
            assert(views(params@) =~= seq![Json::Str(order_reference@)]);
            let inv = invocation(api, Scope::Global, "getOrderStatus", params, Reply::Show);
            assert(planned(Ok::<Invocation, Error>(inv)) == reseller_plan(cmd));
            Ok(inv)
        },
        ResellerCommand::TransferCredits { from, to, amount, currency, api } => {
            let mut m = members();
            put(&mut m, "status", text("ok"));
            put(&mut m, "from", Value::Str(from.clone()));
            put(&mut m, "to", Value::Str(to.clone()));
            put(&mut m, "amount", shown(&amount));
            put(&mut m, "currency", Value::Str(currency.clone()));
            put(&mut m, "transferred", Value::Bool(true));
            assert(member_views(m@) =~= seq![
                ("status"@, Json::Str("ok"@)),
                ("from"@, Json::Str(from@)),
                ("to"@, Json::Str(to@)),
                ("amount"@, shown_amount(amount@)),
                ("currency"@, Json::Str(currency@)),
                ("transferred"@, Json::Bool(true)),
            ]);
            let output = object(m);
            let ghost av = amount@;
            let params = vec![Value::Str(from), Value::Str(to), amount, Value::Str(currency)];
            assert(views(params@) =~= seq![Json::Str(from@), Json::Str(to@), av, Json::Str(currency@)]);
            let reply = Reply::Confirm { operation: String::from_str("transferCreditsByCurrency"), output };
            let inv = invocation(api, Scope::Global, "transferCreditsByCurrency", params, reply);
            assert(planned(Ok::<Invocation, Error>(inv)) == reseller_plan(cmd));
            Ok(inv)
        },
    }
}

/// A credit transfer sends the `--from` customer number first and the `--to`
/// customer number second, then the amount and the currency, and reports the
/// same two customer numbers as `from` and `to`.
pub proof fn credits_move_from_the_first_customer_to_the_second(
    from: String,
    to: String,
    amount: Value,
    currency: String,
    api: ApiArgs,
)
    ensures
        ({
            &&& reseller_plan(ResellerCommand::TransferCredits { from, to, amount, currency, api }) matches Ok((_, p))
            &&& p.method == "transferCreditsByCurrency"@
            &&& p.params.len() == 4
            &&& p.params[0] == Json::Str(from@)
            &&& p.params[1] == Json::Str(to@)
            &&& p.params[2] == amount@
            &&& p.params[3] == Json::Str(currency@)
            &&& p.reply matches ReplyModel::Confirm(_, Json::Object(ms))
            &&& ms.len() == 6
            &&& ms[1] == ("from"@, p.params[0])
            &&& ms[2] == ("to"@, p.params[1])
        }),
{
}

} // verus!
