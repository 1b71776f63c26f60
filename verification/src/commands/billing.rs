//! Billing and invoices commands.

use vstd::prelude::*;
use crate::cli::{ApiArgs, BillingCommand, InvoicesCommand};
use crate::error::{Error, Failure};
use crate::value::{Value, Json, views, member_views};
use super::{Invocation, Reply, ReplyModel, Scope, Plan, planned, call, confirm, put, members, object, text, invocation};

verus! {

broadcast use vstd::string::group_string_axioms;

pub open spec fn credits_plan(with_vat: bool, api: ApiArgs) -> Result<(ApiArgs, Plan), Failure> {
    call(api, Scope::Customer, "getCreditsAmount"@, seq![Json::Bool(with_vat)], ReplyModel::Show)
}

pub open spec fn unpaid_invoices_plan(with_vat: bool, api: ApiArgs) -> Result<(ApiArgs, Plan), Failure> {
    call(api, Scope::Customer, "getUnpaidInvoices"@, seq![Json::Bool(with_vat)], ReplyModel::Show)
}

pub open spec fn invoice_plan(reference_no: Seq<char>, with_vat: bool, api: ApiArgs) -> Result<
    (ApiArgs, Plan),
    Failure,
> {
    call(
        api,
        Scope::Customer,
        "getInvoice"@,
        seq![Json::Str(reference_no), Json::Bool(with_vat)],
        ReplyModel::Show,
    )
}

pub open spec fn pay_invoice_plan(reference_no: Seq<char>, api: ApiArgs) -> Result<(ApiArgs, Plan), Failure> {
    call(
        api,
        Scope::Customer,
        "payInvoiceUsingCredits"@,
        seq![Json::Str(reference_no)],
        confirm(
            "payInvoiceUsingCredits"@,
            Json::Object(
                seq![
                    ("status"@, Json::Str("ok"@)),
                    ("reference_no"@, Json::Str(reference_no)),
                    ("paid"@, Json::Bool(true)),
                ],
            ),
        ),
    )
}

/// What a billing command asks of the API.
pub open spec fn billing_plan(cmd: BillingCommand) -> Result<(ApiArgs, Plan), Failure> {
    match cmd {
        BillingCommand::Credits { with_vat, api } => credits_plan(with_vat, api),
        BillingCommand::UnpaidInvoices { with_vat, api } => unpaid_invoices_plan(with_vat, api),
        BillingCommand::Invoice { reference_no, with_vat, api } => invoice_plan(reference_no@, with_vat, api),
        BillingCommand::PayInvoice { reference_no, api } => pay_invoice_plan(reference_no@, api),
    }
}

/// What an invoices command asks of the API.
pub open spec fn invoices_plan(cmd: InvoicesCommand) -> Result<(ApiArgs, Plan), Failure> {
    match cmd {
        InvoicesCommand::List { with_vat, api } => unpaid_invoices_plan(with_vat, api),
        InvoicesCommand::Get { reference_no, with_vat, api } => invoice_plan(reference_no@, with_vat, api),
        InvoicesCommand::Pay { reference_no, api } => pay_invoice_plan(reference_no@, api),
    }
}

fn credits(with_vat: bool, api: ApiArgs) -> (r: Result<Invocation, Error>)
    ensures
        planned(r) == credits_plan(with_vat, api),
{
    let params = vec![Value::Bool(with_vat)];
    assert(views(params@) =~= seq![Json::Bool(with_vat)]);
    let inv = invocation(api, Scope::Customer, "getCreditsAmount", params, Reply::Show);
    assert(planned(Ok::<Invocation, Error>(inv)) == credits_plan(with_vat, api));
    Ok(inv)
}

fn unpaid_invoices(with_vat: bool, api: ApiArgs) -> (r: Result<Invocation, Error>)
    ensures
        planned(r) == unpaid_invoices_plan(with_vat, api),
{
    let params = vec![Value::Bool(with_vat)];
    assert(views(params@) =~= seq![Json::Bool(with_vat)]);
    let inv = invocation(api, Scope::Customer, "getUnpaidInvoices", params, Reply::Show);
    assert(planned(Ok::<Invocation, Error>(inv)) == unpaid_invoices_plan(with_vat, api));
    Ok(inv)
}

fn invoice(reference_no: String, with_vat: bool, api: ApiArgs) -> (r: Result<Invocation, Error>)
    ensures
        planned(r) == invoice_plan(reference_no@, with_vat, api),
{
    let ghost rn = reference_no@;
    let params = vec![Value::Str(reference_no), Value::Bool(with_vat)];
    assert(views(params@) =~= seq![Json::Str(rn), Json::Bool(with_vat)]);
    let inv = invocation(api, Scope::Customer, "getInvoice", params, Reply::Show);
    assert(planned(Ok::<Invocation, Error>(inv)) == invoice_plan(rn, with_vat, api));
    Ok(inv)
}

fn pay_invoice(reference_no: String, api: ApiArgs) -> (r: Result<Invocation, Error>)
    ensures
        planned(r) == pay_invoice_plan(reference_no@, api),
{
    let mut m = members();
    put(&mut m, "status", text("ok"));
    put(&mut m, "reference_no", Value::Str(reference_no.clone()));
    put(&mut m, "paid", Value::Bool(true));
    assert(member_views(m@) =~= seq![
        ("status"@, Json::Str("ok"@)),
        ("reference_no"@, Json::Str(reference_no@)),
        ("paid"@, Json::Bool(true)),
    ]);
    let output = object(m);
    let ghost rn = reference_no@;
    let params = vec![Value::Str(reference_no)];
    assert(views(params@) =~= seq![Json::Str(rn)]);
    let reply = Reply::Confirm { operation: String::from_str("payInvoiceUsingCredits"), output };
    let inv = invocation(api, Scope::Customer, "payInvoiceUsingCredits", params, reply);
    assert(planned(Ok::<Invocation, Error>(inv)) == pay_invoice_plan(rn, api));
    Ok(inv)
}

/// What a billing command asks of the API: the credit balance, the unpaid
/// invoices, one invoice, or paying one with credits.
pub fn run(cmd: BillingCommand) -> (r: Result<Invocation, Error>)
    ensures
        planned(r) == billing_plan(cmd),
{
    match cmd {
        BillingCommand::Credits { with_vat, api } => credits(with_vat, api),
        BillingCommand::UnpaidInvoices { with_vat, api } => unpaid_invoices(with_vat, api),
        BillingCommand::Invoice { reference_no, with_vat, api } => invoice(reference_no, with_vat, api),
        BillingCommand::PayInvoice { reference_no, api } => pay_invoice(reference_no, api),
    }
}

/// What an invoices command asks of the API: the unpaid invoices, one
/// invoice, or paying one with credits.
pub fn run_invoices(cmd: InvoicesCommand) -> (r: Result<Invocation, Error>)
    ensures
        planned(r) == invoices_plan(cmd),
{
    match cmd {
        InvoicesCommand::List { with_vat, api } => unpaid_invoices(with_vat, api),
        InvoicesCommand::Get { reference_no, with_vat, api } => invoice(reference_no, with_vat, api),
        InvoicesCommand::Pay { reference_no, api } => pay_invoice(reference_no, api),
    }
}

} // verus!
