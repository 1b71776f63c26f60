//! The commands and options of the command line, as plain values.

use vstd::prelude::*;
use crate::value::Value;

verus! {

/// Credentials and endpoint options shared by every API command.
pub struct ApiArgs {
    pub account: Option<String>,
    pub username: Option<String>,
    pub password: Option<String>,
    pub customer_number: Option<String>,
    pub endpoint: Option<String>,
}

/// The whole command line.
pub struct Cli {
    pub json: bool,
    pub command: Command,
}

pub enum Command {
    AgentReadme,
    Login(LoginArgs),
    Accounts(AccountsCommand),
    Domains(DomainsCommand),
    Subdomains(SubdomainsCommand),
    Records(RecordsCommand),
    Billing(BillingCommand),
    Invoices(InvoicesCommand),
    Reseller(ResellerCommand),
}

pub struct LoginArgs {
    pub name: String,
    pub username: Option<String>,
    pub password: Option<String>,
    pub password_stdin: bool,
    pub customer_number: Option<String>,
    pub endpoint: Option<String>,
    pub default: bool,
    pub force: bool,
}

pub enum AccountsCommand {
    List { paths: bool },
    Add {
        name: String,
        username: Option<String>,
        password: Option<String>,
        password_stdin: bool,
        customer_number: Option<String>,
        endpoint: Option<String>,
        default: bool,
        force: bool,
    },
    Remove { name: String, yes: bool },
    Test { name: String },
}

pub enum DomainsCommand {
    List { api: ApiArgs },
    Get { domain: String, api: ApiArgs },
    Check { domain: String, api: ApiArgs },
    Order { domain: String, accept_terms: bool, api: ApiArgs },
    Add { domain: String, api: ApiArgs },
    Transfer { domain: String, auth_code: String, api: ApiArgs },
    Remove { domain: String, deactivate: bool, api: ApiArgs },
    Nameservers { domain: String, nameservers: Vec<String>, api: ApiArgs },
}

pub enum SubdomainsCommand {
    List { domain: String, api: ApiArgs },
    Add { domain: String, subdomain: String, api: ApiArgs },
    Remove { domain: String, subdomain: String, api: ApiArgs },
}

pub enum RecordsCommand {
    List { domain: String, subdomain: String, api: ApiArgs },
    Add {
        domain: String,
        subdomain: String,
        record_type: String,
        rdata: String,
        ttl: u32,
        priority: u32,
        api: ApiArgs,
    },
    Update {
        domain: String,
        subdomain: String,
        record_id: u32,
        record_type: String,
        rdata: String,
        ttl: u32,
        priority: u32,
        api: ApiArgs,
    },
    Remove { domain: String, subdomain: String, record_id: u32, api: ApiArgs },
}

pub enum BillingCommand {
    Credits { with_vat: bool, api: ApiArgs },
    UnpaidInvoices { with_vat: bool, api: ApiArgs },
    Invoice { reference_no: String, with_vat: bool, api: ApiArgs },
    PayInvoice { reference_no: String, api: ApiArgs },
}

pub enum InvoicesCommand {
    List { with_vat: bool, api: ApiArgs },
    Get { reference_no: String, with_vat: bool, api: ApiArgs },
    Pay { reference_no: String, api: ApiArgs },
}

/// Reseller operations. The amount of a credit transfer is the number as
/// it is sent: a `Double` holding its decimal text when it is finite, else
/// a string.
pub enum ResellerCommand {
    Customers { api: ApiArgs },
    CreateAccount {
        domain: String,
        account_type: String,
        domain_configuration: String,
        buy_domain: bool,
        billing_contact_reseller: bool,
        tech_contact_reseller: bool,
        accept_terms: bool,
        firstname: String,
        lastname: String,
        company: String,
        street: String,
        street2: String,
        zip: String,
        city: String,
        country: String,
        orgno: String,
        norid_pid: String,
        phone: String,
        cell: String,
        fax: String,
        email: String,
        api: ApiArgs,
    },
    OrderStatus { order_reference: String, api: ApiArgs },
    TransferCredits { from: String, to: String, amount: Value, currency: String, api: ApiArgs },
}

} // verus!
