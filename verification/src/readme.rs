//! The manual an agent reads before its first call: as text, or its rules
//! and exit codes as data.

use vstd::prelude::*;
use crate::commands::{members, object, put, text};
use crate::error::{ErrorCode, spec_code_name, spec_exit_code};
use crate::text::{decimal, i64_to_string};
use crate::value::{Json, Value, lemma_array_view, views};

verus! {

/// The version of the rules below.
pub const API_VERSION: &'static str = "1.0.0";

/// The manual, as printed.
pub const MANUAL: &'static str = r#"# loopia - agent operating manual

A native CLI for the Loopia XML-RPC API: domains, subdomains, DNS zone records, billing,
invoices, and reseller operations. Results are YAML on stdout, errors are YAML on stderr,
and `--json` switches both to JSON.

## Accounts & Authentication

Credentials (username and password) can be stored securely in the native OS keystore
(macOS Keychain, Windows DPAPI, or Linux Secret Service / libsecret).

    loopia accounts list                       # list configured accounts
    loopia accounts add <name> --username <user> [--password <pass>] [--default]
    loopia login [<name>]                      # interactive login prompt
    loopia accounts test <name>                # verify credentials against Loopia API
    loopia accounts remove <name>              # remove account from keystore

You can also pass `--account <name>` (short `-a <name>`) or set `LOOPIA_ACCOUNT`. For CI/CD
or headless environments, `LOOPIA_API_USERNAME` and `LOOPIA_API_PASSWORD` are also supported.

## Domains

Manage domain names in the account:

    loopia domains list -a <account>
    loopia domains get --domain <domain> -a <account>
    loopia domains check --domain <domain> -a <account>
    loopia domains order --domain <domain> --accept-terms -a <account>
    loopia domains add --domain <domain> -a <account>
    loopia domains transfer --domain <domain> --auth-code <code> -a <account>
    loopia domains remove --domain <domain> [--deactivate] -a <account>
    loopia domains nameservers --domain <domain> --nameserver ns1.loopia.se --nameserver ns2.loopia.se -a <account>

## Subdomains

Manage subdomains attached to a domain:

    loopia subdomains list --domain <domain> -a <account>
    loopia subdomains add --domain <domain> --subdomain <subdomain> -a <account>
    loopia subdomains remove --domain <domain> --subdomain <subdomain> -a <account>

## DNS Zone Records

Manage DNS records (A, AAAA, CNAME, MX, TXT, NS, SRV, CAA):

    loopia records list --domain <domain> [--subdomain @] -a <account>
    loopia records add --domain <domain> [--subdomain @] --type A --rdata 192.0.2.1 [--ttl 3600] [--priority 0] -a <account>
    loopia records update --domain <domain> [--subdomain @] --record-id <id> --type A --rdata 192.0.2.2 -a <account>
    loopia records remove --domain <domain> [--subdomain @] --record-id <id> -a <account>

Subdomain defaults to `@` (the apex zone root).

## Billing & Invoices

Inspect PrePAID credits and unpaid invoices:

    loopia billing credits [--with-vat] -a <account>
    loopia billing unpaid-invoices [--with-vat] -a <account>
    loopia billing invoice --reference-no <ref> [--with-vat] -a <account>
    loopia billing pay-invoice --reference-no <ref> -a <account>

## Reseller Operations

Operations available for reseller accounts:

    loopia reseller customers -a <account>
    loopia reseller create-account --domain <domain> --account-type <type> --firstname <f> --lastname <l> ... -a <account>
    loopia reseller order-status --order-reference <ref> -a <account>
    loopia reseller transfer-credits --from <cust1> --to <cust2> --amount <amt> [--currency SEK] -a <account>

## Error Envelope

Failures print YAML (or JSON with `--json`) on stderr and exit with standard codes:

    0  ok
    1  error          unclassified error
    2  network        connection or transport failure - retry once
    3  auth_required  invalid username/password or token rejected
    4  not_found      resource not found
    5  rate_limited   rate limit hit - back off
    6  invalid_input  invalid command line argument or API rejection (BAD_INDATA)
    7  no_account     no account specified - run loopia accounts list
"#;

/// The rules an agent follows, in order.
pub open spec fn rules() -> Seq<Json> {
    seq![
        Json::Str("Pass --account <name> on commands or configure a default account with 'loopia account create <name> --default'."@),
        Json::Str("Run 'loopia accounts list' first if you do not know which accounts exist."@),
        Json::Str("On code auth_required, stop and surface the remediation string. Do not retry."@),
        Json::Str("Zone records are addressed by --domain and --subdomain (@ is the root apex domain)."@),
        Json::Str("Updating nameservers requires at least two --nameserver arguments."@),
        Json::Str("Deletes are irreversible and take no confirmation. Verify details before removing."@),
        Json::Str("Use --json when parsing command output with jq or in agent tool loops."@),
    ]
}

/// What an agent does on each class of failure.
pub open spec fn advice(code: ErrorCode) -> Seq<char> {
    match code {
        ErrorCode::Error => "unclassified, report and stop"@,
        ErrorCode::Network => "retry once, then stop"@,
        ErrorCode::AuthRequired => "stop, surface the remediation to a human"@,
        ErrorCode::NotFound => "do not retry"@,
        ErrorCode::RateLimited => "back off before retrying"@,
        ErrorCode::InvalidInput => "fix the call"@,
        ErrorCode::NoAccount => "run loopia accounts list"@,
    }
}

/// The line of the exit-code table for a class of failure: its exit code,
/// and its symbol followed by the advice.
pub open spec fn code_entry(code: ErrorCode) -> (Seq<char>, Json) {
    (decimal(spec_exit_code(code) as int), Json::Str(spec_code_name(code) + " - "@ + advice(code)))
}

/// The exit-code table: success, then each class of failure in the order of its code.
pub open spec fn exit_code_table() -> Seq<(Seq<char>, Json)> {
    seq![
        ("0"@, Json::Str("ok"@)),
        code_entry(ErrorCode::Error),
        code_entry(ErrorCode::Network),
        code_entry(ErrorCode::AuthRequired),
        code_entry(ErrorCode::NotFound),
        code_entry(ErrorCode::RateLimited),
        code_entry(ErrorCode::InvalidInput),
        code_entry(ErrorCode::NoAccount),
    ]
}

/// The manual as data.
pub open spec fn manual_data() -> Json {
    Json::Object(
        seq![
            ("tool"@, Json::Str("loopia"@)),
            ("apiVersion"@, Json::Str(API_VERSION@)),
            ("rules"@, Json::Array(rules())),
            ("exitCodes"@, Json::Object(exit_code_table())),
        ],
    )
}

/// The exit-code table of the manual names every class of failure at the
/// position of its exit code, under that code, with the symbol that the
/// error envelope reports.
pub proof fn manual_lists_every_exit_code(code: ErrorCode)
    ensures
        exit_code_table()[spec_exit_code(code) as int] == code_entry(code),
        code_entry(code).0 == decimal(spec_exit_code(code) as int),
        code_entry(code).1 == Json::Str(spec_code_name(code) + " - "@ + advice(code)),
{
}

fn code_line(m: &mut Vec<(String, Value)>, code: ErrorCode, advice_text: &str)
    requires
        advice_text@ == advice(code),
    ensures
        crate::value::member_views(final(m)@) == crate::value::member_views(old(m)@).push(code_entry(code)),
{
    let key = i64_to_string(code.exit_code() as i64);
    let mut line = String::from_str(code.name());
    line.append(" - ");
    line.append(advice_text);
    let ghost kv = code_entry(code);
    let ghost before = crate::value::member_views(m@);
    m.push((key, Value::Str(line)));
    proof {
        assert(crate::value::member_views(m@) =~= before.push(kv));
    }
}

/// The manual as data: the tool, the version of its rules, the rules, and
/// what each exit code means.
pub fn agent_readme() -> (v: Value)
    ensures
        v@ == manual_data(),
{
    let mut rules: Vec<Value> = Vec::new();
    rules.push(text("Pass --account <name> on commands or configure a default account with 'loopia account create <name> --default'."));
    rules.push(text("Run 'loopia accounts list' first if you do not know which accounts exist."));
    rules.push(text("On code auth_required, stop and surface the remediation string. Do not retry."));
    rules.push(text("Zone records are addressed by --domain and --subdomain (@ is the root apex domain)."));
    rules.push(text("Updating nameservers requires at least two --nameserver arguments."));
    rules.push(text("Deletes are irreversible and take no confirmation. Verify details before removing."));
    rules.push(text("Use --json when parsing command output with jq or in agent tool loops."));
    assert(views(rules@) =~= self::rules());
    proof {
        lemma_array_view(rules);
    }
    let mut codes = members();
    put(&mut codes, "0", text("ok"));
    code_line(&mut codes, ErrorCode::Error, "unclassified, report and stop");
    code_line(&mut codes, ErrorCode::Network, "retry once, then stop");
    code_line(&mut codes, ErrorCode::AuthRequired, "stop, surface the remediation to a human");
    code_line(&mut codes, ErrorCode::NotFound, "do not retry");
    code_line(&mut codes, ErrorCode::RateLimited, "back off before retrying");
    code_line(&mut codes, ErrorCode::InvalidInput, "fix the call");
    code_line(&mut codes, ErrorCode::NoAccount, "run loopia accounts list");
    assert(crate::value::member_views(codes@) =~= exit_code_table());
    let mut m = members();
    put(&mut m, "tool", text("loopia"));
    put(&mut m, "apiVersion", text(API_VERSION));
    put(&mut m, "rules", Value::Array(rules));
    put(&mut m, "exitCodes", object(codes));
    assert(crate::value::member_views(m@) =~= manual_data()->Object_0);
    object(m)
}

} // verus!
