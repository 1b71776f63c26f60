//! The command-line scenarios, replayed against the library: each command
//! becomes its API call, the call is answered as a Loopia server would
//! answer it, and the answer becomes what the command reports.

use loopia::account::{resolve, ApiOptions, Environment, Resolution};
use loopia::cli::{
    AccountsCommand, ApiArgs, BillingCommand, Command, DomainsCommand, InvoicesCommand, LoginArgs, RecordsCommand,
    ResellerCommand, SubdomainsCommand,
};
use loopia::client::{read_response, Client};
use loopia::commands::accounts::{
    add, confirm_removal, entered, forget, given, list, removed_output, stored_name, AccountsTask, Adding,
};
use loopia::commands::{conclude, run, Invocation, Report, Scope, Task};
use loopia::config::Config;
use loopia::error::{Error, ErrorCode};
use loopia::value::Value;

fn s(text: &str) -> Value {
    Value::Str(text.to_string())
}

fn field<'a>(v: &'a Value, key: &str) -> &'a Value {
    match v {
        Value::Object(ms) => &ms.iter().find(|(k, _)| k == key).expect("member").1,
        _ => panic!("not an object: {v:?}"),
    }
}

fn item(v: &Value, i: usize) -> &Value {
    match v {
        Value::Array(items) => &items[i],
        _ => panic!("not an array: {v:?}"),
    }
}

fn api(account: &str) -> ApiArgs {
    ApiArgs { account: Some(account.to_string()), username: None, password: None, customer_number: None, endpoint: None }
}

/// What the test server answers to each method.
fn server_answer(method: &str) -> String {
    let body = match method {
        "getDomains" => "<array><data><value><struct><member><name>domain</name><value><string>example.se</string></value></member></struct></value></data></array>",
        "getDomain" => "<struct><member><name>domain</name><value><string>example.se</string></value></member><member><name>paid</name><value><boolean>1</boolean></value></member></struct>",
        "getSubdomains" => "<array><data><value><string>www</string></value><value><string>mail</string></value></data></array>",
        "getZoneRecords" => "<array><data><value><struct><member><name>record_id</name><value><int>101</int></value></member><member><name>type</name><value><string>A</string></value></member><member><name>rdata</name><value><string>192.0.2.1</string></value></member><member><name>ttl</name><value><int>3600</int></value></member><member><name>priority</name><value><int>0</int></value></member></struct></value></data></array>",
        "getCreditsAmount" => "<double>1500.5</double>",
        "getUnpaidInvoices" => "<array><data><value><struct><member><name>reference_no</name><value><string>INV-101</string></value></member><member><name>amount</name><value><double>250.0</double></value></member></struct></value></data></array>",
        "getInvoice" => "<struct><member><name>reference_no</name><value><string>INV-101</string></value></member></struct>",
        "getCustomers" => "<array><data><value><struct><member><name>customer_id</name><value><string>CUST-100</string></value></member></struct></value></data></array>",
        "createNewAccount" => "<struct><member><name>status</name><value><string>OK</string></value></member><member><name>order_reference</name><value><string>ORD-12345</string></value></member></struct>",
        "getOrderStatus" => "<struct><member><name>status</name><value><string>COMPLETED</string></value></member></struct>",
        _ => "<string>OK</string>",
    };
    format!("<?xml version=\"1.0\"?><methodResponse><params><param><value>{body}</value></param></params></methodResponse>")
}

fn client() -> Client {
    Client::new("u@loopiaapi", "p123", None, None, Some("http://127.0.0.1/RPCSERV".to_string()))
}

/// Runs an API command through its call and the server's answer.
fn perform(command: Command) -> Result<Report, Error> {
    let inv: Invocation = match run(command) {
        Task::Api(r) => r?,
        Task::Accounts(AccountsTask::Test(inv)) => inv,
        _ => panic!("not an API command"),
    };
    let body = match inv.scope {
        Scope::Customer => client().call(&inv.method, &inv.params),
        Scope::Global => client().call_global(&inv.method, &inv.params),
    };
    assert!(body.contains(&format!("<methodName>{}</methodName>", inv.method)));
    let answer = read_response(200, server_answer(&inv.method).as_bytes())?;
    Ok(conclude(&inv.reply, answer))
}

fn output(command: Command) -> Value {
    let report = perform(command).unwrap();
    assert!(report.error.is_none(), "{:?}", report.error);
    report.output.unwrap()
}

fn refusal(command: Command) -> Error {
    perform(command).unwrap_err()
}

fn login_args(name: &str, username: &str, password: &str, force: bool) -> LoginArgs {
    LoginArgs {
        name: name.into(),
        username: Some(username.into()),
        password: Some(password.into()),
        password_stdin: false,
        customer_number: None,
        endpoint: None,
        default: false,
        force,
    }
}

/// Runs `accounts add` with everything given on the command line.
fn add_account(config: &mut Config, args: LoginArgs) -> Result<Value, Error> {
    let add_args = match run(Command::Accounts(AccountsCommand::Add {
        name: args.name,
        username: args.username,
        password: args.password,
        password_stdin: args.password_stdin,
        customer_number: args.customer_number,
        endpoint: args.endpoint,
        default: args.default,
        force: args.force,
    })) {
        Task::Accounts(AccountsTask::Add(a)) => a,
        _ => panic!("accounts add adds an account"),
    };
    match add(config, &add_args, None, None, "2024-01-01T00:00:00Z".into()) {
        Adding::Done { key, password, output } => {
            assert_eq!(key, format!("account:{}", add_args.name));
            assert_eq!(Some(password), add_args.password.map(|p| p.trim().to_string()));
            Ok(output)
        }
        Adding::Failed(e) => Err(e),
        _ => panic!("nothing is asked when everything is given"),
    }
}

fn with_account() -> Config {
    let mut config = Config::new();
    add_account(&mut config, login_args("work", "u@loopiaapi", "p123", false)).unwrap();
    config
}

#[test]
fn accounts_lifecycle() {
    let mut config = with_account();

    let out = list(&config);
    assert_eq!(field(item(&out, 0), "account"), &s("work"));
    assert_eq!(field(item(&out, 0), "username"), &s("u@loopiaapi"));
    assert_eq!(field(item(&out, 0), "isDefault"), &Value::Bool(true));

    // Duplicate add without force fails with code 6 (InvalidInput)
    let err = add_account(&mut config, login_args("work", "other", "p", false)).unwrap_err();
    assert_eq!(err.code.exit_code(), 6);
    assert!(err.message.contains("already exists"));

    // Overwrite with force succeeds
    let out = add_account(&mut config, login_args("work", "other", "p", true)).unwrap();
    assert_eq!(field(&out, "username"), &s("other"));

    // Test account
    let out = output(Command::Accounts(AccountsCommand::Test { name: "work".into() }));
    assert_eq!(field(&out, "valid"), &Value::Bool(true));
    assert_eq!(field(&out, "domainCount"), &Value::Int(1));

    // Remove account
    let stored = stored_name(&config, "work").unwrap();
    forget(&mut config, &stored);
    let out = removed_output(&stored);
    assert_eq!(field(&out, "deleted"), &Value::Bool(true));
    assert_eq!(list(&config), Value::Array(vec![]));
    assert_eq!(config.default_account, None);
}

#[test]
fn login_command() {
    let args = login_args("main", "admin@loopiaapi", "secret", false);
    let login = match run(Command::Login(args)) {
        Task::Accounts(AccountsTask::Add(a)) => a,
        _ => panic!("login adds an account"),
    };
    let mut config = Config::new();
    let out = match add(&mut config, &login, None, None, "t".into()) {
        Adding::Done { output, .. } => output,
        _ => panic!("login with everything given is done at once"),
    };
    assert_eq!(field(&out, "account"), &s("main"));
    assert_eq!(field(&out, "username"), &s("admin@loopiaapi"));
}

#[test]
fn adding_asks_for_what_is_missing() {
    let mut config = Config::new();
    let mut args = login_args("home", " ", "", false);
    assert!(matches!(add(&mut config, &args, None, None, "t".into()), Adding::AskUsername));
    match add(&mut config, &args, Some("  \n"), None, "t".into()) {
        Adding::Failed(e) => assert_eq!(e.message, "Username cannot be empty."),
        _ => panic!("a blank username is refused"),
    }
    assert!(matches!(add(&mut config, &args, Some("me\n"), None, "t".into()), Adding::PromptPassword));
    args.password_stdin = true;
    assert!(matches!(add(&mut config, &args, Some("me\n"), None, "t".into()), Adding::ReadPassword));
    match add(&mut config, &args, Some("me\n"), Some("\n"), "t".into()) {
        Adding::Failed(e) => assert_eq!(e.message, "Password from stdin cannot be empty."),
        _ => panic!("a blank password is refused"),
    }
    assert!(config.accounts.is_empty());
    match add(&mut config, &args, Some("me\n"), Some(" pw \n"), "t".into()) {
        Adding::Done { key, password, output } => {
            assert_eq!(key, "account:home");
            assert_eq!(password, "pw");
            assert_eq!(field(&output, "username"), &s("me"));
            assert_eq!(field(&output, "isDefault"), &Value::Bool(true));
        }
        _ => panic!("both answers are known"),
    }
    // A second account is not the default one unless asked for.
    let out = add_account(&mut config, login_args("work", "w", "p", false)).unwrap();
    assert_eq!(field(&out, "isDefault"), &Value::Bool(false));
    assert_eq!(config.default_account.as_deref(), Some("home"));
    let mut args = login_args("other", "o", "p", false);
    args.default = true;
    let out = add_account(&mut config, args).unwrap();
    assert_eq!(field(&out, "isDefault"), &Value::Bool(true));
}

#[test]
fn domains_commands() {
    let out = output(Command::Domains(DomainsCommand::List { api: api("work") }));
    assert_eq!(field(item(&out, 0), "domain"), &s("example.se"));

    let out = output(Command::Domains(DomainsCommand::Get { domain: "example.se".into(), api: api("work") }));
    assert_eq!(field(&out, "domain"), &s("example.se"));
    assert_eq!(field(&out, "paid"), &Value::Bool(true));

    let out = output(Command::Domains(DomainsCommand::Check { domain: "newdomain.se".into(), api: api("work") }));
    assert_eq!(field(&out, "available"), &Value::Bool(true));

    let err = refusal(Command::Domains(DomainsCommand::Order {
        domain: "newdomain.se".into(),
        accept_terms: false,
        api: api("work"),
    }));
    assert_eq!(err.code.exit_code(), 6);
    assert!(err.message.contains("accept-terms"));

    let out = output(Command::Domains(DomainsCommand::Order {
        domain: "newdomain.se".into(),
        accept_terms: true,
        api: api("work"),
    }));
    assert_eq!(field(&out, "status"), &s("ok"));

    let out = output(Command::Domains(DomainsCommand::Add { domain: "added.se".into(), api: api("work") }));
    assert_eq!(field(&out, "status"), &s("ok"));

    let out = output(Command::Domains(DomainsCommand::Transfer {
        domain: "trans.se".into(),
        auth_code: "123".into(),
        api: api("work"),
    }));
    assert_eq!(field(&out, "transferStarted"), &Value::Bool(true));

    let out = output(Command::Domains(DomainsCommand::Remove {
        domain: "del.se".into(),
        deactivate: false,
        api: api("work"),
    }));
    assert_eq!(field(&out, "removed"), &Value::Bool(true));

    let err = refusal(Command::Domains(DomainsCommand::Nameservers {
        domain: "ns.se".into(),
        nameservers: vec!["ns1.loopia.se".into()],
        api: api("work"),
    }));
    assert_eq!(err.code.exit_code(), 6);
    assert!(err.message.contains("At least two"));

    let out = output(Command::Domains(DomainsCommand::Nameservers {
        domain: "ns.se".into(),
        nameservers: vec!["ns1.loopia.se".into(), "ns2.loopia.se".into()],
        api: api("work"),
    }));
    assert_eq!(field(&out, "status"), &s("ok"));
}

#[test]
fn subdomains_commands() {
    let out = output(Command::Subdomains(SubdomainsCommand::List { domain: "example.se".into(), api: api("work") }));
    assert_eq!(out, Value::Array(vec![s("www"), s("mail")]));

    let out = output(Command::Subdomains(SubdomainsCommand::Add {
        domain: "example.se".into(),
        subdomain: "blog".into(),
        api: api("work"),
    }));
    assert_eq!(field(&out, "status"), &s("ok"));

    let out = output(Command::Subdomains(SubdomainsCommand::Remove {
        domain: "example.se".into(),
        subdomain: "blog".into(),
        api: api("work"),
    }));
    assert_eq!(field(&out, "status"), &s("ok"));
}

#[test]
fn records_commands() {
    let out = output(Command::Records(RecordsCommand::List {
        domain: "example.se".into(),
        subdomain: "@".into(),
        api: api("work"),
    }));
    assert_eq!(field(item(&out, 0), "record_id"), &Value::Int(101));
    assert_eq!(field(item(&out, 0), "type"), &s("A"));

    let out = output(Command::Records(RecordsCommand::Add {
        domain: "example.se".into(),
        subdomain: "@".into(),
        record_type: "A".into(),
        rdata: "192.0.2.1".into(),
        ttl: 3600,
        priority: 0,
        api: api("work"),
    }));
    assert_eq!(field(&out, "status"), &s("ok"));

    let out = output(Command::Records(RecordsCommand::Update {
        domain: "example.se".into(),
        subdomain: "@".into(),
        record_id: 101,
        record_type: "A".into(),
        rdata: "192.0.2.2".into(),
        ttl: 3600,
        priority: 0,
        api: api("work"),
    }));
    assert_eq!(field(&out, "status"), &s("ok"));

    let out = output(Command::Records(RecordsCommand::Remove {
        domain: "example.se".into(),
        subdomain: "@".into(),
        record_id: 101,
        api: api("work"),
    }));
    assert_eq!(field(&out, "status"), &s("ok"));
}

#[test]
fn billing_and_invoices_commands() {
    let out = output(Command::Billing(BillingCommand::Credits { with_vat: false, api: api("work") }));
    assert_eq!(out, Value::Double("1500.5".to_string()));

    let out = output(Command::Billing(BillingCommand::UnpaidInvoices { with_vat: false, api: api("work") }));
    assert_eq!(field(item(&out, 0), "reference_no"), &s("INV-101"));

    let out = output(Command::Billing(BillingCommand::Invoice {
        reference_no: "INV-101".into(),
        with_vat: false,
        api: api("work"),
    }));
    assert_eq!(field(&out, "reference_no"), &s("INV-101"));

    let out = output(Command::Billing(BillingCommand::PayInvoice { reference_no: "INV-101".into(), api: api("work") }));
    assert_eq!(field(&out, "paid"), &Value::Bool(true));

    let out = output(Command::Invoices(InvoicesCommand::List { with_vat: false, api: api("work") }));
    assert_eq!(field(item(&out, 0), "reference_no"), &s("INV-101"));
}

#[test]
fn reseller_commands() {
    let out = output(Command::Reseller(ResellerCommand::Customers { api: api("work") }));
    assert_eq!(field(item(&out, 0), "customer_id"), &s("CUST-100"));

    let out = output(Command::Reseller(ResellerCommand::CreateAccount {
        domain: "newclient.se".into(),
        account_type: "STARTER".into(),
        domain_configuration: "NO_CONFIG".into(),
        buy_domain: false,
        billing_contact_reseller: false,
        tech_contact_reseller: false,
        accept_terms: true,
        firstname: "Alice".into(),
        lastname: "Smith".into(),
        company: "".into(),
        street: "Main St 1".into(),
        street2: "".into(),
        zip: "12345".into(),
        city: "Stockholm".into(),
        country: "SE".into(),
        orgno: "".into(),
        norid_pid: "".into(),
        phone: "".into(),
        cell: "".into(),
        fax: "".into(),
        email: "alice@example.se".into(),
        api: api("work"),
    }));
    assert_eq!(field(&out, "status"), &s("OK"));
    assert_eq!(field(&out, "order_reference"), &s("ORD-12345"));

    let out = output(Command::Reseller(ResellerCommand::OrderStatus {
        order_reference: "ORD-12345".into(),
        api: api("work"),
    }));
    assert_eq!(field(&out, "status"), &s("COMPLETED"));

    let out = output(Command::Reseller(ResellerCommand::TransferCredits {
        from: "1001".into(),
        to: "1002".into(),
        amount: Value::Double("500".into()),
        currency: "SEK".into(),
        api: api("work"),
    }));
    assert_eq!(field(&out, "transferred"), &Value::Bool(true));
    assert_eq!(field(&out, "amount"), &Value::Double("500".into()));
}

fn no_env() -> Environment {
    Environment { account: None, api_username: None, api_password: None, customer_number: None, api_endpoint: None }
}

fn options(account: Option<&str>) -> ApiOptions<'_> {
    ApiOptions { account, username: None, password: None, customer_number: None, endpoint: None }
}

#[test]
fn error_exit_codes() {
    let config = Config::new();

    // No account specified -> code 7
    let opts = options(None);
    assert!(matches!(resolve(&opts, &no_env(), None, None), Resolution::NeedConfig));
    match resolve(&opts, &no_env(), Some(&config), None) {
        Resolution::Failed(e) => {
            assert_eq!(e.code.exit_code(), 7);
            assert_eq!(e.code.name(), "no_account");
        }
        _ => panic!("no account can be used"),
    }

    // Invalid account specified -> code 7
    let opts = options(Some("nonexistent"));
    match resolve(&opts, &no_env(), Some(&config), None) {
        Resolution::Failed(e) => {
            assert_eq!(e.code.exit_code(), 7);
            assert_eq!(e.code.name(), "no_account");
            assert_eq!(e.message, "No account named 'nonexistent'.");
        }
        _ => panic!("the account does not exist"),
    }
}

#[test]
fn typed_answers_and_removal_confirmation() {
    assert_eq!(given(Some("  user ")), Some("user".to_string()));
    assert_eq!(given(Some("   ")), None);
    assert_eq!(given(None), None);
    assert_eq!(entered(" x \n", "Username cannot be empty.").unwrap(), "x");
    let err = entered(" \n", "Username cannot be empty.").unwrap_err();
    assert_eq!(err.code, ErrorCode::InvalidInput);
    assert_eq!(err.message, "Username cannot be empty.");
    assert!(confirm_removal("Y\n").is_ok());
    assert!(confirm_removal(" yes ").is_ok());
    let err = confirm_removal("n").unwrap_err();
    assert_eq!(err.message, "Cancelled by user.");
    let config = with_account();
    let err = stored_name(&config, "missing").unwrap_err();
    assert_eq!(err.code, ErrorCode::NotFound);
    assert_eq!(err.message, "No account named 'missing'.");
}

#[test]
fn availability_of_a_taken_domain() {
    let report = conclude(&loopia::commands::Reply::Availability { domain: "taken.se".into() }, s("DOMAIN_OCCUPIED"));
    let out = report.output.unwrap();
    assert_eq!(field(&out, "available"), &Value::Bool(false));
    assert_eq!(field(&out, "status"), &s("DOMAIN_OCCUPIED"));
    let err = report.error.unwrap();
    assert_eq!(err.code, ErrorCode::InvalidInput);
    assert_eq!(err.message, "taken.se is not available (DOMAIN_OCCUPIED).");
    assert_eq!(err.detail.as_deref(), Some("DOMAIN_OCCUPIED"));
}

#[test]
fn confirmed_operation_fails_on_other_status() {
    let report = conclude(
        &loopia::commands::Reply::Confirm { operation: "addDomain".into(), output: s("ok") },
        s("AUTH_ERROR"),
    );
    assert!(report.output.is_none());
    assert_eq!(report.error.unwrap().code, ErrorCode::AuthRequired);
}
