//! Account management commands: the stored accounts, and what is made of
//! the answers typed in.

use vstd::prelude::*;
use crate::cli::{AccountsCommand, ApiArgs, LoginArgs};
use crate::client::DEFAULT_ENDPOINT;
use crate::config::{AccountConfig, Config, entry};
use crate::account::{account_key, account_key_spec, ostr};
use crate::error::{Error, ErrorCode, Failure, failure, opt_view};
use crate::text::{trimmed, is_blank, eq_ignore_case, trim, blank, eq_ignore_ascii_case};
use crate::value::{Value, Json, views, member_views, lemma_array_view};
use super::{Invocation, Reply, ReplyModel, Scope, put, members, object, text, invocation};

verus! {

broadcast use vstd::string::group_string_axioms;

/// The work of an accounts command.
pub enum AccountsTask {
    /// List the stored accounts, or where they are stored.
    List { paths: bool },
    /// Store the credentials of an account.
    Add(LoginArgs),
    /// Delete a stored account, asking first unless `yes`.
    Remove { name: String, yes: bool },
    /// Check a stored account's credentials with one call.
    Test(Invocation),
}

/// The accounts task that a command comes to: listing, adding and removing
/// work on the stored accounts; testing calls `getDomains` with the named
/// account.
pub open spec fn accounts_task(cmd: AccountsCommand, t: AccountsTask) -> bool {
        match cmd {
            AccountsCommand::List { paths } => t == (AccountsTask::List { paths }),
            AccountsCommand::Add {
                name,
                username,
                password,
                password_stdin,
                customer_number,
                endpoint,
                default,
                force,
            } => t == AccountsTask::Add(
                LoginArgs {
                    name,
                    username,
                    password,
                    password_stdin,
                    customer_number,
                    endpoint,
                    default,
                    force,
                },
            ),
            AccountsCommand::Remove { name, yes } => t == (AccountsTask::Remove { name, yes }),
            AccountsCommand::Test { name } => t matches AccountsTask::Test(inv) && inv.api.account
                == Some(name) && inv.api.username is None && inv.api.password is None
                && inv.api.customer_number is None && inv.api.endpoint is None && inv.plan() == (
            super::Plan {
                scope: Scope::Customer,
                method: "getDomains"@,
                params: Seq::empty(),
                reply: ReplyModel::AccountTest(name@),
            }),
        }
}

/// The accounts task of a command: listing, adding and removing work on the
/// stored accounts; testing calls `getDomains` with the named account.
pub fn run(cmd: AccountsCommand) -> (t: AccountsTask)
    ensures
        accounts_task(cmd, t),
{
    match cmd {
        AccountsCommand::List { paths } => AccountsTask::List { paths },
        AccountsCommand::Add {
            name,
            username,
            password,
            password_stdin,
            customer_number,
            endpoint,
            default,
            force,
        } => AccountsTask::Add(
            LoginArgs { name, username, password, password_stdin, customer_number, endpoint, default, force },
        ),
        AccountsCommand::Remove { name, yes } => AccountsTask::Remove { name, yes },
        AccountsCommand::Test { name } => {
            let api = ApiArgs {
                account: Some(name.clone()),
                username: None,
                password: None,
                customer_number: None,
                endpoint: None,
            };
            let params: Vec<Value> = Vec::new();
            assert(views(params@) =~= Seq::<Json>::empty());
            AccountsTask::Test(
                invocation(api, Scope::Customer, "getDomains", params, Reply::AccountTest { name }),
            )
        },
    }
}

pub open spec fn or_text(o: Option<String>, fallback: Seq<char>) -> Seq<char> {
    match o {
        Some(s) => s@,
        None => fallback,
    }
}

/// How a stored account is listed.
pub open spec fn account_entry(name: Seq<char>, acct: AccountConfig, default: Option<Seq<char>>) -> Json {
    Json::Object(
        seq![
            ("account"@, Json::Str(name)),
            ("username"@, Json::Str(acct.username@)),
            ("customerNumber"@, Json::Str(or_text(acct.customer_number, ""@))),
            ("endpoint"@, Json::Str(or_text(acct.endpoint, DEFAULT_ENDPOINT@))),
            ("isDefault"@, Json::Bool(default == Some(name))),
            ("addedAt"@, Json::Str(acct.added_at@)),
        ],
    )
}

/// The stored accounts as they are listed, in name order.
pub open spec fn account_listing(config: Config) -> Seq<Json> {
    config.accounts@.map_values(
        |e: (String, AccountConfig)| account_entry(e.0@, e.1, config.effective_default_spec()),
    )
}

fn text_or(o: &Option<String>, fallback: &str) -> (v: Value)
    ensures
        v@ == Json::Str(or_text(*o, fallback@)),
{
    match o {
        Some(s) => Value::Str(s.clone()),
        None => text(fallback),
    }
}

fn is_named(o: &Option<String>, name: &String) -> (b: bool)
    ensures
        b == (opt_view(*o) == Some(name@)),
{
    match o {
        Some(s) => *s == *name,
        None => false,
    }
}

/// The stored accounts, in name order, each with its username, customer
/// number (empty when none), endpoint (the Loopia default when none),
/// whether it is the one used when none is named, and when it was added.
pub fn list(config: &Config) -> (v: Value)
    requires
        config.well_formed(),
    ensures
        v@ == Json::Array(account_listing(*config)),
{
    let default = config.effective_default();
    let mut items: Vec<Value> = Vec::new();
    let mut i: usize = 0;
    while i < config.accounts.len()
        invariant
            i <= config.accounts.len(),
            opt_view(default) == config.effective_default_spec(),
            views(items@) =~= account_listing(*config).take(i as int),
        decreases config.accounts.len() - i,
    {
        let ghost before = views(items@);
        let name = &config.accounts[i].0;
        let acct = &config.accounts[i].1;
        let mut m = members();
        put(&mut m, "account", Value::Str(name.clone()));
        put(&mut m, "username", Value::Str(acct.username.clone()));
        put(&mut m, "customerNumber", text_or(&acct.customer_number, ""));
        put(&mut m, "endpoint", text_or(&acct.endpoint, DEFAULT_ENDPOINT));
        put(&mut m, "isDefault", Value::Bool(is_named(&default, name)));
        put(&mut m, "addedAt", Value::Str(acct.added_at.clone()));
        assert(member_views(m@) =~= account_entry(name@, *acct, config.effective_default_spec())->Object_0);
        let entry = object(m);
        items.push(entry);
        proof {
            assert(views(items@) =~= before.push(account_listing(*config)[i as int]));
            assert(account_listing(*config).take(i + 1) =~= account_listing(*config).take(i as int).push(
                account_listing(*config)[i as int],
            ));
        }
        i = i + 1;
    }
    assert(account_listing(*config).take(config.accounts.len() as int) =~= account_listing(*config));
    proof {
        lemma_array_view(items);
    }
    Value::Array(items)
}

/// Adding an account under a name that is taken fails unless forced.
pub fn check_new(config: &Config, name: &str, force: bool) -> (r: Result<(), Error>)
    requires
        config.well_formed(),
    ensures
        r is Err <==> (config.account(name@) is Some && !force),
        r matches Err(e) ==> e@ == failure(
            ErrorCode::InvalidInput,
            "Account '"@ + name@ + "' already exists. Pass --force to overwrite."@,
        ),
{
    if config.find(name).is_some() && !force {
        let mut m = String::from_str("Account '");
        m.append(name);
        m.append("' already exists. Pass --force to overwrite.");
        return Err(Error::invalid(m));
    }
    Ok(())
}

/// A username or password given on the command line, trimmed; a blank one
/// counts as none, and is asked for instead.
pub fn given(o: Option<&str>) -> (r: Option<String>)
    ensures
        match o {
            Some(s) => if is_blank(s@) {
                r is None
            } else {
                r matches Some(t) && t@ == trimmed(s@)
            },
            None => r is None,
        },
{
    match o {
        Some(s) => if blank(s) {
            None
        } else {
            Some(String::from_str(trim(s)))
        },
        None => None,
    }
}

/// An answer typed in, trimmed; an empty one fails with `empty_message`.
pub fn entered(line: &str, empty_message: &str) -> (r: Result<String, Error>)
    ensures
        is_blank(line@) ==> (r matches Err(e) && e@ == failure(ErrorCode::InvalidInput, empty_message@)),
        !is_blank(line@) ==> (r matches Ok(t) && t@ == trimmed(line@)),
{
    let t = trim(line);
    if t.is_empty() {
        return Err(Error::invalid(String::from_str(empty_message)));
    }
    Ok(String::from_str(t))
}

/// Stores an account; it becomes the default one when asked to, or when it
/// is the only one stored (see [`recorded`]).
pub fn record_account(
    config: &mut Config,
    name: String,
    username: String,
    customer_number: Option<String>,
    endpoint: Option<String>,
    added_at: String,
    is_default: bool,
)
    requires
        old(config).well_formed(),
    ensures
        final(config).well_formed(),
        final(config).account(name@) == Some(
            AccountConfig { username, customer_number, endpoint, added_at },
        ),
        recorded(
            *old(config),
            *final(config),
            name@,
            username@,
            customer_number,
            endpoint,
            added_at@,
            is_default,
        ),
{
    let key = name.clone();
    let ghost n = name@;
    let ghost acct = AccountConfig { username, customer_number, endpoint, added_at };
    config.put(name, AccountConfig { username, customer_number, endpoint, added_at });
    let ghost mid = config.accounts@;
    assert(config.account(n) == Some(acct));
    assert forall|k: Seq<char>| k != n implies entry(mid, k) == old(config).account(k) by {
        assert(config.account(k) == old(config).account(k));
    }
    if is_default || config.accounts.len() == 1 {
        config.default_account = Some(key);
    }
    assert(config.accounts@ == mid);
    assert forall|k: Seq<char>| k != n implies #[trigger] config.account(k) == old(config).account(k) by {
        assert(entry(mid, k) == old(config).account(k));
    }
}

/// What adding an account needs next, or has come to.
pub enum Adding {
    /// The username must be asked for on the terminal.
    AskUsername,
    /// The password must be read as a line from standard input.
    ReadPassword,
    /// The password must be asked for on the terminal, without echo.
    PromptPassword,
    /// The account is recorded: store `password` in the keystore under
    /// `key`, save the accounts, and print `output`.
    Done { key: String, password: String, output: Value },
    /// The account cannot be added.
    Failed(Error),
}

/// The model of an [`Adding`].
pub enum AddingModel {
    AskUsername,
    ReadPassword,
    PromptPassword,
    Done { key: Seq<char>, password: Seq<char>, output: Json },
    Failed(Failure),
}

impl View for Adding {
    type V = AddingModel;

    open spec fn view(&self) -> AddingModel {
        match self {
            Adding::AskUsername => AddingModel::AskUsername,
            Adding::ReadPassword => AddingModel::ReadPassword,
            Adding::PromptPassword => AddingModel::PromptPassword,
            Adding::Done { key, password, output } => AddingModel::Done {
                key: key@,
                password: password@,
                output: output@,
            },
            Adding::Failed(e) => AddingModel::Failed(e@),
        }
    }
}

/// A username or password given on the command line, trimmed; a blank one counts as none.
pub open spec fn given_text(o: Option<String>) -> Option<Seq<char>> {
    match o {
        Some(s) => if is_blank(s@) {
            None
        } else {
            Some(trimmed(s@))
        },
        None => None,
    }
}

/// An answer typed in: trimmed, or a failure when it is blank.
pub open spec fn typed(line: Seq<char>, empty_message: Seq<char>) -> Result<Seq<char>, Failure> {
    if is_blank(line) {
        Err(failure(ErrorCode::InvalidInput, empty_message))
    } else {
        Ok(trimmed(line))
    }
}

/// The username of a new account: the one given, else the one typed in;
/// none while it is still to be asked for.
pub open spec fn new_username(args: LoginArgs, line: Option<Seq<char>>) -> Option<Result<Seq<char>, Failure>> {
    match given_text(args.username) {
        Some(u) => Some(Ok(u)),
        None => match line {
            Some(l) => Some(typed(l, "Username cannot be empty."@)),
            None => None,
        },
    }
}

/// What a blank password is answered, by where it was read from.
pub open spec fn empty_password_message(from_stdin: bool) -> Seq<char> {
    if from_stdin {
        "Password from stdin cannot be empty."@
    } else {
        "Password cannot be empty."@
    }
}

/// The password of a new account: the one given, else the one read;
/// none while it is still to be read.
pub open spec fn new_password(args: LoginArgs, line: Option<Seq<char>>) -> Option<Result<Seq<char>, Failure>> {
    match given_text(args.password) {
        Some(p) => Some(Ok(p)),
        None => match line {
            Some(l) => Some(typed(l, empty_password_message(args.password_stdin))),
            None => None,
        },
    }
}

/// Adding is refused when an account of the name is stored and overwriting was not asked for.
pub open spec fn taken(config: Config, args: LoginArgs) -> bool {
    config.account(args.name@) is Some && !args.force
}

/// What adding an account reports.
pub open spec fn added_json(name: Seq<char>, username: Seq<char>, is_default: bool) -> Json {
    Json::Object(
        seq![
            ("status"@, Json::Str("ok"@)),
            ("account"@, Json::Str(name)),
            ("username"@, Json::Str(username)),
            ("isDefault"@, Json::Bool(is_default)),
        ],
    )
}

/// How many accounts are stored once one is stored under `name`.
pub open spec fn count_after_put(config: Config, name: Seq<char>) -> int {
    if config.account(name) is Some {
        config.accounts@.len() as int
    } else {
        config.accounts@.len() + 1 as int
    }
}

/// Whether an account stored under `name` is then the default one: when
/// asked to, when it is the only one stored, or when it already was.
pub open spec fn becomes_default(config: Config, name: Seq<char>, is_default: bool) -> bool {
    is_default || count_after_put(config, name) == 1 || opt_view(config.default_account) == Some(name)
}

/// `after` is `before` with the account recorded under `name`: the other
/// accounts stay, and the account is the default one when
/// [`becomes_default`] says so; else the default stays.
pub open spec fn recorded(
    before: Config,
    after: Config,
    name: Seq<char>,
    username: Seq<char>,
    customer_number: Option<String>,
    endpoint: Option<String>,
    added_at: Seq<char>,
    is_default: bool,
) -> bool {
    &&& after.well_formed()
    &&& after.account(name) matches Some(a) && a.username@ == username && a.customer_number
        == customer_number && a.endpoint == endpoint && a.added_at@ == added_at
    &&& forall|k: Seq<char>| k != name ==> #[trigger] after.account(k) == before.account(k)
    &&& after.accounts@.len() == count_after_put(before, name)
    &&& if becomes_default(before, name, is_default) {
        opt_view(after.default_account) == Some(name)
    } else {
        after.default_account == before.default_account
    }
}

/// Where adding an account comes to, given the answers read so far.
pub open spec fn adding(
    config: Config,
    args: LoginArgs,
    username_line: Option<Seq<char>>,
    password_line: Option<Seq<char>>,
) -> AddingModel {
    if taken(config, args) {
        AddingModel::Failed(
            failure(
                ErrorCode::InvalidInput,
                "Account '"@ + args.name@ + "' already exists. Pass --force to overwrite."@,
            ),
        )
    } else {
        match new_username(args, username_line) {
            None => AddingModel::AskUsername,
            Some(Err(f)) => AddingModel::Failed(f),
            Some(Ok(u)) => match new_password(args, password_line) {
                None => if args.password_stdin {
                    AddingModel::ReadPassword
                } else {
                    AddingModel::PromptPassword
                },
                Some(Err(f)) => AddingModel::Failed(f),
                Some(Ok(p)) => AddingModel::Done {
                    key: account_key_spec(args.name@),
                    password: p,
                    output: added_json(args.name@, u, becomes_default(config, args.name@, args.default)),
                },
            },
        }
    }
}

fn as_str_opt(o: &Option<String>) -> (r: Option<&str>)
    ensures
        match o {
            Some(s) => r matches Some(t) && t@ == s@,
            None => r is None,
        },
{
    match o {
        Some(s) => Some(s.as_str()),
        None => None,
    }
}

fn clone_text(o: &Option<String>) -> (r: Option<String>)
    ensures
        r == *o,
{
    match o {
        Some(s) => Some(s.clone()),
        None => None,
    }
}

/// Adds an account as far as the answers read so far allow: a name that is
/// taken is refused unless forced; the username and the password are the
/// ones given, else the lines read for them. Once both are known the account
/// is recorded in `config`, which is otherwise left as it was.
pub fn add(
    config: &mut Config,
    args: &LoginArgs,
    username_line: Option<&str>,
    password_line: Option<&str>,
    added_at: String,
) -> (r: Adding)
    requires
        old(config).well_formed(),
    ensures
        final(config).well_formed(),
        r@ == adding(*old(config), *args, ostr(username_line), ostr(password_line)),
        r is Done ==> (new_username(*args, ostr(username_line)) matches Some(Ok(u)) && recorded(
            *old(config),
            *final(config),
            args.name@,
            u,
            args.customer_number,
            args.endpoint,
            added_at@,
            args.default,
        )),
        !(r is Done) ==> *final(config) == *old(config),
{
    match check_new(config, args.name.as_str(), args.force) {
        Err(e) => return Adding::Failed(e),
        Ok(()) => {},
    }
    let username = match given(as_str_opt(&args.username)) {
        Some(u) => u,
        None => match username_line {
            None => return Adding::AskUsername,
            Some(l) => match entered(l, "Username cannot be empty.") {
                Ok(u) => u,
                Err(e) => return Adding::Failed(e),
            },
        },
    };
    let password = match given(as_str_opt(&args.password)) {
        Some(p) => p,
        None => match password_line {
            None => if args.password_stdin {
                return Adding::ReadPassword;
            } else {
                return Adding::PromptPassword;
            },
            Some(l) => {
                let message = if args.password_stdin {
                    "Password from stdin cannot be empty."
                } else {
                    "Password cannot be empty."
                };
                match entered(l, message) {
                    Ok(p) => p,
                    Err(e) => return Adding::Failed(e),
                }
            },
        },
    };
    record_account(
        config,
        args.name.clone(),
        username.clone(),
        clone_text(&args.customer_number),
        clone_text(&args.endpoint),
        added_at,
        args.default,
    );
    let output = added_output(config, &args.name, &username);
    Adding::Done { key: account_key(args.name.as_str()), password, output }
}

/// What adding an account reports.
pub fn added_output(config: &Config, name: &String, username: &String) -> (v: Value)
    ensures
        v@ == Json::Object(
            seq![
                ("status"@, Json::Str("ok"@)),
                ("account"@, Json::Str(name@)),
                ("username"@, Json::Str(username@)),
                ("isDefault"@, Json::Bool(opt_view(config.default_account) == Some(name@))),
            ],
        ),
{
    let mut m = members();
    put(&mut m, "status", text("ok"));
    put(&mut m, "account", Value::Str(name.clone()));
    put(&mut m, "username", Value::Str(username.clone()));
    put(&mut m, "isDefault", Value::Bool(is_named(&config.default_account, name)));
    assert(member_views(m@) =~= seq![
        ("status"@, Json::Str("ok"@)),
        ("account"@, Json::Str(name@)),
        ("username"@, Json::Str(username@)),
        ("isDefault"@, Json::Bool(opt_view(config.default_account) == Some(name@))),
    ]);
    object(m)
}

/// The stored name of the account to remove; none of that name is an error.
pub fn stored_name(config: &Config, name: &str) -> (r: Result<String, Error>)
    requires
        config.well_formed(),
    ensures
        config.account(name@) is Some ==> (r matches Ok(s) && s@ == name@),
        config.account(name@) is None ==> (r matches Err(e) && e@ == failure(
            ErrorCode::NotFound,
            "No account named '"@ + name@ + "'."@,
        )),
{
    match config.find(name) {
        Some(i) => Ok(config.accounts[i].0.clone()),
        None => {
            let mut m = String::from_str("No account named '");
            m.append(name);
            m.append("'.");
            Err(Error::not_found(m))
        },
    }
}

/// Whether an answer to "Delete account?" agrees: `y` or `yes` in any case.
pub open spec fn agrees(line: Seq<char>) -> bool {
    eq_ignore_case(trimmed(line), "y"@) || eq_ignore_case(trimmed(line), "yes"@)
}

/// A removal goes on only when the answer agrees; otherwise it is cancelled.
pub fn confirm_removal(line: &str) -> (r: Result<(), Error>)
    ensures
        r is Ok <==> agrees(line@),
        r matches Err(e) ==> e@ == failure(ErrorCode::InvalidInput, "Cancelled by user."@),
{
    let t = trim(line);
    if !eq_ignore_ascii_case(t, "y") && !eq_ignore_ascii_case(t, "yes") {
        return Err(Error::invalid(String::from_str("Cancelled by user.")));
    }
    Ok(())
}

/// Forgets a stored account; when it was the default one, no account is.
pub fn forget(config: &mut Config, stored: &String)
    requires
        old(config).well_formed(),
    ensures
        final(config).well_formed(),
        final(config).account(stored@) is None,
        forall|k: Seq<char>| k != stored@ ==> #[trigger] final(config).account(k) == old(config).account(k),
        opt_view(old(config).default_account) == Some(stored@) ==> final(config).default_account is None,
        opt_view(old(config).default_account) != Some(stored@) ==> final(config).default_account == old(config).default_account,
{
    let _found = config.remove(stored.as_str());
    let ghost mid = config.accounts@;
    assert(config.account(stored@) is None);
    assert forall|k: Seq<char>| k != stored@ implies entry(mid, k) == old(config).account(k) by {
        assert(config.account(k) == old(config).account(k));
    }
    if is_named(&config.default_account, stored) {
        config.default_account = None;
    }
    assert(config.accounts@ == mid);
    assert forall|k: Seq<char>| k != stored@ implies #[trigger] config.account(k) == old(config).account(k) by {
        assert(entry(mid, k) == old(config).account(k));
    }
}

/// What removing an account reports.
pub fn removed_output(stored: &String) -> (v: Value)
    ensures
        v@ == Json::Object(
            seq![
                ("status"@, Json::Str("ok"@)),
                ("account"@, Json::Str(stored@)),
                ("deleted"@, Json::Bool(true)),
            ],
        ),
{
    let mut m = members();
    put(&mut m, "status", text("ok"));
    put(&mut m, "account", Value::Str(stored.clone()));
    put(&mut m, "deleted", Value::Bool(true));
    assert(member_views(m@) =~= seq![
        ("status"@, Json::Str("ok"@)),
        ("account"@, Json::Str(stored@)),
        ("deleted"@, Json::Bool(true)),
    ]);
    object(m)
}

/// The listing has one entry per stored account, in stored (name) order;
/// each entry shows that account's name, username, customer number (empty
/// only when none is stored), endpoint (the Loopia default only when none is
/// stored), whether it is the account used when none is named, and when it
/// was added. In a well-formed config that is the account stored under the name.
pub proof fn listing_shows_each_stored_account(config: Config, i: int)
    requires
        0 <= i < config.accounts@.len(),
    ensures
        account_listing(config).len() == config.accounts@.len(),
        ({
            let (name, acct) = config.accounts@[i];
            &&& account_listing(config)[i] matches Json::Object(ms)
            &&& ms.len() == 6
            &&& ms[0] == ("account"@, Json::Str(name@))
            &&& ms[1] == ("username"@, Json::Str(acct.username@))
            &&& ms[2] == ("customerNumber"@, Json::Str(
                match acct.customer_number {
                    Some(c) => c@,
                    None => Seq::empty(),
                },
            ))
            &&& ms[3] == ("endpoint"@, Json::Str(
                match acct.endpoint {
                    Some(e) => e@,
                    None => DEFAULT_ENDPOINT@,
                },
            ))
            &&& ms[4] == ("isDefault"@, Json::Bool(config.effective_default_spec() == Some(name@)))
            &&& ms[5] == ("addedAt"@, Json::Str(acct.added_at@))
            &&& config.well_formed() ==> config.account(name@) == Some(acct)
        }),
{
    let (name, acct) = config.accounts@[i];
    assert(account_listing(config)[i] == account_entry(name@, acct, config.effective_default_spec()));
    reveal_strlit("");
    assert(""@ =~= Seq::<char>::empty());
    assert(or_text(acct.customer_number, ""@) == match acct.customer_number {
        Some(c) => c@,
        None => Seq::<char>::empty(),
    });
    if config.well_formed() {
        crate::config::lemma_entry_at(config.accounts@, i);
    }
}

} // verus!
