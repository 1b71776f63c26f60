//! Choosing the credentials of an API call.
//!
//! Credentials come, in this order, from the command line, from a stored
//! account (named on the command line, by `LOOPIA_ACCOUNT`, or the default
//! one), or from `LOOPIA_API_USERNAME` and `LOOPIA_API_PASSWORD`. Resolving
//! them may need the stored accounts and a password from the keystore;
//! [`resolve`] says when it needs either, and is called again with it.

use vstd::prelude::*;
use crate::client::Client;
use crate::config::{Config, AccountConfig};
use crate::error::{Error, ErrorCode, Failure, opt_view};
use crate::text::{is_blank, blank};

verus! {

broadcast use vstd::string::group_string_axioms;

/// The credentials and endpoint chosen for calls.
pub struct Resolved {
    pub name: String,
    pub username: String,
    pub password: String,
    pub customer_number: Option<String>,
    pub endpoint: Option<String>,
}

/// The model of [`Resolved`].
pub struct Credentials {
    pub name: Seq<char>,
    pub username: Seq<char>,
    pub password: Seq<char>,
    pub customer_number: Option<Seq<char>>,
    pub endpoint: Option<Seq<char>>,
}

impl View for Resolved {
    type V = Credentials;

    open spec fn view(&self) -> Credentials {
        Credentials {
            name: self.name@,
            username: self.username@,
            password: self.password@,
            customer_number: opt_view(self.customer_number),
            endpoint: opt_view(self.endpoint),
        }
    }
}

impl Resolved {
    /// A client for these credentials; `env_endpoint` is the endpoint that
    /// the environment names, if any.
    pub fn client(&self, env_endpoint: Option<String>) -> (c: Client)
        ensures
            c.username@ == self.username@,
            c.password@ == self.password@,
            c.endpoint@ == crate::client::chosen_endpoint(opt_view(self.endpoint), opt_view(env_endpoint)),
            match self.customer_number {
                Some(n) => if is_blank(n@) {
                    c.customer_number is None
                } else {
                    c.customer_number matches Some(m) && m@ == n@
                },
                None => c.customer_number is None,
            },
    {
        let cust = match &self.customer_number {
            Some(n) => Some(n.as_str()),
            None => None,
        };
        let endpoint = match &self.endpoint {
            Some(e) => Some(e.as_str()),
            None => None,
        };
        Client::new(self.username.as_str(), self.password.as_str(), cust, endpoint, env_endpoint)
    }
}

/// What the command line says about credentials.
pub struct ApiOptions<'a> {
    pub account: Option<&'a str>,
    pub username: Option<&'a str>,
    pub password: Option<&'a str>,
    pub customer_number: Option<&'a str>,
    pub endpoint: Option<&'a str>,
}

/// What the environment says about credentials: `LOOPIA_ACCOUNT`,
/// `LOOPIA_API_USERNAME`, `LOOPIA_API_PASSWORD`, `LOOPIA_CUSTOMER_NUMBER`
/// and `LOOPIA_API_ENDPOINT`, each when it is set.
pub struct Environment {
    pub account: Option<String>,
    pub api_username: Option<String>,
    pub api_password: Option<String>,
    pub customer_number: Option<String>,
    pub api_endpoint: Option<String>,
}

/// The next thing that resolving credentials comes to.
pub enum Resolution {
    /// The credentials to use.
    Resolved(Resolved),
    /// The credentials cannot be resolved.
    Failed(Error),
    /// The stored accounts are needed.
    NeedConfig,
    /// The keystore's password under this key is needed.
    NeedSecret(String),
}

/// The model of a [`Resolution`].
pub enum Outcome {
    Resolved(Credentials),
    Failed(Failure),
    NeedConfig,
    NeedSecret(Seq<char>),
}

impl View for Resolution {
    type V = Outcome;

    open spec fn view(&self) -> Outcome {
        match self {
            Resolution::Resolved(r) => Outcome::Resolved(r@),
            Resolution::Failed(e) => Outcome::Failed(e@),
            Resolution::NeedConfig => Outcome::NeedConfig,
            Resolution::NeedSecret(k) => Outcome::NeedSecret(k@),
        }
    }
}

pub open spec fn ostr(o: Option<&str>) -> Option<Seq<char>> {
    match o {
        Some(s) => Some(s@),
        None => None,
    }
}

pub open spec fn first_of(a: Option<Seq<char>>, b: Option<Seq<char>>) -> Option<Seq<char>> {
    match a {
        Some(x) => Some(x),
        None => b,
    }
}

pub open spec fn non_blank(o: Option<Seq<char>>) -> Option<Seq<char>> {
    match o {
        Some(x) => if is_blank(x) {
            None
        } else {
            Some(x)
        },
        None => None,
    }
}

/// The keystore key of an account's password.
pub open spec fn account_key_spec(name: Seq<char>) -> Seq<char> {
    "account:"@ + name
}

/// The keystore key under which an account's password is stored.
pub fn account_key(name: &str) -> (k: String)
    ensures
        k@ == account_key_spec(name@),
{
    let mut k = String::from_str("account:");
    k.append(name);
    k
}

/// How an account is listed: its name, then its username in parentheses.
pub open spec fn account_label(name: Seq<char>, username: Seq<char>) -> Seq<char> {
    name + " ("@ + username + ")"@
}

/// The stored accounts, in name order, separated by commas.
pub open spec fn account_labels(accounts: Seq<(String, AccountConfig)>) -> Seq<char>
    decreases accounts.len(),
{
    if accounts.len() == 0 {
        Seq::empty()
    } else if accounts.len() == 1 {
        account_label(accounts[0].0@, accounts[0].1.username@)
    } else {
        account_labels(accounts.drop_last()) + ", "@ + account_label(
            accounts.last().0@,
            accounts.last().1.username@,
        )
    }
}

/// What is said of the stored accounts when no account can be used.
pub open spec fn describe_spec(config: Config) -> Seq<char> {
    if config.accounts@.len() == 0 {
        "No accounts configured yet. Run 'loopia accounts add <name> --username <user>'."@
    } else {
        "Configured accounts: "@ + account_labels(config.accounts@)
    }
}

/// Describes the stored accounts.
pub fn describe(config: &Config) -> (s: String)
    ensures
        s@ == describe_spec(*config),
{
    if config.accounts.len() == 0 {
        return String::from_str(
            "No accounts configured yet. Run 'loopia accounts add <name> --username <user>'.",
        );
    }
    let mut s = String::from_str("Configured accounts: ");
    let ghost head = s@;
    let ghost all = config.accounts@;
    let mut i: usize = 0;
    while i < config.accounts.len()
        invariant
            i <= config.accounts.len(),
            all == config.accounts@,
            s@ == head + account_labels(all.take(i as int)),
        decreases config.accounts.len() - i,
    {
        proof {
            assert(all.take(i + 1).drop_last() == all.take(i as int));
        }
        if i > 0 {
            s.append(", ");
        }
        s.append(config.accounts[i].0.as_str());
        s.append(" (");
        s.append(config.accounts[i].1.username.as_str());
        s.append(")");
        proof {
            if i > 0 {
                assert(s@ =~= head + account_labels(all.take(i + 1)));
            } else {
                assert(s@ =~= head + account_labels(all.take(i + 1)));
            }
        }
        i = i + 1;
    }
    assert(all.take(config.accounts.len() as int) == all);
    s
}

/// The account that credentials are asked of: named on the command line,
/// else by the environment (a blank name counts as none), else the default.
pub open spec fn requested_account(opts: ApiOptions, env: Environment, config: Config) -> Option<
    Seq<char>,
> {
    first_of(
        non_blank(ostr(opts.account)),
        first_of(non_blank(opt_view(env.account)), config.effective_default_spec()),
    )
}

/// The error when the named account has no password anywhere.
pub open spec fn no_password_failure(stored: Seq<char>) -> Failure {
    Failure {
        code: ErrorCode::AuthRequired,
        message: "Account '"@ + stored + "' has no stored password."@,
        detail: Some(
            "The account entry exists in config, but no password was found in the keystore."@,
        ),
        fix: Some("loopia accounts add "@ + stored + " --password <pass> --force"@),
    }
}

/// The error when no account can be used.
pub open spec fn no_account_failure(message: Seq<char>, config: Config) -> Failure {
    Failure {
        code: ErrorCode::NoAccount,
        message,
        detail: Some(describe_spec(config)),
        fix: Some("loopia accounts list"@),
    }
}

/// Where resolving credentials comes to, given the command line, the
/// environment, the stored accounts once loaded, and the keystore's answer
/// once asked.
pub open spec fn resolution(
    opts: ApiOptions,
    env: Environment,
    config: Option<Config>,
    secret: Option<Option<Seq<char>>>,
) -> Outcome {
    if opts.username is Some && opts.password is Some {
        Outcome::Resolved(
            Credentials {
                name: "direct"@,
                username: opts.username->Some_0@,
                password: opts.password->Some_0@,
                customer_number: ostr(opts.customer_number),
                endpoint: ostr(opts.endpoint),
            },
        )
    } else if config is None {
        Outcome::NeedConfig
    } else {
        let config = config->Some_0;
        match requested_account(opts, env, config) {
            Some(req) => match config.account(req) {
                Some(acct) => {
                    let password = match opts.password {
                        Some(p) => Some(p@),
                        None => match secret {
                            None => None,
                            Some(Some(kp)) => Some(kp),
                            Some(None) => opt_view(env.api_password),
                        },
                    };
                    if opts.password is None && secret is None {
                        Outcome::NeedSecret(account_key_spec(req))
                    } else if password is None {
                        Outcome::Failed(no_password_failure(req))
                    } else {
                        Outcome::Resolved(
                            Credentials {
                                name: req,
                                username: first_of(ostr(opts.username), Some(acct.username@))->Some_0,
                                password: password->Some_0,
                                customer_number: first_of(
                                    ostr(opts.customer_number),
                                    first_of(
                                        opt_view(acct.customer_number),
                                        opt_view(env.customer_number),
                                    ),
                                ),
                                endpoint: first_of(
                                    ostr(opts.endpoint),
                                    first_of(opt_view(acct.endpoint), opt_view(env.api_endpoint)),
                                ),
                            },
                        )
                    }
                },
                None => Outcome::Failed(
                    no_account_failure("No account named '"@ + req + "'."@, config),
                ),
            },
            None => match (env.api_username, env.api_password) {
                (Some(u), Some(p)) => if !is_blank(u@) && !is_blank(p@) {
                    Outcome::Resolved(
                        Credentials {
                            name: "env"@,
                            username: u@,
                            password: p@,
                            customer_number: first_of(
                                ostr(opts.customer_number),
                                opt_view(env.customer_number),
                            ),
                            endpoint: first_of(ostr(opts.endpoint), opt_view(env.api_endpoint)),
                        },
                    )
                } else {
                    Outcome::Failed(
                        no_account_failure(
                            "No account specified. Pass --account <name> or configure one."@,
                            config,
                        ),
                    )
                },
                _ => Outcome::Failed(
                    no_account_failure(
                        "No account specified. Pass --account <name> or configure one."@,
                        config,
                    ),
                ),
            },
        }
    }
}

/// A call that names a stored account uses that account: first the
/// keystore is asked for its password under `account:<name>`, then its
/// username goes with the password that the keystore gave back.
pub proof fn named_account_is_used(
    opts: ApiOptions,
    env: Environment,
    config: Config,
    acct: AccountConfig,
    password: Seq<char>,
)
    requires
        opts.account is Some,
        !is_blank(opts.account->Some_0@),
        config.account(opts.account->Some_0@) == Some(acct),
        opts.username is None,
        opts.password is None,
    ensures
        resolution(opts, env, Some(config), None) == Outcome::NeedSecret(
            account_key_spec(opts.account->Some_0@),
        ),
        resolution(opts, env, Some(config), Some(Some(password))) == Outcome::Resolved(
            Credentials {
                name: opts.account->Some_0@,
                username: acct.username@,
                password,
                customer_number: first_of(
                    ostr(opts.customer_number),
                    first_of(opt_view(acct.customer_number), opt_view(env.customer_number)),
                ),
                endpoint: first_of(
                    ostr(opts.endpoint),
                    first_of(opt_view(acct.endpoint), opt_view(env.api_endpoint)),
                ),
            },
        ),
{
}

/// Without `--account` (or with a blank one), the account that
/// `LOOPIA_ACCOUNT` names is used, whatever the default account is.
pub proof fn environment_names_the_account(
    opts: ApiOptions,
    env: Environment,
    config: Config,
    acct: AccountConfig,
    password: Seq<char>,
)
    requires
        opts.account is None || is_blank(opts.account->Some_0@),
        env.account is Some,
        !is_blank(env.account->Some_0@),
        config.account(env.account->Some_0@) == Some(acct),
        opts.username is None,
        opts.password is None,
    ensures
        resolution(opts, env, Some(config), None) == Outcome::NeedSecret(
            account_key_spec(env.account->Some_0@),
        ),
        resolution(opts, env, Some(config), Some(Some(password))) matches Outcome::Resolved(c)
            && c.name == env.account->Some_0@ && c.username == acct.username@ && c.password == password,
{
}

/// Credentials given in full on the command line are used as they are,
/// whatever is stored and whatever the environment says.
pub proof fn explicit_credentials_win(
    opts: ApiOptions,
    env: Environment,
    config: Option<Config>,
    secret: Option<Option<Seq<char>>>,
)
    requires
        opts.username is Some,
        opts.password is Some,
    ensures
        resolution(opts, env, config, secret) == Outcome::Resolved(
            Credentials {
                name: "direct"@,
                username: opts.username->Some_0@,
                password: opts.password->Some_0@,
                customer_number: ostr(opts.customer_number),
                endpoint: ostr(opts.endpoint),
            },
        ),
{
}

fn str_owned(o: Option<&str>) -> (r: Option<String>)
    ensures
        opt_view(r) == ostr(o),
{
    match o {
        Some(s) => Some(String::from_str(s)),
        None => None,
    }
}

fn or_else(a: Option<String>, b: &Option<String>) -> (r: Option<String>)
    ensures
        opt_view(r) == first_of(opt_view(a), opt_view(*b)),
{
    match a {
        Some(x) => Some(x),
        None => b.clone(),
    }
}

fn keep_non_blank(o: Option<String>) -> (r: Option<String>)
    ensures
        opt_view(r) == non_blank(opt_view(o)),
{
    match o {
        Some(x) => if blank(x.as_str()) {
            None
        } else {
            Some(x)
        },
        None => None,
    }
}

/// Resolves the credentials of a call as far as it can: `config` is the
/// stored accounts once loaded, `secret` the keystore's answer for the key
/// it asked for (`Some(None)` when the keystore holds nothing there).
pub fn resolve(
    opts: &ApiOptions,
    env: &Environment,
    config: Option<&Config>,
    secret: Option<Option<String>>,
) -> (r: Resolution)
    requires
        match config {
            Some(c) => c.well_formed(),
            None => true,
        },
    ensures
        r@ == resolution(
            *opts,
            *env,
            match config {
                Some(c) => Some(*c),
                None => None,
            },
            match secret {
                Some(s) => Some(opt_view(s)),
                None => None,
            },
        ),
{
    if let (Some(u), Some(p)) = (opts.username, opts.password) {
        return Resolution::Resolved(
            Resolved {
                name: String::from_str("direct"),
                username: String::from_str(u),
                password: String::from_str(p),
                customer_number: str_owned(opts.customer_number),
                endpoint: str_owned(opts.endpoint),
            },
        );
    }
    let config = match config {
        Some(c) => c,
        None => return Resolution::NeedConfig,
    };
    let requested = match keep_non_blank(str_owned(opts.account)) {
        Some(a) => Some(a),
        None => match keep_non_blank(env.account.clone()) {
            Some(a) => Some(a),
            None => config.effective_default(),
        },
    };
    match requested {
        Some(req) => {
            match config.find(req.as_str()) {
                Some(i) => {
                    let acct = &config.accounts[i].1;
                    let stored = &config.accounts[i].0;
                    let password = match opts.password {
                        Some(p) => String::from_str(p),
                        None => match secret {
                            None => return Resolution::NeedSecret(account_key(stored.as_str())),
                            Some(Some(kp)) => kp,
                            Some(None) => match &env.api_password {
                                Some(ep) => ep.clone(),
                                None => {
                                    let mut m = String::from_str("Account '");
                                    m.append(stored.as_str());
                                    m.append("' has no stored password.");
                                    let mut f = String::from_str("loopia accounts add ");
                                    f.append(stored.as_str());
                                    f.append(" --password <pass> --force");
                                    return Resolution::Failed(
                                        Error::new(ErrorCode::AuthRequired, m).detail(
                                            String::from_str(
                                                "The account entry exists in config, but no password was found in the keystore.",
                                            ),
                                        ).fix(f),
                                    );
                                },
                            },
                        },
                    };
                    let username = match opts.username {
                        Some(u) => String::from_str(u),
                        None => acct.username.clone(),
                    };
                    let customer_number = or_else(
                        str_owned(opts.customer_number),
                        &or_else(acct.customer_number.clone(), &env.customer_number),
                    );
                    let endpoint = or_else(
                        str_owned(opts.endpoint),
                        &or_else(acct.endpoint.clone(), &env.api_endpoint),
                    );
                    Resolution::Resolved(
                        Resolved { name: stored.clone(), username, password, customer_number, endpoint },
                    )
                },
                None => {
                    let mut m = String::from_str("No account named '");
                    m.append(req.as_str());
                    m.append("'.");
                    Resolution::Failed(
                        Error::new(ErrorCode::NoAccount, m).detail(describe(config)).fix(
                            String::from_str("loopia accounts list"),
                        ),
                    )
                },
            }
        },
        None => {
            if let (Some(u), Some(p)) = (&env.api_username, &env.api_password) {
                if !blank(u.as_str()) && !blank(p.as_str()) {
                    return Resolution::Resolved(
                        Resolved {
                            name: String::from_str("env"),
                            username: u.clone(),
                            password: p.clone(),
                            customer_number: or_else(
                                str_owned(opts.customer_number),
                                &env.customer_number,
                            ),
                            endpoint: or_else(str_owned(opts.endpoint), &env.api_endpoint),
                        },
                    );
                }
            }
            Resolution::Failed(
                Error::new(
                    ErrorCode::NoAccount,
                    String::from_str("No account specified. Pass --account <name> or configure one."),
                ).detail(describe(config)).fix(String::from_str("loopia accounts list")),
            )
        },
    }
}

/// Whatever way the credentials are resolved (given in full, from a stored
/// account, or from the environment), a customer number given on the command
/// line is the one used.
pub proof fn command_line_customer_number_wins(
    opts: ApiOptions,
    env: Environment,
    config: Option<Config>,
    secret: Option<Option<Seq<char>>>,
)
    requires
        opts.customer_number is Some,
    ensures
        resolution(opts, env, config, secret) matches Outcome::Resolved(c) ==> c.customer_number == Some(
            opts.customer_number->Some_0@,
        ),
{
}

/// Whatever way the credentials are resolved, an endpoint given on the
/// command line is the one used.
pub proof fn command_line_endpoint_wins(
    opts: ApiOptions,
    env: Environment,
    config: Option<Config>,
    secret: Option<Option<Seq<char>>>,
)
    requires
        opts.endpoint is Some,
    ensures
        resolution(opts, env, config, secret) matches Outcome::Resolved(c) ==> c.endpoint == Some(
            opts.endpoint->Some_0@,
        ),
{
}

} // verus!
