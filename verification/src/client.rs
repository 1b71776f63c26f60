//! The Loopia XML-RPC client: what is sent, and what an HTTP reply means.
//!
//! The HTTP exchange itself is left to the caller: a [`Client`] writes the
//! request document for a call, and [`read_response`] turns the status and
//! body of the reply into a value or an error.

use vstd::prelude::*;
use crate::error::{Error, ErrorCode, Failure, failure};
use crate::value::{Value, Json, views};
use crate::text::{decimal, i64_to_string, is_blank, trimmed, blank, trim, decode_lossy, utf8_lossy};
use crate::xmlrpc::{build_request, request_xml};
use crate::parse::{parse_response, response, result_view};
use crate::xml::xml_events;

verus! {

pub const DEFAULT_ENDPOINT: &'static str = "https://api.loopia.se/RPCSERV";

/// The credentials and endpoint of API calls.
pub struct Client {
    pub endpoint: String,
    pub username: String,
    pub password: String,
    pub customer_number: Option<String>,
}

/// The endpoint that calls go to: the one given, else the one from the
/// environment, unless that is blank, else the Loopia default.
pub open spec fn chosen_endpoint(given: Option<Seq<char>>, env: Option<Seq<char>>) -> Seq<char> {
    let candidate = match given {
        Some(e) => Some(e),
        None => env,
    };
    match candidate {
        Some(e) => if is_blank(e) {
            DEFAULT_ENDPOINT@
        } else {
            e
        },
        None => DEFAULT_ENDPOINT@,
    }
}

/// The parameters that open every call: username and password, then the
/// customer number when the call takes one and the client has one.
pub open spec fn credential_params(c: Client, with_customer: bool) -> Seq<Json> {
    seq![Json::Str(c.username@), Json::Str(c.password@)] + match c.customer_number {
        Some(n) => if with_customer {
            seq![Json::Str(n@)]
        } else {
            Seq::empty()
        },
        None => Seq::empty(),
    }
}

impl Client {
    /// A client for the given credentials. A blank customer number counts as
    /// none; `env_endpoint` is the endpoint that the environment names, if any.
    pub fn new(
        username: &str,
        password: &str,
        customer_number: Option<&str>,
        endpoint: Option<&str>,
        env_endpoint: Option<String>,
    ) -> (c: Client)
        ensures
            c.username@ == username@,
            c.password@ == password@,
            c.endpoint@ == chosen_endpoint(
                match endpoint {
                    Some(e) => Some(e@),
                    None => None,
                },
                match env_endpoint {
                    Some(e) => Some(e@),
                    None => None,
                },
            ),
            match customer_number {
                Some(n) => if is_blank(n@) {
                    c.customer_number is None
                } else {
                    c.customer_number matches Some(m) && m@ == n@
                },
                None => c.customer_number is None,
            },
    {
        let candidate = match endpoint {
            Some(e) => Some(String::from_str(e)),
            None => env_endpoint,
        };
        let endpoint = match candidate {
            Some(e) => if blank(e.as_str()) {
                String::from_str(DEFAULT_ENDPOINT)
            } else {
                e
            },
            None => String::from_str(DEFAULT_ENDPOINT),
        };
        let customer_number = match customer_number {
            Some(n) => if blank(n) {
                None
            } else {
                Some(String::from_str(n))
            },
            None => None,
        };
        Client {
            endpoint,
            username: String::from_str(username),
            password: String::from_str(password),
            customer_number,
        }
    }

    fn params(&self, with_customer: bool, args: &[Value]) -> (params: Vec<Value>)
        ensures
            views(params@) == credential_params(*self, with_customer) + views(args@),
    {
        let mut params: Vec<Value> = Vec::new();
        params.push(Value::Str(self.username.clone()));
        params.push(Value::Str(self.password.clone()));
        if with_customer {
            match &self.customer_number {
                Some(n) => params.push(Value::Str(n.clone())),
                None => {},
            }
        }
        let ghost head = views(params@);
        assert(head =~= credential_params(*self, with_customer));
        let mut i: usize = 0;
        while i < args.len()
            invariant
                i <= args.len(),
                views(params@) =~= head + views(args@).take(i as int),
            decreases args.len() - i,
        {
            let ghost before = views(params@);
            let v = args[i].copy();
            params.push(v);
            proof {
                assert(views(params@) =~= before.push(args@[i as int]@));
                assert(views(args@).take(i + 1) =~= views(args@).take(i as int).push(args@[i as int]@));
            }
            i = i + 1;
        }
        assert(views(args@).take(args.len() as int) =~= views(args@));
        params
    }

    /// The request document of a call to a method that takes the reseller
    /// customer number after the credentials.
    pub fn call(&self, method: &str, args: &[Value]) -> (body: String)
        ensures
            body@ == request_xml(method@, credential_params(*self, true) + views(args@)),
    {
        let params = self.params(true, args);
        build_request(method, params.as_slice())
    }

    /// The request document of a call to a method that takes only the credentials.
    pub fn call_global(&self, method: &str, args: &[Value]) -> (body: String)
        ensures
            body@ == request_xml(method@, credential_params(*self, false) + views(args@)),
    {
        let params = self.params(false, args);
        build_request(method, params.as_slice())
    }
}

/// What an HTTP reply means: the error of its status when that is not 2xx,
/// else the value or error of the XML-RPC response in its body.
pub fn read_response(status: u16, body: &[u8]) -> (r: Result<Value, Error>)
    ensures
        !(200 <= status < 300) ==> (r matches Err(e) && e@ == status_failure(status, utf8_lossy(body@))),
        200 <= status < 300 ==> result_view(r) == response(xml_events(utf8_lossy(body@))),
{
    let text = decode_lossy(body);
    if !(200 <= status && status < 300) {
        return Err(status_error(status, text.as_str()));
    }
    parse_response(text.as_str())
}

/// The error of a transport failure: a timeout, or any other failure with its description.
pub open spec fn transport_failure(timed_out: bool, description: Seq<char>) -> Failure {
    if timed_out {
        Failure {
            code: ErrorCode::Network,
            message: "The request to Loopia timed out."@,
            detail: None,
            fix: Some("Retry once, then stop."@),
        }
    } else {
        Failure {
            code: ErrorCode::Network,
            message: "Could not reach the Loopia XML-RPC API."@,
            detail: Some(description),
            fix: Some("Check internet connection and verify the endpoint URL."@),
        }
    }
}

/// The error of a transport failure: a timeout, or any other failure with its description.
pub fn transport_error(timed_out: bool, description: String) -> (e: Error)
    ensures
        e@ == transport_failure(timed_out, description@),
{
    if timed_out {
        Error::new(ErrorCode::Network, String::from_str("The request to Loopia timed out.")).fix(
            String::from_str("Retry once, then stop."),
        )
    } else {
        Error::new(ErrorCode::Network, String::from_str("Could not reach the Loopia XML-RPC API.")).detail(
            description,
        ).fix(String::from_str("Check internet connection and verify the endpoint URL."))
    }
}

/// The detail of an HTTP error: the status, then the trimmed body unless it is blank.
pub open spec fn status_detail(status: u16, body: Seq<char>) -> Seq<char> {
    "HTTP "@ + decimal(status as int) + if is_blank(body) {
        Seq::empty()
    } else {
        ": "@ + trimmed(body)
    }
}

/// The error of an HTTP reply whose status is not 2xx.
pub open spec fn status_failure(status: u16, body: Seq<char>) -> Failure {
    let detail = Some(status_detail(status, body));
    if status == 401 {
        Failure {
            code: ErrorCode::AuthRequired,
            message: "Loopia API authentication failed."@,
            detail,
            fix: Some("Verify credentials with: loopia accounts test <account>"@),
        }
    } else if status == 403 {
        Failure {
            code: ErrorCode::AuthRequired,
            message: "Access to Loopia API forbidden. Verify account permissions."@,
            detail,
            fix: Some("Check that the user has API access enabled in Loopia customer zone."@),
        }
    } else if status == 404 {
        Failure {
            code: ErrorCode::NotFound,
            message: "The requested endpoint does not exist."@,
            detail,
            fix: None,
        }
    } else if status == 429 {
        Failure {
            code: ErrorCode::RateLimited,
            message: "Rate limited by the Loopia API."@,
            detail,
            fix: Some("Back off before retrying."@),
        }
    } else if status >= 500 {
        Failure {
            code: ErrorCode::Network,
            message: "Loopia API returned a server error."@,
            detail,
            fix: Some("Retry; if it persists Loopia platform may be undergoing maintenance."@),
        }
    } else {
        Failure {
            code: ErrorCode::Error,
            message: "Loopia API request failed."@,
            detail,
            fix: None,
        }
    }
}

/// The error of an HTTP reply with the given status and body.
pub fn status_error(status: u16, body: &str) -> (e: Error)
    ensures
        e@ == status_failure(status, body@),
{
    let mut detail = String::from_str("HTTP ");
    let digits = i64_to_string(status as i64);
    detail.append(digits.as_str());
    if !blank(body) {
        detail.append(": ");
        detail.append(trim(body));
    }
    assert(detail@ =~= status_detail(status, body@));
    if status == 401 {
        Error::new(ErrorCode::AuthRequired, String::from_str("Loopia API authentication failed.")).detail(
            detail,
        ).fix(String::from_str("Verify credentials with: loopia accounts test <account>"))
    } else if status == 403 {
        Error::new(
            ErrorCode::AuthRequired,
            String::from_str("Access to Loopia API forbidden. Verify account permissions."),
        ).detail(detail).fix(
            String::from_str("Check that the user has API access enabled in Loopia customer zone."),
        )
    } else if status == 404 {
        Error::new(ErrorCode::NotFound, String::from_str("The requested endpoint does not exist.")).detail(
            detail,
        )
    } else if status == 429 {
        Error::new(ErrorCode::RateLimited, String::from_str("Rate limited by the Loopia API.")).detail(
            detail,
        ).fix(String::from_str("Back off before retrying."))
    } else if status >= 500 {
        Error::new(ErrorCode::Network, String::from_str("Loopia API returned a server error.")).detail(
            detail,
        ).fix(String::from_str("Retry; if it persists Loopia platform may be undergoing maintenance."))
    } else {
        Error::new(ErrorCode::Error, String::from_str("Loopia API request failed.")).detail(detail)
    }
}

} // verus!
