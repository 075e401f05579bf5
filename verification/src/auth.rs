//! Session authentication: the verdict of the external identity oracle and
//! the classification of its reply.
//!
//! The oracle is reached over the network by unverified glue; this module
//! owns the decision logic. An oracle error is never coerced into
//! "invalid credentials": the two outcomes stay distinct variants.

use vstd::prelude::*;

verus! {

/// Settings used when calling the identity oracle.
pub struct Config {
    pub online_mode: bool,
    pub host: String,
    pub port: u16,
    pub api_key: String,
}

/// Abstract value of a [`Config`].
pub struct AuthConfigView {
    pub online_mode: bool,
    pub host: Seq<char>,
    pub port: u16,
    pub api_key: Seq<char>,
}

impl View for Config {
    type V = AuthConfigView;

    open spec fn view(&self) -> AuthConfigView {
        AuthConfigView {
            online_mode: self.online_mode,
            host: self.host@,
            port: self.port,
            api_key: self.api_key@,
        }
    }
}

/// What the oracle said of a `(username, token)` pair: the credentials are
/// valid, they are invalid, or the check itself failed.
#[derive(Debug, PartialEq, Eq)]
pub enum SessionVerdict {
    Valid,
    Invalid,
    OracleError(String),
}

/// Abstract value of a [`SessionVerdict`].
pub enum SessionVerdictView {
    Valid,
    Invalid,
    OracleError(Seq<char>),
}

impl View for SessionVerdict {
    type V = SessionVerdictView;

    open spec fn view(&self) -> SessionVerdictView {
        match self {
            SessionVerdict::Valid => SessionVerdictView::Valid,
            SessionVerdict::Invalid => SessionVerdictView::Invalid,
            SessionVerdict::OracleError(m) => SessionVerdictView::OracleError(m@),
        }
    }
}

/// The verdict drawn from the fields of the oracle's reply: a present
/// `error` field wins, then `valid` must be exactly `true`; anything else
/// counts as invalid credentials.
pub open spec fn spec_verdict(error: Option<Seq<char>>, valid: Option<bool>) -> SessionVerdictView {
    match error {
        Some(e) => SessionVerdictView::OracleError(e),
        None => if valid == Some(true) {
            SessionVerdictView::Valid
        } else {
            SessionVerdictView::Invalid
        },
    }
}

/// Draws the session verdict from the reply fields handed in as plain
/// values.
pub fn verdict_of(error: Option<String>, valid: Option<bool>) -> (r: SessionVerdict)
    ensures
        r@ == spec_verdict(error.deep_view(), valid),
{
    match error {
        Some(e) => SessionVerdict::OracleError(e),
        None => match valid {
            Some(true) => SessionVerdict::Valid,
            _ => SessionVerdict::Invalid,
        },
    }
}

/// What the oracle's reply text parses to: the `error` and `valid`
/// fields of the JSON object — each absent when missing or of another
/// type — or the parser's error message. A function of the text alone;
/// serde_json computes it.
pub uninterp spec fn oracle_reply_fields(s: Seq<char>) -> Result<
    (Option<Seq<char>>, Option<bool>),
    Seq<char>,
>;

/// Relies on serde_json::from_str, Value::get, Value::as_str and
/// Value::as_bool: parses the oracle's reply text and reads out its
/// `error` and `valid` fields, or reports the parse error as text. The
/// result depends on the text alone and carries the name
/// [`oracle_reply_fields`].
#[verifier::external_body]
fn parse_reply_fields(text: &str) -> (r: Result<(Option<String>, Option<bool>), String>)
    ensures
        r is Ok <==> oracle_reply_fields(text@) is Ok,
        r is Ok ==> (r->Ok_0.0.deep_view(), r->Ok_0.1) == oracle_reply_fields(text@)->Ok_0,
        r is Err ==> r->Err_0@ == oracle_reply_fields(text@)->Err_0,
{
    let v: serde_json::Value = match serde_json::from_str(text) {
        Ok(v) => v,
        Err(e) => {
            return Err(e.to_string());
        },
    };
    let error = v.get("error").and_then(|e| e.as_str()).map(|s| s.to_string());
    let valid = v.get("valid").and_then(|b| b.as_bool());
    Ok((error, valid))
}

/// The verdict the oracle's reply text stands for: text that does not
/// parse is an oracle error carrying the parser's message; otherwise
/// [`spec_verdict`] of the reply's `error` and `valid` fields.
pub open spec fn spec_classify(text: Seq<char>) -> SessionVerdictView {
    match oracle_reply_fields(text) {
        Ok(f) => spec_verdict(f.0, f.1),
        Err(e) => SessionVerdictView::OracleError(e),
    }
}

/// Classifies the raw reply text of the identity oracle.
pub fn classify_oracle_reply(text: &str) -> (r: SessionVerdict)
    ensures
        r@ == spec_classify(text@),
{
    match parse_reply_fields(text) {
        Ok((error, valid)) => verdict_of(error, valid),
        Err(e) => SessionVerdict::OracleError(e),
    }
}

} // verus!
