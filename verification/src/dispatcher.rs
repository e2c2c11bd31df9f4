//! Request-dispatch computations of the gateway.
//!
//! Each HTTP handler in the shell is a thin wrapper around one function here:
//! the designer page rendering, the selection of the manifest to evaluate,
//! the construction of the backend evaluation URL, and the check of the
//! backend's reply. The shell only moves bytes between the network and these
//! functions.

use vstd::prelude::*;
use crate::errors::{GatewayError, UriError, uri_error_to_gateway_spec, uri_error_to_gateway};

verus! {

/// True when `needle` occurs in `hay` starting at position `i`.
pub open spec fn match_at(hay: Seq<char>, needle: Seq<char>, i: int) -> bool {
    0 <= i && i + needle.len() <= hay.len() && hay.subrange(i, i + needle.len()) == needle
}

/// The text after substituting `payload` for every non-overlapping occurrence
/// of `token`, scanned left to right; text without the token is unchanged, and
/// an empty token substitutes nothing.
pub open spec fn replaced_all(s: Seq<char>, token: Seq<char>, payload: Seq<char>) -> Seq<char>
    decreases s.len(),
{
    if token.len() == 0 || s.len() < token.len() {
        s
    } else if s.subrange(0, token.len() as int) == token {
        payload + replaced_all(s.subrange(token.len() as int, s.len() as int), token, payload)
    } else {
        seq![s[0]] + replaced_all(s.subrange(1, s.len() as int), token, payload)
    }
}

/// One scanning step of `replaced_all` where the token occurs at `i`: the
/// payload is emitted and the scan continues past the occurrence.
proof fn lemma_replaced_step_match(s: Seq<char>, token: Seq<char>, payload: Seq<char>, i: int)
    requires
        token.len() > 0,
        match_at(s, token, i),
    ensures
        replaced_all(s.subrange(i, s.len() as int), token, payload) == payload + replaced_all(
            s.subrange(i + token.len(), s.len() as int),
            token,
            payload,
        ),
{
    let rest = s.subrange(i, s.len() as int);
    assert(rest.subrange(0, token.len() as int) =~= s.subrange(i, i + token.len()));
    assert(rest.subrange(token.len() as int, rest.len() as int) =~= s.subrange(
        i + token.len(),
        s.len() as int,
    ));
}

/// One scanning step of `replaced_all` where the token does not occur at `i`:
/// the character is copied and the scan moves on by one.
proof fn lemma_replaced_step_copy(s: Seq<char>, token: Seq<char>, payload: Seq<char>, i: int)
    requires
        token.len() > 0,
        0 <= i < s.len(),
        !match_at(s, token, i),
    ensures
        replaced_all(s.subrange(i, s.len() as int), token, payload) == seq![s[i]] + replaced_all(
            s.subrange(i + 1, s.len() as int),
            token,
            payload,
        ),
{
    let rest = s.subrange(i, s.len() as int);
    if rest.len() < token.len() {
        assert(replaced_all(rest, token, payload) == rest);
        let rest1 = s.subrange(i + 1, s.len() as int);
        assert(rest1.len() < token.len());
        assert(replaced_all(rest1, token, payload) == rest1);
        assert(rest =~= seq![s[i]] + rest1);
    } else {
        assert(rest.subrange(0, token.len() as int) =~= s.subrange(i, i + token.len()));
        assert(rest.subrange(0, token.len() as int) != token);
        assert(rest.subrange(1, rest.len() as int) =~= s.subrange(i + 1, s.len() as int));
        assert(seq![rest[0]] =~= seq![s[i]]);
    }
}

/// Whether `token` occurs in `template` at position `i`, by comparing the
/// characters one by one.
fn tok_matches_at(template: &str, token: &str, i: usize, tpl_len: usize, tok_len: usize) -> (r:
    bool)
    requires
        tpl_len == template@.len(),
        tok_len == token@.len(),
        i <= tpl_len,
    ensures
        r == match_at(template@, token@, i as int),
{
    if tok_len > tpl_len - i {
        return false;
    }
    let mut k: usize = 0;
    let mut matched = true;
    proof {
        assert(template@.subrange(i as int, i as int) =~= token@.subrange(0, 0));
    }
    while k < tok_len
        invariant
            tpl_len == template@.len(),
            tok_len == token@.len(),
            i + tok_len <= tpl_len,
            k <= tok_len,
            matched <==> template@.subrange(i as int, i + k as int) == token@.subrange(
                0,
                k as int,
            ),
        decreases tok_len - k,
    {
        let hc = template.get_char(i + k);
        let nc = token.get_char(k);
        proof {
            let h = template@.subrange(i as int, i + k as int);
            let n = token@.subrange(0, k as int);
            let h2 = template@.subrange(i as int, i + (k + 1) as int);
            let n2 = token@.subrange(0, (k + 1) as int);
            assert(h2 =~= h.push(template@[i + k as int]));
            assert(n2 =~= n.push(token@[k as int]));
            if h == n && hc == nc {
                assert(h2 =~= n2);
            } else if h2 == n2 {
                assert(h =~= h2.subrange(0, k as int));
                assert(n =~= n2.subrange(0, k as int));
                assert(template@[i + k as int] == h2[k as int]);
                assert(token@[k as int] == n2[k as int]);
            }
        }
        matched = matched && hc == nc;
        k = k + 1;
    }
    proof {
        assert(token@.subrange(0, token@.len() as int) =~= token@);
    }
    matched
}

/// Substitutes `payload` for every non-overlapping occurrence of `token` in
/// `template`, left to right.
pub fn substitute(template: &str, token: &str, payload: &str) -> (out: String)
    ensures
        out@ == replaced_all(template@, token@, payload@),
{
    let tpl_len = template.unicode_len();
    let tok_len = token.unicode_len();
    if tok_len == 0 {
        return template.to_owned();
    }
    let mut out = String::new();
    proof {
        assert(template@.subrange(0, tpl_len as int) =~= template@);
        assert(out@ + replaced_all(template@, token@, payload@) =~= replaced_all(
            template@,
            token@,
            payload@,
        ));
    }
    let mut i: usize = 0;
    while i < tpl_len
        invariant
            tpl_len == template@.len(),
            tok_len == token@.len(),
            1 <= tok_len,
            i <= tpl_len,
            out@ + replaced_all(template@.subrange(i as int, tpl_len as int), token@, payload@)
                == replaced_all(template@, token@, payload@),
        decreases tpl_len - i,
    {
        let ghost pre_out = out@;
        if tok_matches_at(template, token, i, tpl_len, tok_len) {
            out.append(payload);
            proof {
                lemma_replaced_step_match(template@, token@, payload@, i as int);
                assert(out@ + replaced_all(
                    template@.subrange(i + tok_len as int, tpl_len as int),
                    token@,
                    payload@,
                ) =~= pre_out + replaced_all(
                    template@.subrange(i as int, tpl_len as int),
                    token@,
                    payload@,
                ));
            }
            i = i + tok_len;
        } else {
            let piece = template.substring_char(i, i + 1);
            out.append(piece);
            proof {
                assert(piece@ =~= seq![template@[i as int]]);
                lemma_replaced_step_copy(template@, token@, payload@, i as int);
                assert(out@ + replaced_all(
                    template@.subrange(i + 1, tpl_len as int),
                    token@,
                    payload@,
                ) =~= pre_out + replaced_all(
                    template@.subrange(i as int, tpl_len as int),
                    token@,
                    payload@,
                ));
            }
            i = i + 1;
        }
    }
    proof {
        let empty = template@.subrange(tpl_len as int, tpl_len as int);
        assert(empty.len() == 0);
        assert(replaced_all(empty, token@, payload@) == empty);
        assert(out@ + empty =~= out@);
    }
    out
}

/// The placeholder token embedded in the designer page asset.
pub open spec fn options_token() -> Seq<char> {
    "__options__"@
}

/// The mode flag substituted into the designer page: run mode when the page
/// is served from the root path, design mode from the design path.
pub open spec fn mode_payload(run_mode: bool) -> Seq<char> {
    if run_mode {
        "{\"mode\": \"run\"}"@
    } else {
        "{\"mode\": \"design\"}"@
    }
}

/// Renders the designer page for the run or the design endpoint: the page
/// asset with the mode flag substituted for every occurrence of the
/// placeholder token. Pure; the only effect of those endpoints is the
/// returned body.
pub fn render_page(template: &str, run_mode: bool) -> (out: String)
    ensures
        out@ == replaced_all(template@, options_token(), mode_payload(run_mode)),
{
    if run_mode {
        substitute(template, "__options__", "{\"mode\": \"run\"}")
    } else {
        substitute(template, "__options__", "{\"mode\": \"design\"}")
    }
}

/// One entry of an evaluation request: the runtime that is to execute and the
/// calls payload handed to it verbatim. The structure of the calls is a
/// contract between the caller and the backend; the gateway keeps them as the
/// bytes of the JSON array it received.
pub struct Manifest {
    pub runtime: String,
    pub calls: Vec<u8>,
}

/// What the gateway sends on behalf of an evaluation request: a POST of
/// `body` to the evaluation path of the named runtime's endpoint.
pub struct EvalPlan {
    pub runtime: String,
    pub body: Vec<u8>,
}

/// Selects the manifest an evaluation request dispatches: the first one.
/// (Only the first is ever dispatched; a request without any manifest is
/// rejected as invalid.)
pub fn plan_eval(manifests: Vec<Manifest>) -> (r: Result<EvalPlan, GatewayError>)
    ensures
        match r {
            Ok(p) => manifests@.len() > 0 && p.runtime@ == manifests@[0].runtime@ && p.body@
                == manifests@[0].calls@,
            Err(e) => manifests@.len() == 0 && e == GatewayError::InvalidRequest,
        },
{
    let mut manifests = manifests;
    if manifests.len() == 0 {
        return Err(GatewayError::InvalidRequest);
    }
    let first = manifests.remove(0);
    Ok(EvalPlan { runtime: first.runtime, body: first.calls })
}

/// The evaluation URL of a runtime endpoint: the endpoint with the fixed
/// evaluation path appended.
pub fn eval_url(endpoint: &str) -> (u: String)
    ensures
        u@ == endpoint@ + "/eval"@,
{
    endpoint.to_owned().concat("/eval")
}

/// Turns the controller's endpoint-discovery reply into the evaluation URL,
/// or lifts the discovery failure into the gateway taxonomy. An evaluation
/// naming an unknown or unavailable runtime is thus a reported error, never
/// a crash.
pub fn eval_target(reply: Result<String, UriError>) -> (r: Result<String, GatewayError>)
    ensures
        match reply {
            Ok(ep) => r matches Ok(u) && u@ == ep@ + "/eval"@,
            Err(e) => r == Err::<String, GatewayError>(uri_error_to_gateway_spec(e)),
        },
{
    match reply {
        Ok(ep) => Ok(eval_url(ep.as_str())),
        Err(e) => Err(uri_error_to_gateway(e)),
    }
}

/// Whether a byte sequence is one JSON document as the parser this crate
/// calls accepts it — the JSON grammar together with the parser's own limits,
/// such as its cap on nesting depth. Named, not spelled out: that acceptance
/// is owned by the parser.
pub uninterp spec fn json_wf(bytes: Seq<u8>) -> bool;

/// Relies on serde_json::from_slice::<serde_json::Value>: parsing succeeds or
/// fails as a function of the input bytes alone; `json_wf` names exactly the
/// bytes it accepts.
#[verifier::external_body]
fn json_ok(bytes: &[u8]) -> (r: bool)
    ensures
        r == json_wf(bytes@),
{
    serde_json::from_slice::<serde_json::Value>(bytes).is_ok()
}

/// Checks the backend's evaluation reply and relays it verbatim: a
/// well-formed JSON reply is returned byte-identical, a malformed one is the
/// distinct backend-reply error — the gateway never fabricates or rewrites a
/// reply body.
pub fn relay_reply(body: Vec<u8>) -> (r: Result<Vec<u8>, GatewayError>)
    ensures
        json_wf(body@) ==> (r matches Ok(b) && b@ == body@),
        !json_wf(body@) ==> r == Err::<Vec<u8>, GatewayError>(GatewayError::BadBackendReply),
{
    if json_ok(body.as_slice()) {
        Ok(body)
    } else {
        Err(GatewayError::BadBackendReply)
    }
}

} // verus!
