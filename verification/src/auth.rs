//! Bearer tokens.

use std::sync::Arc;

use vstd::prelude::*;
use vstd::string::*;
use vstd::utf8::*;

use crate::text::{has_prefix, same_text, starts_with, views};

verus! {

/// The tokens that are let in.
#[derive(Debug, Clone)]
pub struct AuthState {
    tokens: Arc<Vec<String>>,
    enabled: bool,
}

/// What an `AuthState` lets in.
pub struct AuthView {
    pub tokens: Seq<Seq<char>>,
    pub enabled: bool,
}

impl View for AuthState {
    type V = AuthView;

    closed spec fn view(&self) -> AuthView {
        AuthView { tokens: views(self.tokens@), enabled: self.enabled }
    }
}

/// A token is let in where it is listed, and any where the check is off.
pub open spec fn lets_in(a: AuthView, token: Seq<char>) -> bool {
    !a.enabled || a.tokens.contains(token)
}

impl AuthState {
    pub fn new(tokens: Vec<String>, enabled: bool) -> (r: Self)
        ensures
            r@ == (AuthView { tokens: views(tokens@), enabled }),
    {
        AuthState { tokens: Arc::new(tokens), enabled }
    }

    /// Lets every request in.
    pub fn disabled() -> (r: Self)
        ensures
            r@ == (AuthView { tokens: Seq::empty(), enabled: false }),
    {
        let tokens: Vec<String> = Vec::new();
        assert(views(tokens@) =~= Seq::<Seq<char>>::empty());
        AuthState::new(tokens, false)
    }

    pub fn is_enabled(&self) -> (r: bool)
        ensures
            r == self@.enabled,
    {
        self.enabled
    }

    /// Whether a token is let in. Tokens of one length are compared in the same time whatever they
    /// hold.
    pub fn accepts(&self, presented: &str) -> (r: bool)
        ensures
            r == lets_in(self@, presented@),
    {
        if !self.enabled {
            return true;
        }
        let mut i: usize = 0;
        while i < self.tokens.len()
            invariant
                i <= self.tokens@.len(),
                forall|j: int| 0 <= j < i ==> (#[trigger] self.tokens@[j])@ != presented@,
            decreases self.tokens@.len() - i,
        {
            proof {
                encode_utf8_decode_utf8(self.tokens@[i as int]@);
                encode_utf8_decode_utf8(presented@);
            }
            if ct_eq(self.tokens[i].as_str().as_bytes(), presented.as_bytes()) {
                assert(self@.tokens[i as int] == presented@);
                return true;
            }
            i = i + 1;
        }
        proof {
            if self@.tokens.contains(presented@) {
                let j = self@.tokens.index_of(presented@);
                assert(self.tokens@[j]@ == presented@);
            }
        }
        false
    }
}

/// Equality of bytes without a short cut at the first difference.
pub fn ct_eq(a: &[u8], b: &[u8]) -> (r: bool)
    ensures
        r == (a@ == b@),
{
    if a.len() != b.len() {
        return false;
    }
    let mut diff: u8 = 0;
    let mut i: usize = 0;
    while i < a.len()
        invariant
            i <= a@.len(),
            a@.len() == b@.len(),
            diff == 0 <==> forall|j: int| 0 <= j < i ==> a@[j] == b@[j],
        decreases a@.len() - i,
    {
        let x: u8 = a[i];
        let y: u8 = b[i];
        let next: u8 = diff | (x ^ y);
        assert(next == 0 <==> diff == 0 && x == y) by (bit_vector)
            requires
                next == diff | (x ^ y),
        ;
        diff = next;
        i = i + 1;
    }
    assert(diff == 0 ==> a@ =~= b@);
    diff == 0
}

/// The token of an `Authorization` header, whose scheme is written exactly `Bearer`.
pub open spec fn bearer_token(header: Option<Seq<char>>) -> Option<Seq<char>> {
    match header {
        Some(v) => if has_prefix(v, "Bearer "@) {
            Some(v.skip("Bearer "@.len() as int))
        } else {
            None
        },
        None => None,
    }
}

/// Takes the token out of an `Authorization` header.
pub fn extract_bearer<'a>(header_value: Option<&'a str>) -> (r: Option<&'a str>)
    ensures
        crate::json::found_text(r) == bearer_token(crate::json::found_text(header_value)),
{
    match header_value {
        Some(v) => if starts_with(v, "Bearer ") {
            let head: usize = "Bearer ".unicode_len();
            let all: usize = v.unicode_len();
            Some(v.substring_char(head, all))
        } else {
            None
        },
        None => None,
    }
}

/// Probes are open to all.
pub open spec fn public_path(path: Seq<char>) -> bool {
    path == "/health"@ || has_prefix(path, "/health/"@) || path == "/metrics"@
}

/// Whether a path is open to all.
pub fn is_public_path(path: &str) -> (r: bool)
    ensures
        r == public_path(path@),
{
    same_text(path, "/health") || starts_with(path, "/health/") || same_text(path, "/metrics")
}

/// A REST request goes through: its path is public, the check is off, or its token is let in.
pub open spec fn rest_allowed(a: AuthView, path: Seq<char>, header: Option<Seq<char>>) -> bool {
    public_path(path) || !a.enabled || (bearer_token(header) is Some && lets_in(
        a,
        bearer_token(header)->0,
    ))
}

/// Decides whether a REST request goes through.
pub fn rest_auth(state: &AuthState, path: &str, header: Option<&str>) -> (r: bool)
    ensures
        r == rest_allowed(state@, path@, crate::json::found_text(header)),
{
    if is_public_path(path) || !state.is_enabled() {
        return true;
    }
    match extract_bearer(header) {
        Some(token) => state.accepts(token),
        None => false,
    }
}

/// What a gRPC request that is refused is told.
#[derive(Debug, Clone, Copy, PartialEq, Eq, Structural)]
pub enum GrpcRefusal {
    MissingToken,
    InvalidToken,
}

/// What a gRPC request is told, where it is refused.
pub open spec fn grpc_refusal(a: AuthView, header: Option<Seq<char>>) -> Option<GrpcRefusal> {
    if !a.enabled {
        None
    } else {
        match bearer_token(header) {
            None => Some(GrpcRefusal::MissingToken),
            Some(token) => if lets_in(a, token) {
                None
            } else {
                Some(GrpcRefusal::InvalidToken)
            },
        }
    }
}

/// Decides whether a gRPC request goes through, and what it is told otherwise.
pub fn grpc_auth(state: &AuthState, header: Option<&str>) -> (r: Result<(), GrpcRefusal>)
    ensures
        (match r {
            Ok(_) => None,
            Err(e) => Some(e),
        }) == grpc_refusal(state@, crate::json::found_text(header)),
{
    if !state.is_enabled() {
        return Ok(());
    }
    match extract_bearer(header) {
        None => Err(GrpcRefusal::MissingToken),
        Some(token) => if state.accepts(token) {
            Ok(())
        } else {
            Err(GrpcRefusal::InvalidToken)
        },
    }
}

impl GrpcRefusal {
    /// The text of the refusal.
    pub fn message(self) -> (r: &'static str)
        ensures
            r@ == match self {
                GrpcRefusal::MissingToken => "missing bearer token"@,
                GrpcRefusal::InvalidToken => "invalid bearer token"@,
            },
    {
        match self {
            GrpcRefusal::MissingToken => "missing bearer token",
            GrpcRefusal::InvalidToken => "invalid bearer token",
        }
    }
}

/// With the check off everything goes through.
pub proof fn law_disabled_lets_everything_in(
    a: AuthView,
    path: Seq<char>,
    header: Option<Seq<char>>,
    token: Seq<char>,
)
    requires
        !a.enabled,
    ensures
        lets_in(a, token),
        rest_allowed(a, path, header),
        grpc_refusal(a, header) is None,
{
}

/// With the check on, what is not public needs a listed token behind the word `Bearer`, on both
/// sides alike.
pub proof fn law_enabled_needs_a_listed_token(
    a: AuthView,
    path: Seq<char>,
    header: Option<Seq<char>>,
)
    requires
        a.enabled,
        !public_path(path),
    ensures
        rest_allowed(a, path, header) <==> exists|t: Seq<char>|
            #![trigger a.tokens.contains(t)]
            a.tokens.contains(t) && header == Some("Bearer "@ + t),
        rest_allowed(a, path, header) <==> grpc_refusal(a, header) is None,
{
    if header is Some && has_prefix(header->0, "Bearer "@) {
        let v = header->0;
        let t = v.skip("Bearer "@.len() as int);
        assert(v =~= "Bearer "@ + t);
        assert forall|u: Seq<char>|
            #![trigger a.tokens.contains(u)]
            header == Some("Bearer "@ + u) implies u == t by {
            assert(("Bearer "@ + u).skip("Bearer "@.len() as int) =~= u);
        }
    } else {
        assert forall|u: Seq<char>|
            #![trigger a.tokens.contains(u)]
            header != Some("Bearer "@ + u) by {
            assert(("Bearer "@ + u).take("Bearer "@.len() as int) =~= "Bearer "@);
        }
    }
}

/// The paths that need no token are "/health", what stands below it, and "/metrics".
pub proof fn law_public_paths(path: Seq<char>)
    ensures
        public_path(path) <==> {
            ||| path == "/health"@
            ||| path == "/metrics"@
            ||| exists|rest: Seq<char>| path == #[trigger] ("/health/"@ + rest)
        },
{
    let p = "/health/"@;
    if has_prefix(path, p) {
        assert(path =~= p + path.skip(p.len() as int));
    }
    if exists|rest: Seq<char>| path == #[trigger] (p + rest) {
        let rest = choose|rest: Seq<char>| path == #[trigger] (p + rest);
        assert((p + rest).take(p.len() as int) =~= p);
    }
}

/// A call is refused for want of a token exactly where it shows none behind "Bearer ", and for a
/// wrong one exactly where it shows one that is not listed.
pub proof fn law_refusals_have_their_cause(a: AuthView, header: Option<Seq<char>>)
    requires
        a.enabled,
    ensures
        grpc_refusal(a, header) == Some(GrpcRefusal::MissingToken) <==> forall|t: Seq<char>|
            header != Some(#[trigger] ("Bearer "@ + t)),
        grpc_refusal(a, header) == Some(GrpcRefusal::InvalidToken) <==> exists|t: Seq<char>|
            header == Some(#[trigger] ("Bearer "@ + t)) && !a.tokens.contains(t),
{
    let p = "Bearer "@;
    match header {
        Some(v) => {
            if has_prefix(v, p) {
                assert(v =~= p + v.skip(p.len() as int));
            }
            assert forall|t: Seq<char>| v == #[trigger] (p + t) implies has_prefix(v, p) && v.skip(
                p.len() as int,
            ) == t by {
                assert((p + t).take(p.len() as int) =~= p);
                assert((p + t).skip(p.len() as int) =~= t);
            }
        },
        None => {},
    }
}

} // verus!
