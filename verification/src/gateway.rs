//! The API gateway: its configuration, which service a path goes to, and how
//! a request and its answer are passed through.
use crate::http::UNAUTHORIZED;
use crate::text::decimal_string;
use crate::text::decimal_chars;
use vstd::prelude::*;
use vstd::utf8::encode_utf8;

verus! {

/// The largest request body the gateway passes on: 10 MiB.
pub const MAX_BODY_BYTES: usize = 10485760;

/// `str::starts_with` with a string prefix: whether `prefix` is a prefix of
/// `s`, as its documentation states.
#[verifier::external_body]
fn str_starts_with(s: &str, prefix: &str) -> (b: bool)
    ensures
        b == prefix@.is_prefix_of(s@),
{
    s.starts_with(prefix)
}

/// `==` on string slices: whether the two hold the same characters, as its
/// documentation states.
#[verifier::external_body]
fn str_eq(a: &str, b: &str) -> (r: bool)
    ensures
        r == (a@ == b@),
{
    a == b
}

/// Where the gateway sends requests, and the key that tokens are signed with.
#[derive(Debug)]
pub struct Config {
    pub catalog_url: String,
    pub basket_url: String,
    pub ordering_url: String,
    pub identity_url: String,
    pub jwt_secret: String,
}

/// The value of `key` in an environment given as (name, value) pairs: the
/// first pair with that name.
pub open spec fn env_value(env: Seq<(String, String)>, key: Seq<char>) -> Option<Seq<char>>
    decreases env.len(),
{
    if env.len() == 0 {
        None
    } else if env[0].0@ == key {
        Some(env[0].1@)
    } else {
        env_value(env.drop_first(), key)
    }
}

/// Looking a variable up: the value of the first pair with that name; no
/// value when no pair has it.
pub proof fn lemma_env_first_match(env: Seq<(String, String)>, key: Seq<char>, i: int)
    ensures
        (0 <= i < env.len() && env[i].0@ == key && forall|j: int|
            0 <= j < i ==> (#[trigger] env[j]).0@ != key) ==> env_value(env, key) == Some(env[i].1@),
        (forall|j: int| 0 <= j < env.len() ==> (#[trigger] env[j]).0@ != key) ==> env_value(env, key)
            is None,
    decreases env.len(),
{
    if env.len() > 0 {
        let rest = env.drop_first();
        assert forall|j: int| 0 <= j < rest.len() implies rest[j] == env[j + 1] by {}
        if 0 <= i < env.len() && env[i].0@ == key && forall|j: int|
            0 <= j < i ==> (#[trigger] env[j]).0@ != key {
            if i > 0 {
                assert(env[0].0@ != key);
                assert forall|j: int| 0 <= j < i - 1 implies (#[trigger] rest[j]).0@ != key by {
                    assert(env[j + 1].0@ != key);
                }
                lemma_env_first_match(rest, key, i - 1);
            }
        }
        if forall|j: int| 0 <= j < env.len() ==> (#[trigger] env[j]).0@ != key {
            assert(env[0].0@ != key);
            assert forall|j: int| 0 <= j < rest.len() implies (#[trigger] rest[j]).0@ != key by {
                assert(env[j + 1].0@ != key);
            }
            lemma_env_first_match(rest, key, -1);
        }
    }
}

/// Looks up a variable in the environment.
pub fn env_lookup(env: &Vec<(String, String)>, key: &str) -> (v: Option<String>)
    ensures
        match v {
            Some(s) => env_value(env@, key@) == Some(s@),
            None => env_value(env@, key@) is None,
        },
{
    let mut i: usize = 0;
    assert(env@.skip(0) =~= env@);
    while i < env.len()
        invariant
            i <= env.len(),
            env_value(env@.skip(i as int), key@) == env_value(env@, key@),
        decreases env.len() - i,
    {
        assert(env@.skip(i as int)[0] == env@[i as int]);
        assert(env@.skip(i as int).drop_first() =~= env@.skip(i + 1));
        if str_eq(env[i].0.as_str(), key) {
            return Some(env[i].1.clone());
        }
        i = i + 1;
    }
    assert(env@.skip(i as int).len() == 0);
    None
}

/// The environment variables that the gateway reads, in the order it reads
/// them.
pub open spec fn config_keys() -> Seq<Seq<char>> {
    seq![
        "CATALOG_SERVICE_URL"@,
        "BASKET_SERVICE_URL"@,
        "ORDERING_SERVICE_URL"@,
        "IDENTITY_SERVICE_URL"@,
        "JWT_SECRET"@,
    ]
}

/// Every variable the gateway needs is set.
pub open spec fn config_complete(env: Seq<(String, String)>) -> bool {
    forall|i: int| 0 <= i < config_keys().len() ==> (#[trigger] env_value(env, config_keys()[i])) is Some
}

/// The first variable the gateway needs that is not set, if any; the
/// gateway does not start without it.
pub fn missing_config_var(env: &Vec<(String, String)>) -> (m: Option<String>)
    ensures
        m is None <==> config_complete(env@),
        m matches Some(k) ==> exists|i: int|
            0 <= i < config_keys().len() && k@ == config_keys()[i] && env_value(env@, config_keys()[i])
                is None && forall|j: int|
                0 <= j < i ==> (#[trigger] env_value(env@, config_keys()[j])) is Some,
{
    let keys: [&str; 5] = [
        "CATALOG_SERVICE_URL",
        "BASKET_SERVICE_URL",
        "ORDERING_SERVICE_URL",
        "IDENTITY_SERVICE_URL",
        "JWT_SECRET",
    ];
    assert(keys@[0]@ == config_keys()[0]);
    assert(keys@[1]@ == config_keys()[1]);
    assert(keys@[2]@ == config_keys()[2]);
    assert(keys@[3]@ == config_keys()[3]);
    assert(keys@[4]@ == config_keys()[4]);
    let mut i: usize = 0;
    while i < 5
        invariant
            i <= 5,
            forall|j: int| 0 <= j < 5 ==> (#[trigger] keys@[j])@ == config_keys()[j],
            forall|j: int| 0 <= j < i ==> (#[trigger] env_value(env@, config_keys()[j])) is Some,
        decreases 5 - i,
    {
        let key = keys[i];
        if env_lookup(env, key).is_none() {
            return Some(String::from_str(key));
        }
        i = i + 1;
    }
    None
}

impl Config {
    /// The configuration read from the environment: each field from its
    /// variable (`CATALOG_SERVICE_URL`, `BASKET_SERVICE_URL`,
    /// `ORDERING_SERVICE_URL`, `IDENTITY_SERVICE_URL`, `JWT_SECRET`).
    pub fn from_env(env: &Vec<(String, String)>) -> (c: Config)
        requires
            config_complete(env@),
        ensures
            Some(c.catalog_url@) == env_value(env@, config_keys()[0]),
            Some(c.basket_url@) == env_value(env@, config_keys()[1]),
            Some(c.ordering_url@) == env_value(env@, config_keys()[2]),
            Some(c.identity_url@) == env_value(env@, config_keys()[3]),
            Some(c.jwt_secret@) == env_value(env@, config_keys()[4]),
    {
        assert(env_value(env@, config_keys()[0]) is Some);
        assert(env_value(env@, config_keys()[1]) is Some);
        assert(env_value(env@, config_keys()[2]) is Some);
        assert(env_value(env@, config_keys()[3]) is Some);
        assert(env_value(env@, config_keys()[4]) is Some);
        Config {
            catalog_url: var(env, "CATALOG_SERVICE_URL"),
            basket_url: var(env, "BASKET_SERVICE_URL"),
            ordering_url: var(env, "ORDERING_SERVICE_URL"),
            identity_url: var(env, "IDENTITY_SERVICE_URL"),
            jwt_secret: var(env, "JWT_SECRET"),
        }
    }
}

fn var(env: &Vec<(String, String)>, key: &str) -> (v: String)
    requires
        env_value(env@, key@) is Some,
    ensures
        Some(v@) == env_value(env@, key@),
{
    match env_lookup(env, key) {
        Some(v) => v,
        None => String::new(),
    }
}

/// Which requests the gateway lets through without a token, and which only
/// with one.
#[derive(Clone, Copy, Debug, PartialEq, Eq, Structural)]
pub enum Access {
    Public,
    Protected,
}

/// `path` lies strictly below `prefix`: it starts with it and has more
/// after it (a route ending in a wildcard segment).
pub open spec fn strictly_under(prefix: Seq<char>, path: Seq<char>) -> bool {
    prefix.is_prefix_of(path) && path.len() > prefix.len()
}

/// The catalog's paths: `/api/products`, `/api/products/…`,
/// `/api/categories`, `/api/categories/…`.
pub open spec fn catalog_path(path: Seq<char>) -> bool {
    path == "/api/products"@ || strictly_under("/api/products/"@, path) || path
        == "/api/categories"@ || strictly_under("/api/categories/"@, path)
}

/// Methods that only read.
pub open spec fn reads_only(method: Seq<char>) -> bool {
    method == "GET"@ || method == "HEAD"@
}

/// The gateway's routes. Public: `/api/auth/register`, `/api/auth/login`,
/// and reading the catalog (`GET` or `HEAD` on `/api/products`,
/// `/api/products/…`, `/api/categories`, `/api/categories/…`). Protected (a
/// valid token required): any other method on the catalog's paths
/// (creating, changing and deleting products and categories),
/// `/api/auth/me`, `/api/basket/…`, `/api/orders`, `/api/orders/…`. Any
/// other path has no route.
pub open spec fn access_for(method: Seq<char>, path: Seq<char>) -> Option<Access> {
    if path == "/api/auth/register"@ || path == "/api/auth/login"@ {
        Some(Access::Public)
    } else if catalog_path(path) {
        if reads_only(method) {
            Some(Access::Public)
        } else {
            Some(Access::Protected)
        }
    } else if path == "/api/auth/me"@ || strictly_under("/api/basket/"@, path) || path
        == "/api/orders"@ || strictly_under("/api/orders/"@, path) {
        Some(Access::Protected)
    } else {
        None
    }
}

/// Changing the catalog, and everything about baskets, orders and the
/// user's own account, needs a token; only reading the catalog, registering
/// and logging in do not.
pub proof fn lemma_writes_and_accounts_need_a_token(method: Seq<char>, path: Seq<char>)
    ensures
        catalog_path(path) && !reads_only(method) ==> access_for(method, path) == Some(
            Access::Protected,
        ),
        strictly_under("/api/basket/"@, path) || strictly_under("/api/orders/"@, path) || path
            == "/api/orders"@ || path == "/api/auth/me"@ ==> access_for(method, path) == Some(
            Access::Protected,
        ),
        access_for(method, path) == Some(Access::Public) ==> (path == "/api/auth/register"@ || path
            == "/api/auth/login"@ || (catalog_path(path) && reads_only(method))),
{
    reveal_strlit("/api/auth/register");
    reveal_strlit("/api/auth/login");
    reveal_strlit("/api/auth/me");
    reveal_strlit("/api/orders");
    reveal_strlit("/api/products");
    reveal_strlit("/api/categories");
    reveal_strlit("/api/basket/");
    reveal_strlit("/api/orders/");
    reveal_strlit("/api/products/");
    reveal_strlit("/api/categories/");
    // The sixth character tells the path families apart.
    let c = path[5];
    if path == "/api/auth/register"@ || path == "/api/auth/login"@ || path == "/api/auth/me"@ {
        assert(c == 'a');
    }
    if catalog_path(path) {
        if path == "/api/products"@ {
            assert(c == 'p');
        } else if strictly_under("/api/products/"@, path) {
            assert(path.subrange(0, 14)[5] == c);
            assert(c == 'p');
        } else if path == "/api/categories"@ {
            assert(c == 'c');
        } else {
            assert(path.subrange(0, 16)[5] == c);
            assert(c == 'c');
        }
    }
    if strictly_under("/api/basket/"@, path) {
        assert(path.subrange(0, 12)[5] == c);
        assert(c == 'b');
    }
    if strictly_under("/api/orders/"@, path) {
        assert(path.subrange(0, 12)[5] == c);
        assert(c == 'o');
    }
    if path == "/api/orders"@ {
        assert(c == 'o');
    }
}

/// The route table in full. Registering and logging in are public for any
/// method. On `/api/products`, `/api/categories` and any longer path below
/// `/api/products/` or `/api/categories/`, `GET` and `HEAD` are public and
/// every other method needs a token. `/api/auth/me`, `/api/orders` and any
/// longer path below `/api/basket/` or `/api/orders/` need a token. Every
/// other path has no route.
pub proof fn lemma_route_table(method: Seq<char>, path: Seq<char>)
    ensures
        (path == "/api/auth/register"@ || path == "/api/auth/login"@) ==> access_for(method, path)
            == Some(Access::Public),
        ({
            ||| path == "/api/products"@
            ||| path == "/api/categories"@
            ||| ("/api/products/"@.is_prefix_of(path) && path.len() > 14)
            ||| ("/api/categories/"@.is_prefix_of(path) && path.len() > 16)
        }) ==> access_for(method, path) == if method == "GET"@ || method == "HEAD"@ {
            Some(Access::Public)
        } else {
            Some(Access::Protected)
        },
        ({
            ||| path == "/api/auth/me"@
            ||| path == "/api/orders"@
            ||| ("/api/basket/"@.is_prefix_of(path) && path.len() > 12)
            ||| ("/api/orders/"@.is_prefix_of(path) && path.len() > 12)
        }) ==> access_for(method, path) == Some(Access::Protected),
        !({
            ||| path == "/api/auth/register"@
            ||| path == "/api/auth/login"@
            ||| path == "/api/auth/me"@
            ||| path == "/api/products"@
            ||| path == "/api/categories"@
            ||| path == "/api/orders"@
            ||| ("/api/products/"@.is_prefix_of(path) && path.len() > 14)
            ||| ("/api/categories/"@.is_prefix_of(path) && path.len() > 16)
            ||| ("/api/basket/"@.is_prefix_of(path) && path.len() > 12)
            ||| ("/api/orders/"@.is_prefix_of(path) && path.len() > 12)
        }) ==> access_for(method, path) is None,
{
    reveal_strlit("/api/products/");
    reveal_strlit("/api/categories/");
    reveal_strlit("/api/basket/");
    reveal_strlit("/api/orders/");
    lemma_writes_and_accounts_need_a_token(method, path);
}

fn below(path: &str, prefix: &str) -> (b: bool)
    ensures
        b == strictly_under(prefix@, path@),
{
    str_starts_with(path, prefix) && path.unicode_len() > prefix.unicode_len()
}

/// The route of a request (by its method and path), if it has one.
pub fn route_access(method: &str, path: &str) -> (a: Option<Access>)
    ensures
        a == access_for(method@, path@),
{
    if str_eq(path, "/api/auth/register") || str_eq(path, "/api/auth/login") {
        Some(Access::Public)
    } else if str_eq(path, "/api/products") || below(path, "/api/products/") || str_eq(
        path,
        "/api/categories",
    ) || below(path, "/api/categories/") {
        if str_eq(method, "GET") || str_eq(method, "HEAD") {
            Some(Access::Public)
        } else {
            Some(Access::Protected)
        }
    } else if str_eq(path, "/api/auth/me") || below(path, "/api/basket/") || str_eq(
        path,
        "/api/orders",
    ) || below(path, "/api/orders/") {
        Some(Access::Protected)
    } else {
        None
    }
}

/// The token of an `Authorization` header value of the form
/// `Bearer <token>`.
pub fn bearer_token(value: &str) -> (t: Option<String>)
    ensures
        match t {
            Some(tok) => value@ == "Bearer "@ + tok@,
            None => !"Bearer "@.is_prefix_of(value@),
        },
{
    if str_starts_with(value, "Bearer ") {
        proof {
            reveal_strlit("Bearer ");
        }
        let n = value.unicode_len();
        let rest = value.substring_char(7, n);
        assert(value@ =~= "Bearer "@ + rest@);
        Some(String::from_str(rest))
    } else {
        None
    }
}

/// Whether a request is let through, and for which user: public routes
/// pass without a user; protected routes pass with the user whose valid
/// token came with the request (`user`), and are refused with 401 without
/// one.
pub fn admission(access: Access, user: Option<i32>) -> (r: Result<Option<i32>, u16>)
    ensures
        r == match access {
            Access::Public => Ok::<Option<i32>, u16>(None),
            Access::Protected => match user {
                Some(id) => Ok::<Option<i32>, u16>(Some(id)),
                None => Err::<Option<i32>, u16>(UNAUTHORIZED),
            },
        },
{
    match access {
        Access::Public => Ok(None),
        Access::Protected => match user {
            Some(id) => Ok(Some(id)),
            None => Err(UNAUTHORIZED),
        },
    }
}

/// The service a request path belongs to: `/api/auth…` to identity,
/// `/api/products…` and `/api/categories…` to the catalog, `/api/basket…`
/// to the basket service, `/api/orders…` to ordering, anything else to the
/// catalog.
pub open spec fn target_for(config: Config, path: Seq<char>) -> Seq<char> {
    if "/api/auth"@.is_prefix_of(path) {
        config.identity_url@
    } else if "/api/products"@.is_prefix_of(path) || "/api/categories"@.is_prefix_of(path) {
        config.catalog_url@
    } else if "/api/basket"@.is_prefix_of(path) {
        config.basket_url@
    } else if "/api/orders"@.is_prefix_of(path) {
        config.ordering_url@
    } else {
        config.catalog_url@
    }
}

proof fn lemma_sixth_char(p: Seq<char>, path: Seq<char>)
    requires
        p.len() > 5,
        p.is_prefix_of(path),
    ensures
        path[5] == p[5],
{
    assert(path.subrange(0, p.len() as int)[5] == path[5]);
}

/// Routing by path prefix: every path under `/api/auth` (the bare prefix
/// included) goes to the identity service, under `/api/products` or
/// `/api/categories` to the catalog, under `/api/basket` to the basket
/// service, under `/api/orders` to ordering, and every other path to the
/// catalog.
pub proof fn lemma_routes_by_prefix(config: Config, path: Seq<char>)
    ensures
        "/api/auth"@.is_prefix_of(path) ==> target_for(config, path) == config.identity_url@,
        "/api/products"@.is_prefix_of(path) ==> target_for(config, path) == config.catalog_url@,
        "/api/categories"@.is_prefix_of(path) ==> target_for(config, path) == config.catalog_url@,
        "/api/basket"@.is_prefix_of(path) ==> target_for(config, path) == config.basket_url@,
        "/api/orders"@.is_prefix_of(path) ==> target_for(config, path) == config.ordering_url@,
        !"/api/auth"@.is_prefix_of(path) && !"/api/products"@.is_prefix_of(path)
            && !"/api/categories"@.is_prefix_of(path) && !"/api/basket"@.is_prefix_of(path)
            && !"/api/orders"@.is_prefix_of(path) ==> target_for(config, path) == config.catalog_url@,
{
    reveal_strlit("/api/auth");
    reveal_strlit("/api/products");
    reveal_strlit("/api/categories");
    reveal_strlit("/api/basket");
    reveal_strlit("/api/orders");
    // The sixth character tells the five prefixes apart.
    if "/api/auth"@.is_prefix_of(path) {
        lemma_sixth_char("/api/auth"@, path);
    }
    if "/api/products"@.is_prefix_of(path) {
        lemma_sixth_char("/api/products"@, path);
    }
    if "/api/categories"@.is_prefix_of(path) {
        lemma_sixth_char("/api/categories"@, path);
    }
    if "/api/basket"@.is_prefix_of(path) {
        lemma_sixth_char("/api/basket"@, path);
    }
    if "/api/orders"@.is_prefix_of(path) {
        lemma_sixth_char("/api/orders"@, path);
    }
}

/// The base address of the service that serves `path`.
pub fn resolve_target<'a>(config: &'a Config, path: &str) -> (t: &'a str)
    ensures
        t@ == target_for(*config, path@),
{
    if str_starts_with(path, "/api/auth") {
        config.identity_url.as_str()
    } else if str_starts_with(path, "/api/products") || str_starts_with(path, "/api/categories") {
        config.catalog_url.as_str()
    } else if str_starts_with(path, "/api/basket") {
        config.basket_url.as_str()
    } else if str_starts_with(path, "/api/orders") {
        config.ordering_url.as_str()
    } else {
        config.catalog_url.as_str()
    }
}

/// The headers that belong to one connection and are not passed on.
pub open spec fn hop_by_hop_names() -> Set<Seq<char>> {
    set![
        "connection"@,
        "keep-alive"@,
        "transfer-encoding"@,
        "te"@,
        "trailer"@,
        "upgrade"@,
        "proxy-authorization"@,
        "host"@,
    ]
}

/// Whether a header (by its lower-case name) belongs to one connection.
pub fn is_hop_by_hop(name: &str) -> (b: bool)
    ensures
        b == hop_by_hop_names().contains(name@),
{
    str_eq(name, "connection") || str_eq(name, "keep-alive") || str_eq(name, "transfer-encoding")
        || str_eq(name, "te") || str_eq(name, "trailer") || str_eq(name, "upgrade") || str_eq(
        name,
        "proxy-authorization",
    ) || str_eq(name, "host")
}

/// The address a request is sent to: the service's base address followed
/// by the request's path and query, or by `/` when it has none.
pub fn upstream_url(target_base: &str, path_and_query: Option<&str>) -> (u: String)
    ensures
        u@ == target_base@ + match path_and_query {
            Some(pq) => pq@,
            None => "/"@,
        },
{
    let mut u = String::from_str(target_base);
    match path_and_query {
        Some(pq) => u.append(pq),
        None => u.append("/"),
    }
    u
}

/// A header: lower-case name and raw value.
pub type Header = (String, Vec<u8>);

pub open spec fn header_view(h: Header) -> (Seq<char>, Seq<u8>) {
    (h.0@, h.1@)
}

pub open spec fn headers_view(hs: Seq<Header>) -> Seq<(Seq<char>, Seq<u8>)> {
    hs.map_values(|h: Header| header_view(h))
}

pub open spec fn passes_on(h: (Seq<char>, Seq<u8>)) -> bool {
    !hop_by_hop_names().contains(h.0)
}

/// The headers that are passed on: all but the hop-by-hop ones, in order.
pub open spec fn end_to_end(hs: Seq<(Seq<char>, Seq<u8>)>) -> Seq<(Seq<char>, Seq<u8>)> {
    hs.filter(|h: (Seq<char>, Seq<u8>)| passes_on(h))
}

fn copy_bytes(v: &Vec<u8>) -> (r: Vec<u8>)
    ensures
        r@ == v@,
{
    let mut r: Vec<u8> = Vec::new();
    let mut i: usize = 0;
    while i < v.len()
        invariant
            i <= v.len(),
            r@ == v@.take(i as int),
        decreases v.len() - i,
    {
        r.push(v[i]);
        assert(r@ =~= v@.take(i + 1));
        i = i + 1;
    }
    assert(v@.take(i as int) =~= v@);
    r
}

/// The end-to-end headers, in order.
pub fn strip_hop_by_hop(headers: &Vec<Header>) -> (out: Vec<Header>)
    ensures
        headers_view(out@) == end_to_end(headers_view(headers@)),
{
    let ghost keep = |h: (Seq<char>, Seq<u8>)| passes_on(h);
    let mut out: Vec<Header> = Vec::new();
    let mut i: usize = 0;
    while i < headers.len()
        invariant
            i <= headers.len(),
            keep == (|h: (Seq<char>, Seq<u8>)| passes_on(h)),
            headers_view(out@) == headers_view(headers@.take(i as int)).filter(keep),
        decreases headers.len() - i,
    {
        proof {
            let pre = headers_view(headers@.take(i as int));
            pre.lemma_filter_push(header_view(headers@[i as int]), keep);
            assert(pre.push(header_view(headers@[i as int])) =~= headers_view(headers@.take(i + 1)));
        }
        if !is_hop_by_hop(headers[i].0.as_str()) {
            let name = headers[i].0.clone();
            let value = copy_bytes(&headers[i].1);
            let ghost before = out@;
            out.push((name, value));
            proof {
                assert(headers_view(out@) =~= headers_view(before).push(header_view(headers@[i as int])));
            }
        }
        i = i + 1;
    }
    proof {
        assert(headers@.take(i as int) =~= headers@);
    }
    out
}

/// The hop-by-hop headers are exactly these eight: `connection`,
/// `keep-alive`, `transfer-encoding`, `te`, `trailer`, `upgrade`,
/// `proxy-authorization`, `host`. A header is passed on exactly when its
/// name is none of them, so every other header (`user-agent`, `cookie`,
/// `accept`, …) reaches the service, and every header that is passed on was
/// in the request.
pub proof fn lemma_hop_by_hop_is_exactly_eight(name: Seq<char>, hs: Seq<(Seq<char>, Seq<u8>)>)
    ensures
        hop_by_hop_names().contains(name) <==> (name == "connection"@ || name == "keep-alive"@
            || name == "transfer-encoding"@ || name == "te"@ || name == "trailer"@ || name
            == "upgrade"@ || name == "proxy-authorization"@ || name == "host"@),
        forall|v: Seq<u8>|
            passes_on((name, v)) <==> !(name == "connection"@ || name == "keep-alive"@ || name
                == "transfer-encoding"@ || name == "te"@ || name == "trailer"@ || name
                == "upgrade"@ || name == "proxy-authorization"@ || name == "host"@),
        forall|i: int| 0 <= i < hs.len() && passes_on(hs[i]) ==> end_to_end(hs).contains(
            #[trigger] hs[i],
        ),
        forall|i: int| 0 <= i < end_to_end(hs).len() ==> hs.contains(#[trigger] end_to_end(hs)[i]),
{
    broadcast use vstd::seq_lib::group_filter_ensures;

    let keep = |h: (Seq<char>, Seq<u8>)| passes_on(h);
    assert forall|i: int| 0 <= i < hs.len() && passes_on(hs[i]) implies end_to_end(hs).contains(
        #[trigger] hs[i],
    ) by {
        hs.lemma_filter_contains(keep, i);
    }
    assert forall|i: int| 0 <= i < end_to_end(hs).len() implies hs.contains(
        #[trigger] end_to_end(hs)[i],
    ) by {
        assert(end_to_end(hs).contains(end_to_end(hs)[i]));
        hs.lemma_filter_contains_rev(keep, end_to_end(hs)[i]);
    }
}

/// The headers passed on keep their order: none from none, and a header at
/// the end is passed on at the end exactly when it is end-to-end.
pub proof fn lemma_end_to_end_keeps_order(hs: Seq<(Seq<char>, Seq<u8>)>, h: (Seq<char>, Seq<u8>))
    ensures
        end_to_end(Seq::<(Seq<char>, Seq<u8>)>::empty()).len() == 0,
        end_to_end(hs.push(h)) == if passes_on(h) {
            end_to_end(hs).push(h)
        } else {
            end_to_end(hs)
        },
{
    reveal(Seq::filter);
    hs.lemma_filter_push(h, |x: (Seq<char>, Seq<u8>)| passes_on(x));
}

/// No hop-by-hop header is passed on, in either direction: every header
/// that `strip_hop_by_hop` keeps is end-to-end, and the `x-user-id` header
/// that `upstream_headers` adds is end-to-end too.
pub proof fn lemma_no_hop_by_hop_passed_on(hs: Seq<(Seq<char>, Seq<u8>)>, user_id: int)
    ensures
        forall|i: int| 0 <= i < end_to_end(hs).len() ==> passes_on(#[trigger] end_to_end(hs)[i]),
        passes_on(user_header(user_id)),
{
    let keep = |h: (Seq<char>, Seq<u8>)| passes_on(h);
    assert forall|i: int| 0 <= i < end_to_end(hs).len() implies passes_on(
        #[trigger] end_to_end(hs)[i],
    ) by {
        hs.lemma_filter_pred(keep, i);
    }
    reveal_strlit("x-user-id");
    reveal_strlit("connection");
    reveal_strlit("keep-alive");
    reveal_strlit("transfer-encoding");
    reveal_strlit("te");
    reveal_strlit("trailer");
    reveal_strlit("upgrade");
    reveal_strlit("proxy-authorization");
    reveal_strlit("host");
    assert("x-user-id"@[0] != "connection"@[0]);
    assert("x-user-id"@ != "connection"@);
    assert("x-user-id"@[0] != "keep-alive"@[0]);
    assert("x-user-id"@ != "keep-alive"@);
    assert("x-user-id"@[0] != "transfer-encoding"@[0]);
    assert("x-user-id"@ != "transfer-encoding"@);
    assert("x-user-id"@[0] != "te"@[0]);
    assert("x-user-id"@ != "te"@);
    assert("x-user-id"@[0] != "trailer"@[0]);
    assert("x-user-id"@ != "trailer"@);
    assert("x-user-id"@[0] != "upgrade"@[0]);
    assert("x-user-id"@ != "upgrade"@);
    assert("x-user-id"@[0] != "proxy-authorization"@[0]);
    assert("x-user-id"@ != "proxy-authorization"@);
    assert("x-user-id"@[0] != "host"@[0]);
    assert("x-user-id"@ != "host"@);
}

/// The header that tells a service which user the gateway authenticated.
pub open spec fn user_header(user_id: int) -> (Seq<char>, Seq<u8>) {
    ("x-user-id"@, encode_utf8(decimal_chars(user_id)))
}

/// The headers sent on to a service: the end-to-end headers of the
/// request, then, for an authenticated user, `x-user-id` with the user's id
/// in decimal.
pub fn upstream_headers(headers: &Vec<Header>, user_id: Option<i32>) -> (out: Vec<Header>)
    ensures
        headers_view(out@) == match user_id {
            Some(id) => end_to_end(headers_view(headers@)).push(user_header(id as int)),
            None => end_to_end(headers_view(headers@)),
        },
{
    let mut out = strip_hop_by_hop(headers);
    match user_id {
        Some(id) => {
            let digits = decimal_string(id);
            let value = digits.as_str().as_bytes_vec();
            let ghost before = out@;
            out.push((String::from_str("x-user-id"), value));
            proof {
                assert(headers_view(out@) =~= headers_view(before).push(user_header(id as int)));
            }
        },
        None => {},
    }
    out
}

/// The status the gateway answers with for an upstream status code: the
/// code itself where it is a valid HTTP status (100 to 999), else 500.
pub fn downstream_status(upstream: u16) -> (s: u16)
    ensures
        s == if 100 <= upstream <= 999 {
            upstream
        } else {
            500
        },
{
    if 100 <= upstream && upstream <= 999 {
        upstream
    } else {
        500
    }
}

} // verus!
