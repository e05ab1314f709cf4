use eshop::gateway::{
    admission, bearer_token, route_access, Access,
    downstream_status, is_hop_by_hop, missing_config_var, resolve_target, strip_hop_by_hop,
    upstream_headers, upstream_url, Config, MAX_BODY_BYTES,
};

fn env() -> Vec<(String, String)> {
    vec![
        ("CATALOG_SERVICE_URL".into(), "http://catalog:3000".into()),
        ("BASKET_SERVICE_URL".into(), "http://basket:3001".into()),
        ("ORDERING_SERVICE_URL".into(), "http://ordering:3002".into()),
        ("IDENTITY_SERVICE_URL".into(), "http://identity:3003".into()),
        ("JWT_SECRET".into(), "s3cret".into()),
        ("CATALOG_SERVICE_URL".into(), "http://shadowed".into()),
    ]
}

#[test]
fn config_from_environment() {
    let e = env();
    assert_eq!(missing_config_var(&e), None);
    let c = Config::from_env(&e);
    assert_eq!(c.catalog_url, "http://catalog:3000");
    assert_eq!(c.basket_url, "http://basket:3001");
    assert_eq!(c.ordering_url, "http://ordering:3002");
    assert_eq!(c.identity_url, "http://identity:3003");
    assert_eq!(c.jwt_secret, "s3cret");
}

#[test]
fn first_missing_variable_is_named() {
    let e: Vec<(String, String)> = env().into_iter().filter(|(k, _)| k != "BASKET_SERVICE_URL" && k != "JWT_SECRET").collect();
    assert_eq!(missing_config_var(&e), Some("BASKET_SERVICE_URL".to_string()));
    assert_eq!(missing_config_var(&vec![]), Some("CATALOG_SERVICE_URL".to_string()));
}

#[test]
fn routing_by_path_prefix() {
    let c = Config::from_env(&env());
    assert_eq!(resolve_target(&c, "/api/auth/login"), "http://identity:3003");
    assert_eq!(resolve_target(&c, "/api/products/3"), "http://catalog:3000");
    assert_eq!(resolve_target(&c, "/api/categories"), "http://catalog:3000");
    assert_eq!(resolve_target(&c, "/api/basket/1"), "http://basket:3001");
    assert_eq!(resolve_target(&c, "/api/orders/user/2"), "http://ordering:3002");
    assert_eq!(resolve_target(&c, "/health"), "http://catalog:3000");
}

#[test]
fn hop_by_hop_headers() {
    for n in ["connection", "keep-alive", "transfer-encoding", "te", "trailer", "upgrade", "proxy-authorization", "host"] {
        assert!(is_hop_by_hop(n));
    }
    assert!(!is_hop_by_hop("content-type"));
    assert!(!is_hop_by_hop("authorization"));
}

#[test]
fn upstream_address() {
    assert_eq!(upstream_url("http://basket:3001", Some("/api/basket/1?x=2")), "http://basket:3001/api/basket/1?x=2");
    assert_eq!(upstream_url("http://basket:3001", None), "http://basket:3001/");
}

fn h(n: &str, v: &[u8]) -> (String, Vec<u8>) {
    (n.to_string(), v.to_vec())
}

#[test]
fn headers_passed_on() {
    let hs = vec![h("host", b"gw"), h("content-type", b"application/json"), h("connection", b"close"), h("accept", &[0xff, 0x01])];
    assert_eq!(strip_hop_by_hop(&hs), vec![h("content-type", b"application/json"), h("accept", &[0xff, 0x01])]);
    assert_eq!(
        upstream_headers(&hs, Some(-15)),
        vec![h("content-type", b"application/json"), h("accept", &[0xff, 0x01]), h("x-user-id", b"-15")]
    );
    assert_eq!(upstream_headers(&hs, None), strip_hop_by_hop(&hs));
}

#[test]
fn statuses_passed_back() {
    assert_eq!(downstream_status(201), 201);
    assert_eq!(downstream_status(999), 999);
    assert_eq!(downstream_status(99), 500);
    assert_eq!(downstream_status(1000), 500);
    assert_eq!(MAX_BODY_BYTES, 10 * 1024 * 1024);
}

#[test]
fn route_table() {
    for p in ["/api/auth/register", "/api/auth/login"] {
        assert_eq!(route_access("POST", p), Some(Access::Public), "{p}");
    }
    for p in ["/api/products", "/api/products/4", "/api/categories", "/api/categories/1/x"] {
        assert_eq!(route_access("GET", p), Some(Access::Public), "{p}");
        assert_eq!(route_access("HEAD", p), Some(Access::Public), "{p}");
        for m in ["POST", "PUT", "DELETE", "PATCH"] {
            assert_eq!(route_access(m, p), Some(Access::Protected), "{m} {p}");
        }
    }
    for p in ["/api/auth/me", "/api/basket/3", "/api/basket/3/9", "/api/orders", "/api/orders/5/status"] {
        assert_eq!(route_access("GET", p), Some(Access::Protected), "{p}");
        assert_eq!(route_access("POST", p), Some(Access::Protected), "{p}");
    }
    for p in ["/", "/api/basket", "/api/basket/", "/api/products/", "/api/auth", "/api/auth/logout", "/health"] {
        assert_eq!(route_access("GET", p), None, "{p}");
    }
}

#[test]
fn bearer_tokens() {
    assert_eq!(bearer_token("Bearer abc.def"), Some("abc.def".to_string()));
    assert_eq!(bearer_token("Bearer "), Some(String::new()));
    assert_eq!(bearer_token("Basic abc"), None);
    assert_eq!(bearer_token("bearer abc"), None);
}

#[test]
fn admission_rules() {
    assert_eq!(admission(Access::Public, None), Ok(None));
    assert_eq!(admission(Access::Public, Some(3)), Ok(None));
    assert_eq!(admission(Access::Protected, Some(3)), Ok(Some(3)));
    assert_eq!(admission(Access::Protected, None), Err(401));
}
