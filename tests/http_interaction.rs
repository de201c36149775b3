use honeytrap_deception::http_interaction::{form_value, processing_delay_ms, route};
use honeytrap_deception::{HttpAttack, HttpInteractionHandler, HttpMethod, HttpRequest, Route};

fn request(method: HttpMethod, path: &str, body: Option<&str>) -> HttpRequest {
    HttpRequest {
        method,
        path: path.to_string(),
        headers: Vec::new(),
        body: body.map(|b| b.to_string()),
    }
}

#[test]
fn test_serve_homepage() {
    let mut handler = HttpInteractionHandler::new("test".to_string());
    let request = HttpRequest {
        method: HttpMethod::GET,
        path: "/".to_string(),
        headers: Vec::new(),
        body: None,
    };

    let response = handler.handle_request(request);
    assert_eq!(response.status, 200);
    assert!(response.body.contains("Welcome"));
}

#[test]
fn test_login_attempt() {
    let mut handler = HttpInteractionHandler::new("test".to_string());
    let request = HttpRequest {
        method: HttpMethod::POST,
        path: "/login".to_string(),
        headers: Vec::new(),
        body: Some("username=admin&password=test123".to_string()),
    };

    let response = handler.handle_request(request);
    assert_eq!(response.status, 401);
    assert_eq!(handler.get_stats().login_attempts, 1);
}

#[test]
fn login_post_is_refused_and_captured() {
    let mut handler = HttpInteractionHandler::new("s".to_string());
    let response = handler.handle_request(request(
        HttpMethod::POST,
        "/login",
        Some("username=admin&password=admin123"),
    ));
    assert_eq!(response.status, 401);
    assert_eq!(response.status_text, "Unauthorized");
    let stats = handler.get_stats();
    assert_eq!(stats.request_count, 1);
    assert_eq!(stats.captured_credentials, vec![("admin".to_string(), "admin123".to_string())]);
}

#[test]
fn captured_credentials_are_url_decoded() {
    let mut handler = HttpInteractionHandler::new("s".to_string());
    handler.handle_request(request(
        HttpMethod::POST,
        "/login",
        Some("password=p%40ss%20word&username=r%6Fot&x=1"),
    ));
    handler.handle_request(request(HttpMethod::POST, "/login", Some("other=1")));
    handler.handle_request(request(HttpMethod::POST, "/login", None));
    let stats = handler.get_stats();
    assert_eq!(stats.request_count, 3);
    assert_eq!(stats.login_attempts, 2);
    assert_eq!(
        stats.captured_credentials,
        vec![
            ("root".to_string(), "p@ss word".to_string()),
            (String::new(), String::new()),
        ]
    );
}

#[test]
fn form_values_take_the_last_setting() {
    assert_eq!(form_value("a=1&b=2&a=3", "a"), Some("3".to_string()));
    assert_eq!(form_value("a=1&b=x=y", "b"), Some("x=y".to_string()));
    assert_eq!(form_value("a&b", "a"), None);
    assert_eq!(form_value("", "a"), None);
    assert_eq!(form_value("a=", "a"), Some(String::new()));
}

#[test]
fn routes_and_statuses() {
    let mut handler = HttpInteractionHandler::new("s".to_string());
    let cases = [
        (HttpMethod::GET, "/login", 200, Route::LoginPage),
        (HttpMethod::GET, "/admin", 403, Route::AdminPage),
        (HttpMethod::GET, "/api/config", 200, Route::FakeConfig),
        (HttpMethod::GET, "/index.php", 404, Route::PhpProbe),
        (HttpMethod::GET, "/../../etc/passwd", 403, Route::DirectoryTraversal),
        (HttpMethod::GET, "/nothing", 404, Route::NotFound),
        (HttpMethod::PUT, "/", 404, Route::NotFound),
    ];
    for (method, path, status, expected) in cases {
        let req = request(method, path, None);
        assert_eq!(route(&req), expected);
        let response = handler.handle_request(req);
        assert_eq!(response.status, status);
    }
}

#[test]
fn config_leaks_fake_secrets_as_json() {
    let mut handler = HttpInteractionHandler::new("s".to_string());
    let response = handler.handle_request(request(HttpMethod::GET, "/api/config", None));
    assert!(response.body.contains("sk-fake-key-12345"));
    assert!(response.headers.contains(&("Content-Type".to_string(), "application/json".to_string())));
}

#[test]
fn every_response_has_the_standard_headers() {
    let mut handler = HttpInteractionHandler::new("s".to_string());
    let response = handler.handle_request(request(HttpMethod::GET, "/", None));
    assert_eq!(
        response.headers,
        vec![
            ("Content-Type".to_string(), "text/html".to_string()),
            ("Server".to_string(), "Apache/2.4.41 (Ubuntu)".to_string()),
            ("X-Powered-By".to_string(), "PHP/7.4.3".to_string()),
        ]
    );
}

#[test]
fn attack_signatures_in_path() {
    let handler = HttpInteractionHandler::new("s".to_string());
    let req = request(HttpMethod::GET, "/q?id=1' UNION SELECT <script>;|../", None);
    assert_eq!(
        handler.detect_attacks(&req),
        vec![
            HttpAttack::SqlInjection,
            HttpAttack::CrossSiteScripting,
            HttpAttack::CommandInjection,
            HttpAttack::DirectoryTraversal,
        ]
    );
    assert!(handler.detect_attacks(&request(HttpMethod::GET, "/", None)).is_empty());
    assert_eq!(
        handler.detect_attacks(&request(HttpMethod::GET, "/a?x=javascript:alert(1)", None)),
        vec![HttpAttack::CrossSiteScripting]
    );
}

#[test]
fn detection_never_changes_the_reply() {
    let mut handler = HttpInteractionHandler::new("s".to_string());
    let response = handler.handle_request(request(HttpMethod::GET, "/?q=<script>", None));
    assert_eq!(response.status, 404);
}

#[test]
fn delays() {
    assert_eq!(processing_delay_ms(&request(HttpMethod::GET, "/", None)), 50);
    assert_eq!(processing_delay_ms(&request(HttpMethod::POST, "/login", Some("a=b"))), 1050);
    assert_eq!(processing_delay_ms(&request(HttpMethod::POST, "/login", None)), 50);
}
