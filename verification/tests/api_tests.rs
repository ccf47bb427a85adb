use tensara::api::{api_url, normalize_api_base_url, DEFAULT_API_BASE_URL};

#[test]
fn normalizes_configured_api_base_url() {
    assert_eq!(
        normalize_api_base_url(Some(" http://localhost:3000/ ".to_string())),
        "http://localhost:3000"
    );
}

#[test]
fn defaults_to_production_api_base_url() {
    assert_eq!(normalize_api_base_url(None), "https://tensara.org");
}

#[test]
fn default_base_is_the_production_api() {
    assert_eq!(DEFAULT_API_BASE_URL, "https://tensara.org");
}

#[test]
fn strips_every_trailing_slash_and_surrounding_white_space() {
    assert_eq!(
        normalize_api_base_url(Some("\t https://example.org/// \n".to_string())),
        "https://example.org"
    );
}

#[test]
fn api_url_joins_base_and_route_with_one_slash() {
    assert_eq!(
        api_url(None, "/api/trpc/problems.getAll"),
        "https://tensara.org/api/trpc/problems.getAll"
    );
    assert_eq!(
        api_url(Some("http://localhost:3000/".to_string()), "//api/submissions/checker"),
        "http://localhost:3000/api/submissions/checker"
    );
    assert_eq!(
        api_url(Some("http://localhost:3000".to_string()), "api/x"),
        "http://localhost:3000/api/x"
    );
}
