use saba_core::url::Url;

#[test]
fn test_url_host() {
    let url = "http://example.com".to_string();
    let expected = Ok(Url {
        url: url.clone(),
        host: "example.com".to_string(),
        port: "80".to_string(),
        path: "".to_string(),
        searchpart: "".to_string(),
    });
    let actual = Url::new(url).parse();
    assert_eq!(expected, actual)
}

#[test]
fn test_url_host_port() {
    let url = "http://example.com:8080".to_string();
    let expected = Ok(Url {
        url: url.clone(),
        host: "example.com".to_string(),
        port: "8080".to_string(),
        path: "".to_string(),
        searchpart: "".to_string(),
    });
    let actual = Url::new(url).parse();
    assert_eq!(expected, actual);
}

#[test]
fn test_url_host_path() {
    let url = "http://example.com/index.html".to_string();
    let expected = Ok(Url {
        url: url.clone(),
        host: "example.com".to_string(),
        port: "80".to_string(),
        path: "index.html".to_string(),
        searchpart: "".to_string(),
    });
    let actual = Url::new(url).parse();
    assert_eq!(expected, actual);
}

#[test]
fn test_url_host_searchquery() {
    let url = "http://example.com?a=123&b=456".to_string();
    let expected = Ok(Url {
        url: url.clone(),
        host: "example.com".to_string(),
        port: "80".to_string(),
        path: "".to_string(),
        searchpart: "a=123&b=456".to_string(),
    });
    let actual = Url::new(url).parse();
    assert_eq!(expected, actual);
}

#[test]
fn test_url_host_path_searchquery() {
    let url = "http://example.com/index.html?a=123&b=456".to_string();
    let expected = Ok(Url {
        url: url.clone(),
        host: "example.com".to_string(),
        port: "80".to_string(),
        path: "index.html".to_string(),
        searchpart: "a=123&b=456".to_string(),
    });
    let actual = Url::new(url).parse();
    assert_eq!(expected, actual);
}

#[test]
fn test_url_host_port_searchquery() {
    let url = "http://example.com:8080?a=123&b=456".to_string();
    let expected = Ok(Url {
        url: url.clone(),
        host: "example.com".to_string(),
        port: "8080".to_string(),
        path: "".to_string(),
        searchpart: "a=123&b=456".to_string(),
    });
    let actual = Url::new(url).parse();
    assert_eq!(expected, actual);
}

#[test]
fn test_url_host_port_path() {
    let url = "http://example.com:8080/index.html".to_string();
    let expected = Ok(Url {
        url: url.clone(),
        host: "example.com".to_string(),
        port: "8080".to_string(),
        path: "index.html".to_string(),
        searchpart: "".to_string(),
    });
    let actual = Url::new(url).parse();
    assert_eq!(expected, actual);
}

#[test]
fn test_url_host_port_path_searchquery() {
    let url = "http://example.com:8080/index.html?a=123&b=456".to_string();
    let expected = Ok(Url {
        url: url.clone(),
        host: "example.com".to_string(),
        port: "8080".to_string(),
        path: "index.html".to_string(),
        searchpart: "a=123&b=456".to_string(),
    });
    let actual = Url::new(url).parse();
    assert_eq!(expected, actual);
}

#[test]
fn test_url_host_path_path_path_searchpart() {
    let url = "http://example.com/a/b/c.html?a=1&b=2".to_string();
    let expected = Ok(Url {
        url: url.clone(),
        host: "example.com".to_string(),
        port: "80".to_string(),
        path: "a/b/c.html".to_string(),
        searchpart: "a=1&b=2".to_string(),
    });
    let actual = Url::new(url).parse();
    assert_eq!(expected, actual);
}

#[test]
fn test_no_scheme() {
    let url = "example.com".to_string();
    let expected = Err("Only HTTP scheme is supported.".to_string());
    let actual = Url::new(url).parse();
    assert_eq!(expected, actual);
}

#[test]
fn test_unsupported_scheme() {
    let url = "https://example.com".to_string();
    let expected = Err("Only HTTP scheme is supported.".to_string());
    let actual = Url::new(url).parse();
    assert_eq!(expected, actual);
}

#[test]
fn test_parse_is_idempotent() {
    let url = "http://example.com:8080/a/b/c.html?a=1&b=2".to_string();
    let first = Url::new(url).parse().unwrap();
    let second = first.clone().parse().unwrap();
    assert_eq!(first, second);
    let third = second.clone().parse().unwrap();
    assert_eq!(second, third);
}

#[test]
fn test_getters_after_parse() {
    let url = "http://example.com:8080/index.html?a=123&b=456".to_string();
    let parsed = Url::new(url).parse().unwrap();
    assert_eq!(parsed.host(), "example.com".to_string());
    assert_eq!(parsed.port(), "8080".to_string());
    assert_eq!(parsed.path(), "index.html".to_string());
    assert_eq!(parsed.searchpart(), "a=123&b=456".to_string());
}

#[test]
fn test_new_leaves_parts_empty() {
    let url = Url::new("http://example.com".to_string());
    assert_eq!(url.host(), "".to_string());
    assert_eq!(url.port(), "".to_string());
    assert_eq!(url.path(), "".to_string());
    assert_eq!(url.searchpart(), "".to_string());
}

#[test]
fn test_failed_parse_leaves_record_unchanged() {
    let mut url = Url::new("ftp://example.com".to_string());
    let before = url.clone();
    let actual = url.parse();
    assert_eq!(actual, Err("Only HTTP scheme is supported.".to_string()));
    assert_eq!(url, before);
}

#[test]
fn test_scheme_only() {
    let url = "http://".to_string();
    let expected = Ok(Url {
        url: url.clone(),
        host: "".to_string(),
        port: "80".to_string(),
        path: "".to_string(),
        searchpart: "".to_string(),
    });
    let actual = Url::new(url).parse();
    assert_eq!(expected, actual);
}

#[test]
fn test_port_and_empty_path() {
    let url = "http://example.com:8080/".to_string();
    let expected = Ok(Url {
        url: url.clone(),
        host: "example.com".to_string(),
        port: "8080".to_string(),
        path: "".to_string(),
        searchpart: "".to_string(),
    });
    let actual = Url::new(url).parse();
    assert_eq!(expected, actual);
}
