use ytdlp_sub::services::settings_validator::{blank_path_result, path_result, validate_proxy_url, PathProbe};

#[test]
fn test_validate_path_empty() {
    let result = blank_path_result("").expect("a blank path is judged without probing");
    assert!(!result.valid);
    assert!(result.error.is_some());
}

#[test]
fn test_validate_path_empty_string() {
    let result = blank_path_result("").expect("a blank path is judged without probing");
    assert!(!result.valid);
    assert!(!result.writable);
    assert!(result.error.is_some());
    assert_eq!(result.error.unwrap(), "下载路径不能为空");
    assert!(blank_path_result("  \t ").is_some());
    assert!(blank_path_result("/tmp/x").is_none());
}

#[test]
fn test_validate_path_probe_outcomes() {
    let ok = path_result(PathProbe::Writable, true);
    assert!(ok.valid && ok.writable && ok.exists && ok.error.is_none());
    let c = path_result(PathProbe::CreateFailed("Permission denied (os error 13)".to_string()), false);
    assert!(!c.valid);
    assert_eq!(c.error.unwrap(), "无法创建下载目录: Permission denied (os error 13)");
    let w = path_result(PathProbe::WriteFailed("read-only".to_string()), true);
    assert!(!w.writable && w.exists);
    assert_eq!(w.error.unwrap(), "下载路径不可写入: read-only");
}

#[test]
fn test_validate_proxy_empty() {
    let result = validate_proxy_url("");
    assert!(result.valid);
    assert!(result.scheme.is_none());
}

#[test]
fn test_validate_proxy_http() {
    let result = validate_proxy_url("http://127.0.0.1:7890");
    assert!(result.valid);
    assert_eq!(result.scheme.as_deref(), Some("http"));
}

#[test]
fn test_validate_proxy_https() {
    let result = validate_proxy_url("https://proxy.example.com:8443");
    assert!(result.valid);
    assert_eq!(result.scheme.as_deref(), Some("https"));
}

#[test]
fn test_validate_proxy_socks5() {
    let result = validate_proxy_url("socks5://127.0.0.1:1080");
    assert!(result.valid);
    assert_eq!(result.scheme.as_deref(), Some("socks5"));
}

#[test]
fn test_validate_proxy_socks5h() {
    let result = validate_proxy_url("socks5h://127.0.0.1:1080");
    assert!(result.valid);
    assert_eq!(result.scheme.as_deref(), Some("socks5h"));
}

#[test]
fn test_validate_proxy_invalid() {
    let result = validate_proxy_url("not-a-url");
    assert!(!result.valid);
}

#[test]
fn test_validate_proxy_no_host() {
    let result = validate_proxy_url("http://");
    assert!(!result.valid);
    let err = result.error.expect("expected validation error");
    assert!(err.contains("主机名") || err.contains("host"), "unexpected error: {}", err);
}

#[test]
fn test_validate_proxy_unsupported_scheme() {
    let result = validate_proxy_url("ftp://proxy.example.com:21");
    assert!(!result.valid);
    assert!(result.error.unwrap().contains("不支持的代理协议"));
}

#[test]
fn test_validate_proxy_missing_double_slash() {
    let result = validate_proxy_url("http:127.0.0.1:6478");
    assert!(!result.valid, "Missing '//' should be invalid");
    assert!(result.error.unwrap().contains("://"));
}
