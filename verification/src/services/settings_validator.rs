//! Validation of the download directory and the proxy address. Probing the directory
//! on disk is done by the caller, which hands over what it found.

use vstd::prelude::*;
use vstd::string::*;

use crate::text::{contains_seq, str_contains, str_eq, trimmed, trim};
use crate::web::{parse_url, url_parse, UrlParts};

verus! {

/// The verdict on a download directory.
#[derive(Debug, Clone)]
pub struct PathValidateResult {
    pub valid: bool,
    pub writable: bool,
    pub exists: bool,
    pub error: Option<String>,
}

/// The verdict on a proxy address.
#[derive(Debug, Clone)]
pub struct ProxyValidateResult {
    pub valid: bool,
    pub scheme: Option<String>,
    pub error: Option<String>,
}

/// What probing a download directory found: creating it failed, writing a test file
/// into it failed (each with the system's message), or it is writable.
#[derive(Debug, Clone)]
pub enum PathProbe {
    CreateFailed(String),
    WriteFailed(String),
    Writable,
}

/// The verdict on a blank path, when the path is blank (only white space); such a
/// path is not probed.
pub fn blank_path_result(path: &str) -> (r: Option<PathValidateResult>)
    ensures
        trimmed(path@).len() == 0 ==> (r matches Some(v) && !v.valid && !v.writable && !v.exists
            && (v.error matches Some(e) && e@ == "下载路径不能为空"@)),
        trimmed(path@).len() > 0 ==> r is None,
{
    let t = trim(path);
    if t.unicode_len() == 0 {
        Some(
            PathValidateResult {
                valid: false,
                writable: false,
                exists: false,
                error: Some(String::from_str("下载路径不能为空")),
            },
        )
    } else {
        None
    }
}

/// The verdict on a probed directory; `exists` tells whether it exists after the probe.
pub fn path_result(probe: PathProbe, exists: bool) -> (v: PathValidateResult)
    ensures
        v.exists == exists,
        match probe {
            PathProbe::CreateFailed(e) => !v.valid && !v.writable && (v.error matches Some(m) && m@
                == "无法创建下载目录: "@ + e@),
            PathProbe::WriteFailed(e) => !v.valid && !v.writable && (v.error matches Some(m) && m@
                == "下载路径不可写入: "@ + e@),
            PathProbe::Writable => v.valid && v.writable && v.error is None,
        },
{
    match probe {
        PathProbe::CreateFailed(e) => {
            let mut m = String::from_str("无法创建下载目录: ");
            m.append(e.as_str());
            PathValidateResult { valid: false, writable: false, exists, error: Some(m) }
        },
        PathProbe::WriteFailed(e) => {
            let mut m = String::from_str("下载路径不可写入: ");
            m.append(e.as_str());
            PathValidateResult { valid: false, writable: false, exists, error: Some(m) }
        },
        PathProbe::Writable => PathValidateResult { valid: true, writable: true, exists, error: None },
    }
}

/// The proxy schemes yt-dlp accepts.
pub open spec fn supported_scheme(s: Seq<char>) -> bool {
    s == "http"@ || s == "https"@ || s == "socks5"@ || s == "socks5h"@
}

/// What a parse result holds, as `url_parse` names it.
pub open spec fn parts_view(parsed: Result<UrlParts, String>) -> Result<(Seq<char>, Option<Seq<char>>), Seq<char>> {
    match parsed {
        Ok(p) => Ok((
            p.scheme@,
            match p.host {
                Some(h) => Some(h@),
                None => None,
            },
        )),
        Err(e) => Err(e@),
    }
}

/// `v` is the verdict on an address that parsed to `parsed`: a parse error makes it
/// invalid; so do a scheme other than http, https, socks5 and socks5h, and a missing
/// or empty host.
pub open spec fn proxy_verdict(parsed: Result<(Seq<char>, Option<Seq<char>>), Seq<char>>, v: ProxyValidateResult) -> bool {
    match parsed {
        Err(e) => !v.valid && v.scheme is None && (v.error matches Some(m) && m@ == "代理地址格式无效: "@ + e),
        Ok((scheme, host)) => {
            &&& v.scheme matches Some(s) && s@ == scheme
            &&& if !supported_scheme(scheme) {
                !v.valid && (v.error matches Some(m) && m@ == "不支持的代理协议: "@ + scheme)
            } else if match host {
                Some(h) => h.len() == 0,
                None => true,
            } {
                !v.valid && (v.error matches Some(m) && m@ == "代理地址缺少主机名"@)
            } else {
                v.valid && v.error is None
            }
        },
    }
}

/// The verdict on a proxy address from what the URL parser made of it: a parse error
/// makes it invalid; so do a scheme other than http, https, socks5 and socks5h, and a
/// missing or empty host.
pub fn proxy_result_from_parse(parsed: Result<UrlParts, String>) -> (v: ProxyValidateResult)
    ensures
        proxy_verdict(parts_view(parsed), v),
{
    match parsed {
        Err(e) => {
            let mut m = String::from_str("代理地址格式无效: ");
            m.append(e.as_str());
            ProxyValidateResult { valid: false, scheme: None, error: Some(m) }
        },
        Ok(p) => {
            let s = p.scheme.as_str();
            if !(str_eq(s, "http") || str_eq(s, "https") || str_eq(s, "socks5") || str_eq(s, "socks5h")) {
                let mut m = String::from_str("不支持的代理协议: ");
                m.append(s);
                return ProxyValidateResult { valid: false, scheme: Some(p.scheme.clone()), error: Some(m) };
            }
            let no_host = match &p.host {
                Some(h) => h.unicode_len() == 0,
                None => true,
            };
            if no_host {
                return ProxyValidateResult {
                    valid: false,
                    scheme: Some(p.scheme.clone()),
                    error: Some(String::from_str("代理地址缺少主机名")),
                };
            }
            ProxyValidateResult { valid: true, scheme: Some(p.scheme.clone()), error: None }
        },
    }
}

/// The message for an address without "://".
pub open spec fn missing_authority_message() -> Seq<char> {
    "代理地址格式无效：缺少 ://（例如 http://127.0.0.1:7890）"@
}

/// Validates a proxy address: a blank one means no proxy and is valid; one without
/// "://" is invalid (yt-dlp needs the authority form); otherwise the verdict of
/// `proxy_result_from_parse` on what `url::Url::parse` makes of it.
pub fn validate_proxy_url(input: &str) -> (v: ProxyValidateResult)
    ensures
        trimmed(input@).len() == 0 ==> v.valid && v.scheme is None && v.error is None,
        trimmed(input@).len() > 0 && !contains_seq(input@, "://"@) ==> !v.valid && v.scheme is None
            && (v.error matches Some(m) && m@ == missing_authority_message()),
        trimmed(input@).len() > 0 && contains_seq(input@, "://"@) ==> proxy_verdict(url_parse(input@), v),
{
    let t = trim(input);
    if t.unicode_len() == 0 {
        return ProxyValidateResult { valid: true, scheme: None, error: None };
    }
    if !str_contains(input, "://") {
        return ProxyValidateResult {
            valid: false,
            scheme: None,
            error: Some(String::from_str("代理地址格式无效：缺少 ://（例如 http://127.0.0.1:7890）")),
        };
    }
    proxy_result_from_parse(parse_url(input))
}

} // verus!
