use codechat_core::SecurityPolicy;

#[test]
fn url_refused_without_scheme() {
    assert!(!SecurityPolicy::is_url_allowed("ftp://github.com"));
    assert!(!SecurityPolicy::is_url_allowed("github.com"));
    assert!(!SecurityPolicy::is_url_allowed("javascript:alert(1)//github.com"));
    assert!(!SecurityPolicy::is_url_allowed(""));
    assert!(!SecurityPolicy::is_url_allowed("httpx://github.com"));
}

#[test]
fn url_allowed_with_domain_as_host() {
    assert!(SecurityPolicy::is_url_allowed("https://chat.openai.com/"));
    assert!(SecurityPolicy::is_url_allowed("https://chat.deepseek.com/a/b"));
    assert!(SecurityPolicy::is_url_allowed("https://chatglm.cn"));
    assert!(SecurityPolicy::is_url_allowed("https://kimi.moonshot.cn/chat"));
    assert!(SecurityPolicy::is_url_allowed("http://github.com/login"));
    assert!(SecurityPolicy::is_url_allowed("https://accounts.google.com/signin"));
}

#[test]
fn url_allowed_with_domain_in_query_string() {
    // Substring matching, not host parsing: documented behaviour.
    assert!(SecurityPolicy::is_url_allowed("https://safe.com/?r=github.com"));
    assert!(SecurityPolicy::is_url_allowed("https://evil.com/?x=github.com"));
}

#[test]
fn url_refused_without_allowed_domain() {
    assert!(!SecurityPolicy::is_url_allowed("https://evil.com/"));
    assert!(!SecurityPolicy::is_url_allowed("http://example.org/github"));
    assert!(!SecurityPolicy::is_url_allowed("https://"));
}

#[test]
fn image_allowed_for_both_members() {
    assert!(SecurityPolicy::is_image_allowed("python:3.9-alpine"));
    assert!(SecurityPolicy::is_image_allowed("node:18-alpine"));
}

#[test]
fn image_refused_outside_set() {
    assert!(!SecurityPolicy::is_image_allowed("python:3.10-alpine"));
    assert!(!SecurityPolicy::is_image_allowed("python:3.9-alpine "));
    assert!(!SecurityPolicy::is_image_allowed("node:18"));
    assert!(!SecurityPolicy::is_image_allowed("ruby:3-alpine"));
    assert!(!SecurityPolicy::is_image_allowed(""));
}
