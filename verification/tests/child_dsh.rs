use dsh_pet::child_dsh::{extract_url, install_args, Registry, StartError};

#[test]
fn install_args_without_dir() {
    let args = install_args(Registry::Official, None);
    assert!(!args.iter().any(|a| a == "--prefix"));
}

#[test]
fn install_args_with_dir() {
    let args = install_args(Registry::Npmmirror, Some("D:\\dsh"));
    let idx = args.iter().position(|a| a == "--prefix").unwrap();
    assert_eq!(args[idx + 1], "D:\\dsh");
}

#[test]
fn extracts_url_from_banner() {
    assert_eq!(
        extract_url("dsh web: http://127.0.0.1:63198"),
        Some("http://127.0.0.1:63198".to_string())
    );
}

#[test]
fn truncates_trailing_lan_annotation() {
    assert_eq!(
        extract_url("dsh web: http://127.0.0.1:3080 (LAN: http://172.29.32.1:3080)"),
        Some("http://127.0.0.1:3080".to_string())
    );
}

#[test]
fn ignores_plain_lines() {
    assert_eq!(extract_url("some log line"), None);
    assert_eq!(extract_url(""), None);
}

#[test]
fn install_args_full_list() {
    let args = install_args(Registry::Tencent, None);
    assert_eq!(
        args,
        vec![
            "install",
            "-g",
            "@deepseek-ai/dsh",
            "--verbose",
            "--registry",
            "https://mirrors.cloud.tencent.com/npm/"
        ]
    );
    let with_dir = install_args(Registry::Official, Some("/opt/dsh"));
    assert_eq!(with_dir.len(), 8);
    assert_eq!(with_dir[5], "https://registry.npmjs.org/");
    assert_eq!(with_dir[6], "--prefix");
    assert_eq!(with_dir[7], "/opt/dsh");
}

#[test]
fn registry_labels_and_urls() {
    assert_eq!(Registry::Official.label(), "官方源");
    assert_eq!(Registry::Npmmirror.label(), "npmmirror");
    assert_eq!(Registry::Tencent.label(), "腾讯源");
    assert_eq!(Registry::Npmmirror.url(), "https://registry.npmmirror.com");
}

#[test]
fn https_url_is_found_when_no_http_url() {
    assert_eq!(
        extract_url("listening on https://dsh.local:8443\tready"),
        Some("https://dsh.local:8443".to_string())
    );
}

#[test]
fn http_url_wins_over_an_earlier_https_url() {
    assert_eq!(
        extract_url("https://a.example x http://b.example"),
        Some("http://b.example".to_string())
    );
}

#[test]
fn url_at_end_of_line_and_bare_scheme() {
    assert_eq!(extract_url("http://"), Some("http://".to_string()));
    assert_eq!(extract_url("go http://h:1\u{3000}全角"), Some("http://h:1".to_string()));
}

#[test]
fn start_error_keeps_attempt_errors() {
    let e = StartError::NotInstalled { errors: vec!["无法执行 dsh".to_string()] };
    match e {
        StartError::NotInstalled { errors } => assert_eq!(errors.len(), 1),
    }
}
