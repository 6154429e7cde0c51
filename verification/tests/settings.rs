use std::path::PathBuf;
use tg_ws_proxy::settings::{
    secret_bytes, set_cf_proxy_cache_dir, set_cf_proxy_config, set_pool_size, set_secret,
    CfProxyConfig, Settings,
};

fn settings() -> Settings {
    Settings { pool_size: 4, secret: "kept".to_string() }
}

fn config() -> CfProxyConfig<PathBuf> {
    CfProxyConfig {
        enabled: false,
        cache_dir: PathBuf::from("/old"),
        user_domain: String::new(),
        domains: vec!["a.example".to_string(), "b.example".to_string()],
        active: "b.example".to_string(),
    }
}

#[test]
fn pool_size_is_kept_in_range() {
    for (asked, taken) in
        [(i32::MIN, 2), (1, 2), (2, 2), (9, 9), (16, 16), (17, 16), (i32::MAX, 16)]
    {
        let mut settings = settings();
        set_pool_size(&mut settings, asked);
        assert_eq!(settings.pool_size, taken);
        assert_eq!(settings.secret, "kept");
    }
}

#[test]
fn hex_secret_is_taken() {
    for secret in ["0123456789abcdef0123456789abcdef", "0123456789ABCDEF0123456789abcDEF"] {
        let mut settings = settings();
        assert_eq!(set_secret(&mut settings, secret.to_string()), Ok(()));
        assert_eq!(settings.secret, secret);
        assert_eq!(settings.pool_size, 4);
    }
}

#[test]
fn secret_of_another_length_is_refused() {
    for secret in ["", "0123", "0123456789abcdef0123456789abcdef00"] {
        let mut settings = settings();
        assert_eq!(
            set_secret(&mut settings, secret.to_string()),
            Err("the secret is too short".to_string())
        );
        assert_eq!(settings.secret, "kept");
    }
}

#[test]
fn secret_that_is_not_hex_is_refused() {
    // The last one has 32 bytes but 31 characters.
    for secret in [
        "0123456789abcdef0123456789abcdeg",
        "0123456789abcdef0123456789abcde ",
        "0123456789abcdef0123456789abcd\u{e9}",
    ] {
        assert_eq!(secret.len(), 32);
        let mut settings = settings();
        assert_eq!(
            set_secret(&mut settings, secret.to_string()),
            Err("invalid secret".to_string())
        );
        assert_eq!(settings.secret, "kept");
    }
}

#[test]
fn cache_dir_is_set() {
    let mut config = config();
    set_cf_proxy_cache_dir(&mut config, PathBuf::from("/new"));
    assert_eq!(config.cache_dir, PathBuf::from("/new"));
    assert_eq!(config.active, "b.example");
}

#[test]
fn own_domain_replaces_the_list() {
    let mut config = config();
    set_cf_proxy_config(&mut config, true, "mine.example".to_string());
    assert!(config.enabled);
    assert_eq!(config.user_domain, "mine.example");
    assert_eq!(config.domains, vec!["mine.example".to_string()]);
    assert_eq!(config.active, "mine.example");
    assert_eq!(config.cache_dir, PathBuf::from("/old"));
}

#[test]
fn no_own_domain_keeps_the_list() {
    let mut config = config();
    config.user_domain = "was".to_string();
    config.enabled = true;
    set_cf_proxy_config(&mut config, false, String::new());
    assert!(!config.enabled);
    assert_eq!(config.user_domain, "");
    assert_eq!(config.domains, vec!["a.example".to_string(), "b.example".to_string()]);
    assert_eq!(config.active, "b.example");
}

#[test]
fn secret_stands_for_bytes() {
    let of = |secret: &str| secret_bytes(&Settings { pool_size: 4, secret: secret.to_string() });
    assert_eq!(
        of("00112233445566778899aAbBcCdDeEfF"),
        Some(vec![
            0x00, 0x11, 0x22, 0x33, 0x44, 0x55, 0x66, 0x77, 0x88, 0x99, 0xaa, 0xbb, 0xcc, 0xdd,
            0xee, 0xff
        ])
    );
    assert_eq!(of("0f"), Some(vec![0x0f]));
    assert_eq!(of(""), Some(vec![]));
    assert_eq!(of("0f0"), None);
    assert_eq!(of("0g"), None);
}
