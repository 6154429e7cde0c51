use tg_ws_proxy::cli::{parse_args, ArgsOutcome, Options};
use tg_ws_proxy::settings::Settings;
use tg_ws_proxy::text::{parse_i32, parse_u16, push_decimal};

const HEX: &str = "00112233445566778899aabbccddeeff";

fn parse(args: &[&str], files: &[&str]) -> ArgsOutcome {
    let mut all = vec!["proxy".to_string()];
    all.extend(args.iter().map(|a| a.to_string()));
    let is_file: Vec<bool> = all.iter().map(|a| files.contains(&a.as_str())).collect();
    parse_args(&all, &is_file, Settings { pool_size: 4, secret: "none".to_string() })
}

fn run(args: &[&str]) -> Options {
    match parse(args, &[]) {
        ArgsOutcome::Run(options) => options,
        other => panic!("{:?}", other),
    }
}

#[test]
fn defaults() {
    let options = run(&[]);
    assert_eq!(options.host, "127.0.0.1");
    assert_eq!(options.port, 1443);
    assert_eq!(options.dc_ips, "");
    assert_eq!(options.user_domain, "");
    assert!(!options.verbose);
    assert!(options.console);
    assert!(!options.cf_enabled);
    assert_eq!(options.cache_dir, None);
    assert_eq!(options.settings.pool_size, 4);
    assert_eq!(options.settings.secret, "none");
    match parse_args(&vec![], &vec![], Settings { pool_size: 4, secret: String::new() }) {
        ArgsOutcome::Run(options) => assert_eq!(options.port, 1443),
        other => panic!("{:?}", other),
    }
}

#[test]
fn every_option() {
    let options = run(&[
        "--host", "0.0.0.0", "--port", "8080", "--secret", HEX, "--dc", "2:1.2.3.4",
        "--user-domains", "mine.example", "--pool-size", "8", "--cache-dir", "/tmp/cache",
        "--verbose", "--enable-cf", "--no-console",
    ]);
    assert_eq!(options.host, "0.0.0.0");
    assert_eq!(options.port, 8080);
    assert_eq!(options.settings.secret, HEX);
    assert_eq!(options.dc_ips, "2:1.2.3.4");
    assert_eq!(options.user_domain, "mine.example");
    assert_eq!(options.settings.pool_size, 8);
    assert_eq!(options.cache_dir, Some("/tmp/cache".to_string()));
    assert!(options.verbose);
    assert!(options.cf_enabled);
    assert!(!options.console);
}

#[test]
fn switches_take_no_value() {
    let options = run(&["--no-console", "--verbose", "--enable-cf", "--host", "h"]);
    assert!(!options.console);
    assert!(options.verbose);
    assert!(options.cf_enabled);
    assert_eq!(options.host, "h");
}

#[test]
fn later_values_win() {
    let options = run(&["--port", "1", "--pool-size", "3", "--port", "2", "--pool-size", "99"]);
    assert_eq!(options.port, 2);
    assert_eq!(options.settings.pool_size, 16);
}

#[test]
fn values_may_look_like_flags() {
    assert_eq!(run(&["--host", "--help"]).host, "--help");
}

#[test]
fn help_and_version_end_the_reading() {
    for word in ["--help", "-h"] {
        assert!(matches!(parse(&[word, "--bogus"], &[]), ArgsOutcome::ShowHelp));
    }
    for word in ["--version", "-V"] {
        assert!(matches!(parse(&["--verbose", word], &[]), ArgsOutcome::ShowVersion));
    }
}

#[test]
fn faults_end_the_reading() {
    match parse(&["--bogus", "--help"], &[]) {
        ArgsOutcome::UnknownArg(arg) => assert_eq!(arg, "--bogus"),
        other => panic!("{:?}", other),
    }
    match parse(&["--secret", "abc"], &[]) {
        ArgsOutcome::BadSecret(fault) => assert_eq!(fault, "the secret is too short"),
        other => panic!("{:?}", other),
    }
    match parse(&["--secret", "zz112233445566778899aabbccddeeff"], &[]) {
        ArgsOutcome::BadSecret(fault) => assert_eq!(fault, "invalid secret"),
        other => panic!("{:?}", other),
    }
    assert!(matches!(parse(&["--port", "65536"], &[]), ArgsOutcome::BadNumber));
    assert!(matches!(parse(&["--pool-size", "many"], &[]), ArgsOutcome::BadNumber));
    assert!(matches!(parse(&["--verbose", "--host"], &[]), ArgsOutcome::MissingValue));
    assert!(matches!(
        parse(&["--cache-dir", "/a/file", "--bogus"], &["/a/file"]),
        ArgsOutcome::CacheDirIsFile
    ));
}

#[test]
fn only_the_cache_dir_must_not_be_a_file() {
    match parse(&["--host", "/a/file"], &["/a/file"]) {
        ArgsOutcome::Run(options) => assert_eq!(options.host, "/a/file"),
        other => panic!("{:?}", other),
    }
}

#[test]
fn numbers_are_read_as_the_standard_library_reads_them() {
    for text in [
        "", "+", "-", "0", "00", "+0", "-0", "7", "65535", "65536", "0065535", "+65535", "1 ",
        " 1", "1.0", "1e3", "0x10", "--1", "+-1", "2147483647", "2147483648", "-2147483648",
        "-2147483649", "-00012", "99999999999999999999999", "\u{661}", "1\u{e9}", "+\u{e9}",
    ] {
        assert_eq!(parse_u16(text), text.parse::<u16>().ok(), "{}", text);
        assert_eq!(parse_i32(text), text.parse::<i32>().ok(), "{}", text);
    }
}

#[test]
fn numbers_are_written_as_the_standard_library_writes_them() {
    for n in [0u16, 1, 9, 10, 99, 100, 443, 1443, 10000, 65535] {
        let mut out = "n=".to_string();
        push_decimal(&mut out, n);
        assert_eq!(out, format!("n={}", n));
        assert_eq!(parse_u16(&out[2..]), Some(n));
    }
}

#[test]
fn options_to_run_with_are_usable() {
    let args = ["--pool-size", "-5", "--secret", HEX, "--pool-size", "400"];
    let options = run(&args);
    assert_eq!(options.settings.pool_size, 16);
    assert_eq!(options.settings.secret, HEX);
    assert_eq!(run(&args[..4]).settings.pool_size, 2);
}
