//! The command line.

use vstd::prelude::*;

#[allow(unused_imports)]
use crate::settings::{
    pool_size_for, secret_fault, set_pool_size, set_secret, Settings, SettingsView,
};
#[allow(unused_imports)]
use crate::text::{i32_in, parse_i32, parse_u16, u16_in};

verus! {

/// The port that the proxy listens on unless told otherwise.
pub const DEFAULT_PORT: u16 = 1443;

/// An argument, by what it asks for.
#[derive(Clone, Copy, Debug, PartialEq, Eq, Structural)]
pub enum Flag {
    Help,
    Version,
    Host,
    Port,
    Secret,
    Dc,
    UserDomains,
    PoolSize,
    CacheDir,
    Verbose,
    EnableCf,
    NoConsole,
    Unknown,
}

/// The flag that a text spells.
pub open spec fn flag_of(text: Seq<char>) -> Flag {
    if text == "--help"@ || text == "-h"@ {
        Flag::Help
    } else if text == "--version"@ || text == "-V"@ {
        Flag::Version
    } else if text == "--host"@ {
        Flag::Host
    } else if text == "--port"@ {
        Flag::Port
    } else if text == "--secret"@ {
        Flag::Secret
    } else if text == "--dc"@ {
        Flag::Dc
    } else if text == "--user-domains"@ {
        Flag::UserDomains
    } else if text == "--pool-size"@ {
        Flag::PoolSize
    } else if text == "--cache-dir"@ {
        Flag::CacheDir
    } else if text == "--verbose"@ {
        Flag::Verbose
    } else if text == "--enable-cf"@ {
        Flag::EnableCf
    } else if text == "--no-console"@ {
        Flag::NoConsole
    } else {
        Flag::Unknown
    }
}

/// Whether the argument behind a flag is its value.
pub open spec fn takes_value(flag: Flag) -> bool {
    match flag {
        Flag::Host | Flag::Port | Flag::Secret | Flag::Dc | Flag::UserDomains | Flag::PoolSize
        | Flag::CacheDir => true,
        _ => false,
    }
}

/// What the proxy is asked to run with.
#[derive(Debug)]
pub struct Options {
    /// The address to listen on.
    pub host: String,
    /// The port to listen on.
    pub port: u16,
    /// The addresses that replace those of the data centres.
    pub dc_ips: String,
    /// The user's own Cloudflare domain, or nothing.
    pub user_domain: String,
    /// Whether to log in detail.
    pub verbose: bool,
    /// Whether to log to the console.
    pub console: bool,
    /// Whether to go through Cloudflare.
    pub cf_enabled: bool,
    /// Where to cache, if not in the usual place.
    pub cache_dir: Option<String>,
    /// The pool size and the secret.
    pub settings: Settings,
}

/// [`Options`] over character sequences.
pub struct OptionsView {
    pub host: Seq<char>,
    pub port: u16,
    pub dc_ips: Seq<char>,
    pub user_domain: Seq<char>,
    pub verbose: bool,
    pub console: bool,
    pub cf_enabled: bool,
    pub cache_dir: Option<Seq<char>>,
    pub settings: SettingsView,
}

impl View for Options {
    type V = OptionsView;

    open spec fn view(&self) -> OptionsView {
        OptionsView {
            host: self.host@,
            port: self.port,
            dc_ips: self.dc_ips@,
            user_domain: self.user_domain@,
            verbose: self.verbose,
            console: self.console,
            cf_enabled: self.cf_enabled,
            cache_dir: match self.cache_dir {
                Some(dir) => Some(dir@),
                None => None,
            },
            settings: self.settings@,
        }
    }
}

/// What the command line comes to.
#[derive(Debug)]
pub enum ArgsOutcome {
    /// Show the help text and leave.
    ShowHelp,
    /// Show the version and leave.
    ShowVersion,
    /// Leave: the cache directory is a file.
    CacheDirIsFile,
    /// Tell what is wrong with the secret and leave.
    BadSecret(String),
    /// Tell which argument is unknown and leave.
    UnknownArg(String),
    /// Break off: the last flag lacks its value.
    MissingValue,
    /// Break off: a number cannot be read.
    BadNumber,
    /// Run the proxy.
    Run(Options),
}

/// [`ArgsOutcome`] over character sequences.
pub enum OutcomeView {
    ShowHelp,
    ShowVersion,
    CacheDirIsFile,
    BadSecret(Seq<char>),
    UnknownArg(Seq<char>),
    MissingValue,
    BadNumber,
    Run(OptionsView),
}

impl View for ArgsOutcome {
    type V = OutcomeView;

    open spec fn view(&self) -> OutcomeView {
        match self {
            ArgsOutcome::ShowHelp => OutcomeView::ShowHelp,
            ArgsOutcome::ShowVersion => OutcomeView::ShowVersion,
            ArgsOutcome::CacheDirIsFile => OutcomeView::CacheDirIsFile,
            ArgsOutcome::BadSecret(fault) => OutcomeView::BadSecret(fault@),
            ArgsOutcome::UnknownArg(arg) => OutcomeView::UnknownArg(arg@),
            ArgsOutcome::MissingValue => OutcomeView::MissingValue,
            ArgsOutcome::BadNumber => OutcomeView::BadNumber,
            ArgsOutcome::Run(options) => OutcomeView::Run(options@),
        }
    }
}

/// The options of an empty command line.
pub open spec fn defaults(settings: SettingsView) -> OptionsView {
    OptionsView {
        host: "127.0.0.1"@,
        port: DEFAULT_PORT,
        dc_ips: ""@,
        user_domain: ""@,
        verbose: false,
        console: true,
        cf_enabled: false,
        cache_dir: None,
        settings,
    }
}

/// What a flag with its value makes of the options, where `is_file` tells whether the value
/// names an existing file. Anything but [`OutcomeView::Run`] ends the reading.
pub open spec fn with_value(
    flag: Flag,
    value: Seq<char>,
    is_file: bool,
    options: OptionsView,
) -> OutcomeView {
    match flag {
        Flag::Host => OutcomeView::Run(OptionsView { host: value, ..options }),
        Flag::Port => match u16_in(value) {
            Some(port) => OutcomeView::Run(OptionsView { port, ..options }),
            None => OutcomeView::BadNumber,
        },
        Flag::Secret => match secret_fault(value) {
            Some(fault) => OutcomeView::BadSecret(fault),
            None => OutcomeView::Run(
                OptionsView {
                    settings: SettingsView { secret: value, ..options.settings },
                    ..options
                },
            ),
        },
        Flag::Dc => OutcomeView::Run(OptionsView { dc_ips: value, ..options }),
        Flag::UserDomains => OutcomeView::Run(OptionsView { user_domain: value, ..options }),
        Flag::PoolSize => match i32_in(value) {
            Some(size) => OutcomeView::Run(
                OptionsView {
                    settings: SettingsView { pool_size: pool_size_for(size), ..options.settings },
                    ..options
                },
            ),
            None => OutcomeView::BadNumber,
        },
        _ => if is_file {
            OutcomeView::CacheDirIsFile
        } else {
            OutcomeView::Run(OptionsView { cache_dir: Some(value), ..options })
        },
    }
}

/// What a flag without a value makes of the options.
pub open spec fn without_value(flag: Flag, text: Seq<char>, options: OptionsView) -> OutcomeView {
    match flag {
        Flag::Help => OutcomeView::ShowHelp,
        Flag::Version => OutcomeView::ShowVersion,
        Flag::Verbose => OutcomeView::Run(OptionsView { verbose: true, ..options }),
        Flag::EnableCf => OutcomeView::Run(OptionsView { cf_enabled: true, ..options }),
        Flag::NoConsole => OutcomeView::Run(OptionsView { console: false, ..options }),
        _ => OutcomeView::UnknownArg(text),
    }
}

/// What the command line from the argument `at` on comes to, on top of `options`.
/// `is_file` tells of each argument whether it names an existing file.
pub open spec fn outcome_from(
    args: Seq<Seq<char>>,
    is_file: Seq<bool>,
    at: int,
    options: OptionsView,
) -> OutcomeView
    decreases args.len() - at,
{
    if at >= args.len() {
        OutcomeView::Run(options)
    } else {
        let flag = flag_of(args[at]);
        if !takes_value(flag) {
            match without_value(flag, args[at], options) {
                OutcomeView::Run(changed) => outcome_from(args, is_file, at + 1, changed),
                end => end,
            }
        } else if at + 1 >= args.len() {
            OutcomeView::MissingValue
        } else {
            match with_value(flag, args[at + 1], is_file[at + 1], options) {
                OutcomeView::Run(changed) => outcome_from(args, is_file, at + 2, changed),
                end => end,
            }
        }
    }
}

/// The characters of each text.
pub open spec fn texts(args: Seq<String>) -> Seq<Seq<char>> {
    Seq::new(args.len(), |i: int| args[i]@)
}

/// Whether a text is the given word.
fn spells(text: &String, word: &str) -> (same: bool)
    ensures
        same == (text@ == word@),
{
    *text == word.to_string()
}

/// Tells which flag a text spells.
fn read_flag(text: &String) -> (flag: Flag)
    ensures
        flag == flag_of(text@),
{
    if spells(text, "--help") || spells(text, "-h") {
        Flag::Help
    } else if spells(text, "--version") || spells(text, "-V") {
        Flag::Version
    } else if spells(text, "--host") {
        Flag::Host
    } else if spells(text, "--port") {
        Flag::Port
    } else if spells(text, "--secret") {
        Flag::Secret
    } else if spells(text, "--dc") {
        Flag::Dc
    } else if spells(text, "--user-domains") {
        Flag::UserDomains
    } else if spells(text, "--pool-size") {
        Flag::PoolSize
    } else if spells(text, "--cache-dir") {
        Flag::CacheDir
    } else if spells(text, "--verbose") {
        Flag::Verbose
    } else if spells(text, "--enable-cf") {
        Flag::EnableCf
    } else if spells(text, "--no-console") {
        Flag::NoConsole
    } else {
        Flag::Unknown
    }
}

/// Tells whether the argument behind a flag is its value.
fn wants_value(flag: Flag) -> (yes: bool)
    ensures
        yes == takes_value(flag),
{
    match flag {
        Flag::Host | Flag::Port | Flag::Secret | Flag::Dc | Flag::UserDomains | Flag::PoolSize
        | Flag::CacheDir => true,
        _ => false,
    }
}

/// Applies a flag with its value to the options.
fn apply_value(flag: Flag, value: &String, is_file: bool, options: Options) -> (outcome:
    ArgsOutcome)
    requires
        takes_value(flag),
    ensures
        outcome@ == with_value(flag, value@, is_file, options@),
{
    let mut options = options;
    match flag {
        Flag::Host => {
            options.host = value.clone();
        },
        Flag::Port => match parse_u16(value.as_str()) {
            Some(port) => {
                options.port = port;
            },
            None => {
                return ArgsOutcome::BadNumber;
            },
        },
        Flag::Secret => match set_secret(&mut options.settings, value.clone()) {
            Ok(_) => {},
            Err(fault) => {
                return ArgsOutcome::BadSecret(fault);
            },
        },
        Flag::Dc => {
            options.dc_ips = value.clone();
        },
        Flag::UserDomains => {
            options.user_domain = value.clone();
        },
        Flag::PoolSize => match parse_i32(value.as_str()) {
            Some(size) => {
                set_pool_size(&mut options.settings, size);
            },
            None => {
                return ArgsOutcome::BadNumber;
            },
        },
        _ => {
            if is_file {
                return ArgsOutcome::CacheDirIsFile;
            }
            options.cache_dir = Some(value.clone());
        },
    }
    ArgsOutcome::Run(options)
}

/// Applies a flag without a value to the options.
fn apply_flag(flag: Flag, text: &String, options: Options) -> (outcome: ArgsOutcome)
    requires
        !takes_value(flag),
    ensures
        outcome@ == without_value(flag, text@, options@),
{
    let mut options = options;
    match flag {
        Flag::Help => {
            return ArgsOutcome::ShowHelp;
        },
        Flag::Version => {
            return ArgsOutcome::ShowVersion;
        },
        Flag::Verbose => {
            options.verbose = true;
        },
        Flag::EnableCf => {
            options.cf_enabled = true;
        },
        Flag::NoConsole => {
            options.console = false;
        },
        _ => {
            return ArgsOutcome::UnknownArg(text.clone());
        },
    }
    ArgsOutcome::Run(options)
}

/// Reads the command line, whose first argument is the program's name, on top of `settings`.
/// `is_file` tells of each argument whether it names an existing file. The first argument
/// that cannot be carried out decides; the flags that only switch something take no value.
pub fn parse_args(args: &Vec<String>, is_file: &Vec<bool>, settings: Settings) -> (outcome:
    ArgsOutcome)
    requires
        is_file@.len() == args@.len(),
    ensures
        outcome@ == outcome_from(texts(args@), is_file@, 1, defaults(settings@)),
        args@.len() <= 1 ==> (outcome@ matches OutcomeView::Run(options) && options.port == 1443
            && options.settings == settings@),
{
    let mut options = Options {
        host: "127.0.0.1".to_string(),
        port: DEFAULT_PORT,
        dc_ips: "".to_string(),
        user_domain: "".to_string(),
        verbose: false,
        console: true,
        cf_enabled: false,
        cache_dir: None,
        settings,
    };
    let ghost words = texts(args@);
    let ghost whole = outcome_from(words, is_file@, 1, options@);
    let mut at: usize = 1;
    while at < args.len()
        invariant
            1 <= at,
            words == texts(args@),
            is_file@.len() == args@.len(),
            whole == outcome_from(words, is_file@, 1, defaults(settings@)),
            outcome_from(words, is_file@, at as int, options@) == whole,
        decreases args@.len() - at,
    {
        let flag = read_flag(&args[at]);
        assert(words[at as int] == args@[at as int]@);
        let outcome: ArgsOutcome;
        let step: usize;
        if !wants_value(flag) {
            outcome = apply_flag(flag, &args[at], options);
            step = 1;
        } else if args.len() - at < 2 {
            return ArgsOutcome::MissingValue;
        } else {
            assert(words[at + 1] == args@[at + 1]@);
            outcome = apply_value(flag, &args[at + 1], is_file[at + 1], options);
            step = 2;
        }
        match outcome {
            ArgsOutcome::Run(changed) => {
                options = changed;
                at = at + step;
            },
            end => {
                return end;
            },
        }
    }
    ArgsOutcome::Run(options)
}

/// A command line that runs the proxy can be continued: what the longer one comes to is what
/// the added arguments come to on top of the options so far. So arguments take effect in
/// order, and a later value replaces an earlier one.
pub proof fn law_arguments_compose(
    args: Seq<Seq<char>>,
    is_file: Seq<bool>,
    at: int,
    cut: int,
    options: OptionsView,
)
    requires
        is_file.len() == args.len(),
        0 <= at <= cut <= args.len(),
        outcome_from(args.take(cut), is_file.take(cut), at, options) is Run,
    ensures
        outcome_from(args, is_file, at, options) == outcome_from(
            args,
            is_file,
            cut,
            outcome_from(args.take(cut), is_file.take(cut), at, options)->Run_0,
        ),
    decreases cut - at,
{
    if at < cut {
        let flag = flag_of(args[at]);
        assert(args.take(cut)[at] == args[at]);
        if !takes_value(flag) {
            match without_value(flag, args[at], options) {
                OutcomeView::Run(changed) => {
                    law_arguments_compose(args, is_file, at + 1, cut, changed);
                },
                _ => {},
            }
        } else {
            assert(args.take(cut)[at + 1] == args[at + 1]);
            assert(is_file.take(cut)[at + 1] == is_file[at + 1]);
            match with_value(flag, args[at + 1], is_file[at + 1], options) {
                OutcomeView::Run(changed) => {
                    law_arguments_compose(args, is_file, at + 2, cut, changed);
                },
                _ => {},
            }
        }
    }
}

/// Whatever the command line, a proxy that is run has a pool within the limits and a usable
/// secret, if the settings that it started from had them.
pub proof fn law_run_options_are_usable(
    args: Seq<Seq<char>>,
    is_file: Seq<bool>,
    at: int,
    options: OptionsView,
)
    requires
        2 <= options.settings.pool_size <= 16,
        secret_fault(options.settings.secret) is None,
    ensures
        outcome_from(args, is_file, at, options) matches OutcomeView::Run(run) ==> 2
            <= run.settings.pool_size <= 16 && secret_fault(run.settings.secret) is None,
    decreases args.len() - at,
{
    if at < args.len() {
        let flag = flag_of(args[at]);
        if !takes_value(flag) {
            match without_value(flag, args[at], options) {
                OutcomeView::Run(changed) => {
                    law_run_options_are_usable(args, is_file, at + 1, changed);
                },
                _ => {},
            }
        } else if at + 1 < args.len() {
            match with_value(flag, args[at + 1], is_file[at + 1], options) {
                OutcomeView::Run(changed) => {
                    law_run_options_are_usable(args, is_file, at + 2, changed);
                },
                _ => {},
            }
        }
    }
}

/// The three switches stand alone: each takes one argument's place, whatever comes behind it.
pub proof fn law_switches_take_no_value(
    args: Seq<Seq<char>>,
    is_file: Seq<bool>,
    at: int,
    options: OptionsView,
)
    requires
        0 <= at < args.len(),
    ensures
        flag_of(args[at]) is Verbose ==> outcome_from(args, is_file, at, options) == outcome_from(
            args,
            is_file,
            at + 1,
            OptionsView { verbose: true, ..options },
        ),
        flag_of(args[at]) is EnableCf ==> outcome_from(args, is_file, at, options) == outcome_from(
            args,
            is_file,
            at + 1,
            OptionsView { cf_enabled: true, ..options },
        ),
        flag_of(args[at]) is NoConsole ==> outcome_from(args, is_file, at, options)
            == outcome_from(args, is_file, at + 1, OptionsView { console: false, ..options }),
{
}

/// Each word of the command line spells its own flag.
proof fn lemma_words_spell_their_flags()
    ensures
        flag_of("--help"@) is Help,
        flag_of("-h"@) is Help,
        flag_of("--version"@) is Version,
        flag_of("-V"@) is Version,
        flag_of("--host"@) is Host,
        flag_of("--port"@) is Port,
        flag_of("--secret"@) is Secret,
        flag_of("--dc"@) is Dc,
        flag_of("--user-domains"@) is UserDomains,
        flag_of("--pool-size"@) is PoolSize,
        flag_of("--cache-dir"@) is CacheDir,
        flag_of("--verbose"@) is Verbose,
        flag_of("--enable-cf"@) is EnableCf,
        flag_of("--no-console"@) is NoConsole,
{
    reveal_strlit("--help");
    reveal_strlit("-h");
    reveal_strlit("--version");
    reveal_strlit("-V");
    reveal_strlit("--host");
    reveal_strlit("--port");
    reveal_strlit("--secret");
    reveal_strlit("--dc");
    reveal_strlit("--user-domains");
    reveal_strlit("--pool-size");
    reveal_strlit("--cache-dir");
    reveal_strlit("--verbose");
    reveal_strlit("--enable-cf");
    reveal_strlit("--no-console");
    assert("--help"@.len() == 6);
    assert("-h"@.len() == 2);
    assert("--version"@.len() == 9);
    assert("-V"@.len() == 2);
    assert("--host"@.len() == 6);
    assert("--port"@.len() == 6);
    assert("--secret"@.len() == 8);
    assert("--dc"@.len() == 4);
    assert("--user-domains"@.len() == 14);
    assert("--pool-size"@.len() == 11);
    assert("--cache-dir"@.len() == 11);
    assert("--verbose"@.len() == 9);
    assert("--enable-cf"@.len() == 11);
    assert("--no-console"@.len() == 12);
    assert("--help"@[2] == 'h');
    assert("--help"@[3] == 'e');
    assert("-h"@[1] == 'h');
    assert("--version"@[5] == 's');
    assert("-V"@[1] == 'V');
    assert("--host"@[2] == 'h');
    assert("--host"@[3] == 'o');
    assert("--port"@[2] == 'p');
    assert("--pool-size"@[2] == 'p');
    assert("--cache-dir"@[2] == 'c');
    assert("--verbose"@[5] == 'b');
    assert("--enable-cf"@[2] == 'e');
}

/// Whether `word` is a flag whose value is the argument behind it.
pub open spec fn has_value_behind(word: Seq<char>) -> bool {
    ||| word == "--host"@
    ||| word == "--port"@
    ||| word == "--secret"@
    ||| word == "--dc"@
    ||| word == "--user-domains"@
    ||| word == "--pool-size"@
    ||| word == "--cache-dir"@
}

/// Whether `word` stands alone.
pub open spec fn stands_alone(word: Seq<char>) -> bool {
    ||| word == "--help"@
    ||| word == "-h"@
    ||| word == "--version"@
    ||| word == "-V"@
    ||| word == "--verbose"@
    ||| word == "--enable-cf"@
    ||| word == "--no-console"@
}

/// The words that stand alone, at any place of any command line: help and version end the
/// reading, and each switch changes its one option and goes on with the next argument. Where no
/// argument is left the proxy is run with the options so far, and any word that is none of the
/// fourteen ends the reading and is told as it was spelt.
pub proof fn law_words_that_stand_alone(
    args: Seq<Seq<char>>,
    is_file: Seq<bool>,
    at: int,
    options: OptionsView,
)
    requires
        0 <= at <= args.len(),
    ensures
        at == args.len() ==> outcome_from(args, is_file, at, options) == OutcomeView::Run(options),
        at < args.len() ==> {
            let word = args[at];
            let outcome = outcome_from(args, is_file, at, options);
            &&& word == "--help"@ || word == "-h"@ ==> outcome is ShowHelp
            &&& word == "--version"@ || word == "-V"@ ==> outcome is ShowVersion
            &&& word == "--verbose"@ ==> outcome == outcome_from(
                args,
                is_file,
                at + 1,
                OptionsView { verbose: true, ..options },
            )
            &&& word == "--enable-cf"@ ==> outcome == outcome_from(
                args,
                is_file,
                at + 1,
                OptionsView { cf_enabled: true, ..options },
            )
            &&& word == "--no-console"@ ==> outcome == outcome_from(
                args,
                is_file,
                at + 1,
                OptionsView { console: false, ..options },
            )
            &&& !stands_alone(word) && !has_value_behind(word) ==> outcome
                == OutcomeView::UnknownArg(word)
        },
{
    lemma_words_spell_their_flags();
}

/// The words with a value behind them, at any place of any command line. Without a value the
/// reading breaks off. With one, whatever it looks like, the word changes its one option and the
/// reading goes on behind the value; a number that cannot be read, a faulty secret and a cache
/// directory that is a file end it.
pub proof fn law_words_with_a_value(
    args: Seq<Seq<char>>,
    is_file: Seq<bool>,
    at: int,
    options: OptionsView,
)
    requires
        0 <= at < args.len(),
        has_value_behind(args[at]),
    ensures
        at + 1 == args.len() ==> outcome_from(args, is_file, at, options) is MissingValue,
        at + 1 < args.len() ==> {
            let word = args[at];
            let value = args[at + 1];
            let outcome = outcome_from(args, is_file, at, options);
            &&& word == "--host"@ ==> outcome == outcome_from(
                args,
                is_file,
                at + 2,
                OptionsView { host: value, ..options },
            )
            &&& word == "--port"@ ==> (match u16_in(value) {
                Some(port) => outcome == outcome_from(
                    args,
                    is_file,
                    at + 2,
                    OptionsView { port, ..options },
                ),
                None => outcome is BadNumber,
            })
            &&& word == "--secret"@ ==> (match secret_fault(value) {
                Some(fault) => outcome == OutcomeView::BadSecret(fault),
                None => outcome == outcome_from(
                    args,
                    is_file,
                    at + 2,
                    OptionsView {
                        settings: SettingsView {
                            pool_size: options.settings.pool_size,
                            secret: value,
                        },
                        ..options
                    },
                ),
            })
            &&& word == "--dc"@ ==> outcome == outcome_from(
                args,
                is_file,
                at + 2,
                OptionsView { dc_ips: value, ..options },
            )
            &&& word == "--user-domains"@ ==> outcome == outcome_from(
                args,
                is_file,
                at + 2,
                OptionsView { user_domain: value, ..options },
            )
            &&& word == "--pool-size"@ ==> (match i32_in(value) {
                Some(size) => outcome == outcome_from(
                    args,
                    is_file,
                    at + 2,
                    OptionsView {
                        settings: SettingsView {
                            pool_size: if size < 2 {
                                2
                            } else if size > 16 {
                                16
                            } else {
                                size
                            },
                            secret: options.settings.secret,
                        },
                        ..options
                    },
                ),
                None => outcome is BadNumber,
            })
            &&& word == "--cache-dir"@ && is_file[at + 1] ==> outcome is CacheDirIsFile
            &&& word == "--cache-dir"@ && !is_file[at + 1] ==> outcome == outcome_from(
                args,
                is_file,
                at + 2,
                OptionsView { cache_dir: Some(value), ..options },
            )
        },
{
    lemma_words_spell_their_flags();
}

/// An empty command line listens on port 1443 of 127.0.0.1, logs to the console and not in
/// detail, stays off Cloudflare, and keeps the settings that it is given; nothing else is set.
pub proof fn law_defaults_are_these(settings: SettingsView)
    ensures
        defaults(settings).host == seq!['1', '2', '7', '.', '0', '.', '0', '.', '1'],
        defaults(settings).port == 1443,
        defaults(settings).dc_ips.len() == 0,
        defaults(settings).user_domain.len() == 0,
        !defaults(settings).verbose,
        defaults(settings).console,
        !defaults(settings).cf_enabled,
        defaults(settings).cache_dir is None,
        defaults(settings).settings == settings,
{
    reveal_strlit("127.0.0.1");
    reveal_strlit("");
    assert("127.0.0.1"@ =~= seq!['1', '2', '7', '.', '0', '.', '0', '.', '1']);
}

/// The views of options, outcomes and arguments hold each part unchanged.
pub proof fn law_command_line_views_are_faithful(options: Options, text: String, args: Seq<String>)
    ensures
        options@.host == options.host@,
        options@.port == options.port,
        options@.dc_ips == options.dc_ips@,
        options@.user_domain == options.user_domain@,
        options@.verbose == options.verbose,
        options@.console == options.console,
        options@.cf_enabled == options.cf_enabled,
        options.cache_dir is None <==> options@.cache_dir is None,
        options.cache_dir matches Some(dir) ==> options@.cache_dir == Some(dir@),
        options@.settings == options.settings@,
        ArgsOutcome::ShowHelp@ is ShowHelp,
        ArgsOutcome::ShowVersion@ is ShowVersion,
        ArgsOutcome::CacheDirIsFile@ is CacheDirIsFile,
        ArgsOutcome::BadSecret(text)@ == OutcomeView::BadSecret(text@),
        ArgsOutcome::UnknownArg(text)@ == OutcomeView::UnknownArg(text@),
        ArgsOutcome::MissingValue@ is MissingValue,
        ArgsOutcome::BadNumber@ is BadNumber,
        ArgsOutcome::Run(options)@ == OutcomeView::Run(options@),
        texts(args).len() == args.len(),
        forall|i: int| 0 <= i < args.len() ==> #[trigger] texts(args)[i] == args[i]@,
{
}

} // verus!
