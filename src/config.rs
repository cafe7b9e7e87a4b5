//! Run configuration and its command-line form.
use vstd::prelude::*;
use crate::endpoint::{is_valid_url, url_accepts};
use crate::text::{has_prefix, is_prefix, parse_unsigned, same_text, unsigned_value};

verus! {

/// What ends a run.
#[derive(PartialEq, Eq, Structural, Clone, Copy, Debug)]
pub enum TestType {
    /// A fixed number of requests.
    RequestCount,
    /// A wall-clock duration.
    Duration,
    /// Whichever of the two comes first.
    Both,
}

/// Settings of one run. Times are whole seconds.
#[derive(Clone, Debug)]
pub struct Config {
    pub requests: usize,
    pub duration: u64,
    pub test_type: TestType,
    /// Requests in flight at once.
    pub concurrency: usize,
    /// Worker threads of the request scheduler.
    pub threads: usize,
    /// Limit on a whole request/response cycle, name resolution included.
    pub timeout: u64,
    /// Limit on establishing the connection alone.
    pub connection_timeout: u64,
    /// Print the short form of the report.
    pub summarize: bool,
    pub url: String,
}

impl Default for Config {
    fn default() -> (r: Config)
        ensures
            r.requests == 10,
            r.duration == 0,
            r.test_type == TestType::RequestCount,
            r.concurrency == 1,
            r.threads == 1,
            r.timeout == 25,
            r.connection_timeout == 20,
            !r.summarize,
            r.url@ == Seq::<char>::empty(),
    {
        Config {
            requests: 10,
            duration: 0,
            test_type: TestType::RequestCount,
            concurrency: 1,
            threads: 1,
            timeout: 25,
            connection_timeout: 20,
            summarize: false,
            url: String::new(),
        }
    }
}

/// Why a command line was refused.
#[derive(PartialEq, Eq, Structural, Clone, Copy, Debug)]
pub enum ConfigError {
    InvalidRequests,
    InvalidConcurrency,
    InvalidThreads,
    InvalidDuration,
    InvalidTimeout,
    InvalidConnectionTimeout,
    UrlNotProvided,
    InvalidUrl,
    /// Fewer requests than requests in flight at once.
    RequestsBelowConcurrency,
    /// A word that is no option and not the first URL.
    UnknownArgument,
}

impl ConfigError {
    /// The message shown to the user.
    pub fn message(&self) -> &'static str {
        match self {
            ConfigError::InvalidRequests => "Invalid number of requests\nUse --help for more info",
            ConfigError::InvalidConcurrency => "Invalid number of concurrent requests\nUse --help for more info",
            ConfigError::InvalidThreads => "Invalid number of threads\nUse --help for more info",
            ConfigError::InvalidDuration => "Invalid value for duration\nUse --help for more info",
            ConfigError::InvalidTimeout => "Invalid value for timeout\nUse --help for more info",
            ConfigError::InvalidConnectionTimeout => "Invalid value for connection-timeout\nUse --help for more info",
            ConfigError::UrlNotProvided => "URL not provided\nUse --help for more info",
            ConfigError::InvalidUrl => "Invalid URL\nUse --help for more info",
            ConfigError::RequestsBelowConcurrency => "Number of requests must be >= concurrency\nUse --help for more info",
            ConfigError::UnknownArgument => "Unknown argument\nUse --help for more info",
        }
    }
}

/// What a command line asks for.
pub enum Parsed {
    /// Run a test with these settings.
    Run(Config),
    /// Show the usage text.
    Help,
    /// Show the program's name and version.
    Version,
}

/// What follows the flag in `arg`, trying the short form first, if `arg`
/// starts with either form.
pub open spec fn flag_rest(arg: Seq<char>, short: Seq<char>, long: Seq<char>) -> Option<Seq<char>> {
    if is_prefix(short, arg) {
        Some(arg.skip(short.len() as int))
    } else if is_prefix(long, arg) {
        Some(arg.skip(long.len() as int))
    } else {
        None
    }
}

/// A positive count written in the word at `next`, if there is one.
pub open spec fn next_word_count(args: Seq<String>, next: int) -> Option<nat> {
    if 0 <= next < args.len() {
        match unsigned_value(args[next]@, usize::MAX as nat) {
            Some(v) => if v > 0 {
                Some(v)
            } else {
                None
            },
            None => None,
        }
    } else {
        None
    }
}

/// A positive count and the index of the next unread word. The count is the
/// text after the flag or, where nothing follows the flag in its own word, the
/// next word.
pub open spec fn count_value(rest: Seq<char>, args: Seq<String>, next: int) -> Option<(nat, int)> {
    match unsigned_value(rest, usize::MAX as nat) {
        Some(v) => if v > 0 {
            Some((v, next))
        } else {
            None
        },
        None => if rest.len() == 0 {
            match next_word_count(args, next) {
                Some(v) => Some((v, next + 1)),
                None => None,
            }
        } else {
            None
        },
    }
}

pub open spec fn is_unit(c: char) -> bool {
    c == 's' || c == 'm' || c == 'h'
}

pub open spec fn unit_seconds(c: char) -> nat {
    if c == 'm' {
        60
    } else if c == 'h' {
        3600
    } else {
        1
    }
}

/// A positive number of seconds written as digits and an optional unit:
/// `s` (the default), `m` or `h`.
pub open spec fn duration_value(s: Seq<char>) -> Option<nat> {
    if s.len() == 0 {
        None
    } else {
        let digits = if is_unit(s.last()) {
            s.drop_last()
        } else {
            s
        };
        let unit = if is_unit(s.last()) {
            unit_seconds(s.last())
        } else {
            1
        };
        match unsigned_value(digits, u64::MAX as nat) {
            Some(v) => if 0 < v * unit <= u64::MAX {
                Some(v * unit)
            } else {
                None
            },
            None => None,
        }
    }
}

/// Seconds and the index of the next unread word. The duration is the text
/// after the flag or, where nothing follows the flag in its own word, the next
/// word.
pub open spec fn duration_arg(rest: Seq<char>, args: Seq<String>, next: int) -> Option<(nat, int)> {
    if rest.len() > 0 {
        match duration_value(rest) {
            Some(v) => Some((v, next)),
            None => None,
        }
    } else if 0 <= next < args.len() {
        match duration_value(args[next]@) {
            Some(v) => Some((v, next + 1)),
            None => None,
        }
    } else {
        None
    }
}

/// What follows the flag `short` or `long` at the start of `arg`.
fn flag_text<'a>(arg: &'a str, short: &str, long: &str) -> (r: Option<&'a str>)
    ensures
        r matches Some(t) ==> flag_rest(arg@, short@, long@) == Some(t@),
        r is None ==> flag_rest(arg@, short@, long@) is None,
{
    let n = arg.unicode_len();
    if has_prefix(arg, short) {
        Some(arg.substring_char(short.unicode_len(), n))
    } else if has_prefix(arg, long) {
        Some(arg.substring_char(long.unicode_len(), n))
    } else {
        None
    }
}

/// A positive count after a flag, from the rest of its word or the next word.
fn parse_count(rest: &str, args: &Vec<String>, next: &mut usize) -> (r: Option<usize>)
    ensures
        r matches Some(v) ==> count_value(rest@, args@, *old(next) as int) == Some(
            (v as nat, *final(next) as int),
        ),
        r is None ==> count_value(rest@, args@, *old(next) as int) is None,
{
    match parse_unsigned(rest, usize::MAX as u64) {
        Some(v) => {
            if v > 0 {
                Some(v as usize)
            } else {
                None
            }
        },
        None => parse_with_next_usize(args, next, rest),
    }
}

/// A positive count in the next word, for a flag with nothing after it in its
/// own word.
fn parse_with_next_usize(args: &Vec<String>, next: &mut usize, rest: &str) -> (r: Option<usize>)
    ensures
        r matches Some(v) ==> rest@.len() == 0 && next_word_count(args@, *old(next) as int)
            == Some(v as nat) && *final(next) == *old(next) + 1,
        r is None ==> (rest@.len() > 0 || next_word_count(args@, *old(next) as int) is None)
            && *final(next) == *old(next),
{
    if rest.unicode_len() > 0 || *next >= args.len() {
        return None;
    }
    match parse_unsigned(args[*next].as_str(), usize::MAX as u64) {
        Some(v) => {
            if v > 0 {
                *next = *next + 1;
                Some(v as usize)
            } else {
                None
            }
        },
        None => None,
    }
}

/// A duration after a flag, from the rest of its word or the next word.
fn parse_duration_arg(rest: &str, args: &Vec<String>, next: &mut usize) -> (r: Option<u64>)
    ensures
        r matches Some(v) ==> duration_arg(rest@, args@, *old(next) as int) == Some(
            (v as nat, *final(next) as int),
        ),
        r is None ==> duration_arg(rest@, args@, *old(next) as int) is None,
{
    if rest.unicode_len() > 0 {
        parse_duration_string(rest)
    } else {
        parse_with_next_duration(args, next)
    }
}

/// A duration in the next word, for a flag with nothing after it in its own
/// word.
fn parse_with_next_duration(args: &Vec<String>, next: &mut usize) -> (r: Option<u64>)
    ensures
        r matches Some(v) ==> 0 <= *old(next) < args@.len() && duration_value(
            args@[*old(next) as int]@,
        ) == Some(v as nat) && *final(next) == *old(next) + 1,
        r is None ==> !(0 <= *old(next) < args@.len() && duration_value(
            args@[*old(next) as int]@,
        ) is Some) && *final(next) == *old(next),
{
    if *next >= args.len() {
        return None;
    }
    match parse_duration_string(args[*next].as_str()) {
        Some(v) => {
            *next = *next + 1;
            Some(v)
        },
        None => None,
    }
}

/// Seconds written as digits and an optional unit (`s`, `m` or `h`).
pub fn parse_duration_string(s: &str) -> (r: Option<u64>)
    ensures
        r matches Some(v) ==> duration_value(s@) == Some(v as nat),
        r is None ==> duration_value(s@) is None,
{
    let n = s.unicode_len();
    if n == 0 {
        return None;
    }
    let last = s.get_char(n - 1);
    let has_unit = last == 's' || last == 'm' || last == 'h';
    let digits = if has_unit {
        s.substring_char(0, n - 1)
    } else {
        s
    };
    assert(has_unit ==> digits@ =~= s@.drop_last());
    let unit: u64 = if has_unit && last == 'm' {
        60
    } else if has_unit && last == 'h' {
        3600
    } else {
        1
    };
    match parse_unsigned(digits, u64::MAX) {
        None => None,
        Some(v) => match v.checked_mul(unit) {
            Some(t) => {
                if t > 0 {
                    Some(t)
                } else {
                    None
                }
            },
            None => None,
        },
    }
}

/// The settings of a `Config`, with the URL as its text.
pub struct ConfigView {
    pub requests: usize,
    pub duration: u64,
    pub test_type: TestType,
    pub concurrency: usize,
    pub threads: usize,
    pub timeout: u64,
    pub connection_timeout: u64,
    pub summarize: bool,
    pub url: Seq<char>,
}

impl View for Config {
    type V = ConfigView;

    open spec fn view(&self) -> ConfigView {
        ConfigView {
            requests: self.requests,
            duration: self.duration,
            test_type: self.test_type,
            concurrency: self.concurrency,
            threads: self.threads,
            timeout: self.timeout,
            connection_timeout: self.connection_timeout,
            summarize: self.summarize,
            url: self.url@,
        }
    }
}

/// What a command line asks for, with the settings as their view.
pub enum ParsedView {
    Run(ConfigView),
    Help,
    Version,
}

pub open spec fn parsed_view(r: Result<Parsed, ConfigError>) -> Result<ParsedView, ConfigError> {
    match r {
        Ok(Parsed::Run(c)) => Ok(ParsedView::Run(c@)),
        Ok(Parsed::Help) => Ok(ParsedView::Help),
        Ok(Parsed::Version) => Ok(ParsedView::Version),
        Err(e) => Err(e),
    }
}

/// The settings after an option word, the index of the next unread word,
/// whether the URL and the request count have been given; or the error the
/// word brings; or `None` where no option takes the word. `next` is the index
/// of the word after `arg`. The forms are tried in this order: duration,
/// request count, concurrency, threads, timeout, connection timeout, `-s`,
/// and the first word without a leading `-` as the URL.
pub open spec fn word_step(
    c: ConfigView,
    arg: Seq<char>,
    args: Seq<String>,
    next: int,
    url_set: bool,
    count_given: bool,
) -> Option<Result<(ConfigView, int, bool, bool), ConfigError>> {
    if flag_rest(arg, "-d"@, "--duration"@) is Some {
        let rest = flag_rest(arg, "-d"@, "--duration"@).unwrap();
        Some(
            if duration_arg(rest, args, next) is Some {
                let (v, n) = duration_arg(rest, args, next).unwrap();
                let t = if count_given {
                    TestType::Both
                } else {
                    TestType::Duration
                };
                Ok((ConfigView { duration: v as u64, test_type: t, ..c }, n, url_set, count_given))
            } else {
                Err(ConfigError::InvalidDuration)
            },
        )
    } else if flag_rest(arg, "-n"@, "--requests"@) is Some {
        let rest = flag_rest(arg, "-n"@, "--requests"@).unwrap();
        Some(
            if count_value(rest, args, next) is Some {
                let (v, n) = count_value(rest, args, next).unwrap();
                let t = if c.test_type == TestType::Duration {
                    TestType::Both
                } else {
                    c.test_type
                };
                Ok((ConfigView { requests: v as usize, test_type: t, ..c }, n, url_set, true))
            } else {
                Err(ConfigError::InvalidRequests)
            },
        )
    } else if flag_rest(arg, "-c"@, "--concurrency"@) is Some {
        let rest = flag_rest(arg, "-c"@, "--concurrency"@).unwrap();
        Some(
            if count_value(rest, args, next) is Some {
                let (v, n) = count_value(rest, args, next).unwrap();
                Ok((ConfigView { concurrency: v as usize, ..c }, n, url_set, count_given))
            } else {
                Err(ConfigError::InvalidConcurrency)
            },
        )
    } else if flag_rest(arg, "-t"@, "--threads"@) is Some {
        let rest = flag_rest(arg, "-t"@, "--threads"@).unwrap();
        Some(
            if count_value(rest, args, next) is Some {
                let (v, n) = count_value(rest, args, next).unwrap();
                Ok((ConfigView { threads: v as usize, ..c }, n, url_set, count_given))
            } else {
                Err(ConfigError::InvalidThreads)
            },
        )
    } else if flag_rest(arg, "-T"@, "--timeout"@) is Some {
        let rest = flag_rest(arg, "-T"@, "--timeout"@).unwrap();
        Some(
            if duration_arg(rest, args, next) is Some {
                let (v, n) = duration_arg(rest, args, next).unwrap();
                Ok((ConfigView { timeout: v as u64, ..c }, n, url_set, count_given))
            } else {
                Err(ConfigError::InvalidTimeout)
            },
        )
    } else if flag_rest(arg, "-C"@, "--connection-timeout"@) is Some {
        let rest = flag_rest(arg, "-C"@, "--connection-timeout"@).unwrap();
        Some(
            if duration_arg(rest, args, next) is Some {
                let (v, n) = duration_arg(rest, args, next).unwrap();
                Ok((ConfigView { connection_timeout: v as u64, ..c }, n, url_set, count_given))
            } else {
                Err(ConfigError::InvalidConnectionTimeout)
            },
        )
    } else if arg == "-s"@ {
        Some(Ok((ConfigView { summarize: true, ..c }, next, url_set, count_given)))
    } else if !url_set && !is_prefix("-"@, arg) {
        Some(
            if url_accepts(arg) {
                Ok((ConfigView { url: arg, ..c }, next, true, count_given))
            } else {
                Err(ConfigError::InvalidUrl)
            },
        )
    } else {
        None
    }
}

/// The outcome once every word has been read.
pub open spec fn finish_words(c: ConfigView, url_set: bool) -> Result<ParsedView, ConfigError> {
    if !url_set {
        Err(ConfigError::UrlNotProvided)
    } else if c.concurrency > c.requests {
        Err(ConfigError::RequestsBelowConcurrency)
    } else {
        Ok(ParsedView::Run(c))
    }
}

/// Reads the words from `next` on. `-h`/`--help` and `-v`/`--version` end the
/// reading at once; a word that no option takes is an error. Each word read
/// uses up one unit of `fuel`, which starts at no less than the number of
/// words left.
pub open spec fn read_words(
    args: Seq<String>,
    c: ConfigView,
    next: int,
    url_set: bool,
    count_given: bool,
    fuel: nat,
) -> Result<ParsedView, ConfigError>
    decreases fuel,
{
    if next < 0 || next >= args.len() || fuel == 0 {
        finish_words(c, url_set)
    } else {
        let arg = args[next]@;
        if arg == "-h"@ || arg == "--help"@ {
            Ok(ParsedView::Help)
        } else if arg == "-v"@ || arg == "--version"@ {
            Ok(ParsedView::Version)
        } else {
            match word_step(c, arg, args, next + 1, url_set, count_given) {
                None => Err(ConfigError::UnknownArgument),
                Some(Err(e)) => Err(e),
                Some(Ok((c2, n2, u2, g2))) => read_words(args, c2, n2, u2, g2, (fuel - 1) as nat),
            }
        }
    }
}

/// What the command line `args` asks for; `args[0]` is the program's name.
pub open spec fn command_line(args: Seq<String>) -> Result<ParsedView, ConfigError> {
    if args.len() <= 1 {
        Ok(ParsedView::Help)
    } else {
        read_words(args, default_view(), 1, false, false, (args.len() - 1) as nat)
    }
}

/// The settings before any option is read.
pub open spec fn default_view() -> ConfigView {
    ConfigView {
        requests: 10,
        duration: 0,
        test_type: TestType::RequestCount,
        concurrency: 1,
        threads: 1,
        timeout: 25,
        connection_timeout: 20,
        summarize: false,
        url: Seq::empty(),
    }
}

impl Config {
    /// Settings that a run can start from.
    pub open spec fn valid(&self) -> bool {
        &&& self.requests > 0
        &&& self.concurrency > 0
        &&& self.concurrency <= self.requests
        &&& self.threads > 0
        &&& self.timeout > 0
        &&& self.connection_timeout > 0
        &&& self.test_type != TestType::RequestCount ==> self.duration > 0
        &&& url_accepts(self.url@)
    }

    /// The parts of `valid` that hold of the settings at every word.
    pub open spec fn valid_so_far(&self, url_set: bool) -> bool {
        &&& self.requests > 0
        &&& self.concurrency > 0
        &&& self.threads > 0
        &&& self.timeout > 0
        &&& self.connection_timeout > 0
        &&& self.test_type != TestType::RequestCount ==> self.duration > 0
        &&& url_set ==> url_accepts(self.url@)
    }

    /// Reads a command line; `args[0]` is the program's name. With nothing
    /// after it the usage text is asked for. The words are read in order as
    /// `command_line` states, and every run it yields has settings that a run
    /// can start from.
    #[verifier::rlimit(30)]
    pub fn parse(args: &Vec<String>) -> (r: Result<Parsed, ConfigError>)
        ensures
            parsed_view(r) == command_line(args@),
            r matches Ok(Parsed::Run(c)) ==> c.valid(),
    {
        if args.len() <= 1 {
            return Ok(Parsed::Help);
        }
        let mut config = Config::default();
        let mut next: usize = 1;
        let mut url_set = false;
        let mut count_given = false;
        let ghost mut fuel: nat = (args@.len() - 1) as nat;
        while next < args.len()
            invariant
                1 <= next <= args.len(),
                fuel >= args@.len() - next,
                config.valid_so_far(url_set),
                read_words(args@, config@, next as int, url_set, count_given, fuel)
                    == command_line(args@),
            decreases args.len() - next,
        {
            let arg = args[next].as_str();
            next = next + 1;
            if Self::handle_help(arg) {
                return Ok(Parsed::Help);
            }
            if Self::handle_version(arg) {
                return Ok(Parsed::Version);
            }
            let mut handled = false;
            match Self::handle_duration_test(&mut config, arg, args, &mut next, &mut count_given) {
                Err(e) => {
                    return Err(e);
                },
                Ok(b) => {
                    handled = b;
                },
            }
            if !handled {
                match Self::handle_request_count_test(
                    &mut config,
                    arg,
                    args,
                    &mut next,
                    &mut count_given,
                ) {
                    Err(e) => {
                        return Err(e);
                    },
                    Ok(b) => {
                        handled = b;
                    },
                }
            }
            if !handled {
                match Self::handle_concurrency(&mut config, arg, args, &mut next) {
                    Err(e) => {
                        return Err(e);
                    },
                    Ok(b) => {
                        handled = b;
                    },
                }
            }
            if !handled {
                match Self::handle_threads(&mut config, arg, args, &mut next) {
                    Err(e) => {
                        return Err(e);
                    },
                    Ok(b) => {
                        handled = b;
                    },
                }
            }
            if !handled {
                match Self::handle_timeout(&mut config, arg, args, &mut next) {
                    Err(e) => {
                        return Err(e);
                    },
                    Ok(b) => {
                        handled = b;
                    },
                }
            }
            if !handled {
                match Self::handle_connection_timeout(&mut config, arg, args, &mut next) {
                    Err(e) => {
                        return Err(e);
                    },
                    Ok(b) => {
                        handled = b;
                    },
                }
            }
            if !handled {
                handled = Self::handle_summarize(&mut config, arg);
            }
            if !handled {
                match Self::handle_url(&mut config, arg, &mut url_set) {
                    Err(e) => {
                        return Err(e);
                    },
                    Ok(b) => {
                        handled = b;
                    },
                }
            }
            if !handled {
                return Err(ConfigError::UnknownArgument);
            }
            proof {
                fuel = (fuel - 1) as nat;
            }
        }
        if !url_set {
            return Err(ConfigError::UrlNotProvided);
        }
        if config.concurrency > config.requests {
            return Err(ConfigError::RequestsBelowConcurrency);
        }
        Ok(Parsed::Run(config))
    }

    /// `-d<D>`, `-d <D>`, `--duration<D>` or `--duration <D>`: run for a duration, or until the request
    /// count is reached too where `-n` came earlier.
    pub fn handle_duration_test(
        config: &mut Config,
        arg: &str,
        args: &Vec<String>,
        next: &mut usize,
        count_given: &mut bool,
    ) -> (r: Result<bool, ConfigError>)
        ensures
            *final(count_given) == *old(count_given),
            match flag_rest(arg@, "-d"@, "--duration"@) {
                None => r == Ok::<bool, ConfigError>(false) && *final(config) == *old(config)
                    && *final(next) == *old(next),
                Some(rest) => match duration_arg(rest, args@, *old(next) as int) {
                    None => r == Err::<bool, ConfigError>(ConfigError::InvalidDuration),
                    Some((v, n)) => r == Ok::<bool, ConfigError>(true) && *final(next) == n
                        && *final(config) == (Config {
                        duration: v as u64,
                        test_type: if *old(count_given) {
                            TestType::Both
                        } else {
                            TestType::Duration
                        },
                        ..*old(config)
                    }),
                },
            },
    {
        match flag_text(arg, "-d", "--duration") {
            None => Ok(false),
            Some(rest) => match parse_duration_arg(rest, args, next) {
                None => Err(ConfigError::InvalidDuration),
                Some(v) => {
                    config.duration = v;
                    if *count_given {
                        config.test_type = TestType::Both;
                    } else {
                        config.test_type = TestType::Duration;
                    }
                    Ok(true)
                },
            },
        }
    }

    /// `-n<N>`, `-n <N>`, `--requests<N>` or `--requests <N>`: the number of
    /// requests; a run bounded by a duration becomes bounded by both.
    pub fn handle_request_count_test(
        config: &mut Config,
        arg: &str,
        args: &Vec<String>,
        next: &mut usize,
        count_given: &mut bool,
    ) -> (r: Result<bool, ConfigError>)
        ensures
            match flag_rest(arg@, "-n"@, "--requests"@) {
                None => r == Ok::<bool, ConfigError>(false) && *final(config) == *old(config)
                    && *final(next) == *old(next) && *final(count_given) == *old(count_given),
                Some(rest) => match count_value(rest, args@, *old(next) as int) {
                    None => r == Err::<bool, ConfigError>(ConfigError::InvalidRequests),
                    Some((v, n)) => r == Ok::<bool, ConfigError>(true) && *final(next) == n
                        && *final(count_given) && *final(config) == (Config {
                        requests: v as usize,
                        test_type: if old(config).test_type == TestType::Duration {
                            TestType::Both
                        } else {
                            old(config).test_type
                        },
                        ..*old(config)
                    }),
                },
            },
    {
        match flag_text(arg, "-n", "--requests") {
            None => Ok(false),
            Some(rest) => match parse_count(rest, args, next) {
                None => Err(ConfigError::InvalidRequests),
                Some(v) => {
                    config.requests = v;
                    if config.test_type == TestType::Duration {
                        config.test_type = TestType::Both;
                    }
                    *count_given = true;
                    Ok(true)
                },
            },
        }
    }

    /// `-c<N>`, `-c <N>`, `--concurrency<N>` or `--concurrency <N>`: requests
    /// in flight at once.
    pub fn handle_concurrency(config: &mut Config, arg: &str, args: &Vec<String>, next: &mut usize) -> (r:
        Result<bool, ConfigError>)
        ensures
            match flag_rest(arg@, "-c"@, "--concurrency"@) {
                None => r == Ok::<bool, ConfigError>(false) && *final(config) == *old(config)
                    && *final(next) == *old(next),
                Some(rest) => match count_value(rest, args@, *old(next) as int) {
                    None => r == Err::<bool, ConfigError>(ConfigError::InvalidConcurrency),
                    Some((v, n)) => r == Ok::<bool, ConfigError>(true) && *final(next) == n
                        && *final(config) == (Config { concurrency: v as usize, ..*old(config) }),
                },
            },
    {
        match flag_text(arg, "-c", "--concurrency") {
            None => Ok(false),
            Some(rest) => match parse_count(rest, args, next) {
                None => Err(ConfigError::InvalidConcurrency),
                Some(v) => {
                    config.concurrency = v;
                    Ok(true)
                },
            },
        }
    }

    /// `-t<N>`, `-t <N>`, `--threads<N>` or `--threads <N>`: worker threads.
    pub fn handle_threads(config: &mut Config, arg: &str, args: &Vec<String>, next: &mut usize) -> (r:
        Result<bool, ConfigError>)
        ensures
            match flag_rest(arg@, "-t"@, "--threads"@) {
                None => r == Ok::<bool, ConfigError>(false) && *final(config) == *old(config)
                    && *final(next) == *old(next),
                Some(rest) => match count_value(rest, args@, *old(next) as int) {
                    None => r == Err::<bool, ConfigError>(ConfigError::InvalidThreads),
                    Some((v, n)) => r == Ok::<bool, ConfigError>(true) && *final(next) == n
                        && *final(config) == (Config { threads: v as usize, ..*old(config) }),
                },
            },
    {
        match flag_text(arg, "-t", "--threads") {
            None => Ok(false),
            Some(rest) => match parse_count(rest, args, next) {
                None => Err(ConfigError::InvalidThreads),
                Some(v) => {
                    config.threads = v;
                    Ok(true)
                },
            },
        }
    }

    /// `-T<D>`, `-T <D>`, `--timeout<D>` or `--timeout <D>`: limit on a whole
    /// request.
    pub fn handle_timeout(config: &mut Config, arg: &str, args: &Vec<String>, next: &mut usize) -> (r:
        Result<bool, ConfigError>)
        ensures
            match flag_rest(arg@, "-T"@, "--timeout"@) {
                None => r == Ok::<bool, ConfigError>(false) && *final(config) == *old(config)
                    && *final(next) == *old(next),
                Some(rest) => match duration_arg(rest, args@, *old(next) as int) {
                    None => r == Err::<bool, ConfigError>(ConfigError::InvalidTimeout),
                    Some((v, n)) => r == Ok::<bool, ConfigError>(true) && *final(next) == n
                        && *final(config) == (Config {
                        timeout: v as u64,
                        ..*old(config)
                    }),
                },
            },
    {
        match flag_text(arg, "-T", "--timeout") {
            None => Ok(false),
            Some(rest) => match parse_duration_arg(rest, args, next) {
                None => Err(ConfigError::InvalidTimeout),
                Some(v) => {
                    config.timeout = v;
                    Ok(true)
                },
            },
        }
    }

    /// `-C<D>`, `-C <D>`, `--connection-timeout<D>` or `--connection-timeout <D>`:
    /// limit on connecting.
    pub fn handle_connection_timeout(
        config: &mut Config,
        arg: &str,
        args: &Vec<String>,
        next: &mut usize,
    ) -> (r: Result<bool, ConfigError>)
        ensures
            match flag_rest(arg@, "-C"@, "--connection-timeout"@) {
                None => r == Ok::<bool, ConfigError>(false) && *final(config) == *old(config)
                    && *final(next) == *old(next),
                Some(rest) => match duration_arg(rest, args@, *old(next) as int) {
                    None => r == Err::<bool, ConfigError>(ConfigError::InvalidConnectionTimeout),
                    Some((v, n)) => r == Ok::<bool, ConfigError>(true) && *final(next) == n
                        && *final(config) == (Config {
                        connection_timeout: v as u64,
                        ..*old(config)
                    }),
                },
            },
    {
        match flag_text(arg, "-C", "--connection-timeout") {
            None => Ok(false),
            Some(rest) => match parse_duration_arg(rest, args, next) {
                None => Err(ConfigError::InvalidConnectionTimeout),
                Some(v) => {
                    config.connection_timeout = v;
                    Ok(true)
                },
            },
        }
    }

    /// `-s`: print the short report.
    pub fn handle_summarize(config: &mut Config, arg: &str) -> (r: bool)
        ensures
            r == (arg@ == "-s"@),
            *final(config) == if r {
                Config { summarize: true, ..*old(config) }
            } else {
                *old(config)
            },
    {
        if same_text(arg, "-s") {
            config.summarize = true;
            true
        } else {
            false
        }
    }

    /// `-h` or `--help`.
    pub fn handle_help(arg: &str) -> (r: bool)
        ensures
            r == (arg@ == "-h"@ || arg@ == "--help"@),
    {
        same_text(arg, "-h") || same_text(arg, "--help")
    }

    /// `-v` or `--version`.
    pub fn handle_version(arg: &str) -> (r: bool)
        ensures
            r == (arg@ == "-v"@ || arg@ == "--version"@),
    {
        same_text(arg, "-v") || same_text(arg, "--version")
    }

    /// The first word that does not start with `-` is the target URL.
    pub fn handle_url(config: &mut Config, arg: &str, url_set: &mut bool) -> (r: Result<bool, ConfigError>)
        ensures
            if !*old(url_set) && !is_prefix("-"@, arg@) {
                if url_accepts(arg@) {
                    r == Ok::<bool, ConfigError>(true) && *final(url_set) && final(config).url@
                        == arg@ && *final(config) == (Config {
                        url: final(config).url,
                        ..*old(config)
                    })
                } else {
                    r == Err::<bool, ConfigError>(ConfigError::InvalidUrl)
                }
            } else {
                r == Ok::<bool, ConfigError>(false) && *final(config) == *old(config)
                    && *final(url_set) == *old(url_set)
            },
    {
        if !*url_set && !has_prefix(arg, "-") {
            if !Self::parse_url(config, arg) {
                return Err(ConfigError::InvalidUrl);
            }
            *url_set = true;
            Ok(true)
        } else {
            Ok(false)
        }
    }

    /// Takes `url` as the target where it is well formed.
    fn parse_url(config: &mut Config, url: &str) -> (r: bool)
        ensures
            r == url_accepts(url@),
            r ==> final(config).url@ == url@ && *final(config) == (Config {
                url: final(config).url,
                ..*old(config)
            }),
            !r ==> *final(config) == *old(config),
    {
        if !is_valid_url(url) {
            return false;
        }
        config.url = url.to_string();
        true
    }
}

} // verus!
