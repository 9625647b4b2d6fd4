//! Default places of the configuration file, and its validation.
use vstd::prelude::*;
use crate::config::models::{Config, GithubConfig, HttpConfig, default_domains, string_views};
use crate::error::RusherError;
use crate::text::same_chars;

verus! {

/// The default places of the configuration file, in the order they are tried.
pub open spec fn default_paths() -> Seq<Seq<char>> {
    seq!["./config/default.toml"@, "./config/development.toml"@, "/etc/rusher/config.toml"@]
}

/// The first of `paths` whose flag in `exists` is set.
pub open spec fn first_existing(paths: Seq<Seq<char>>, exists: Seq<bool>) -> Option<Seq<char>>
    decreases paths.len(),
{
    if paths.len() == 0 || exists.len() == 0 {
        None
    } else if exists[0] {
        Some(paths[0])
    } else {
        first_existing(paths.drop_first(), exists.drop_first())
    }
}

/// The default places of the configuration file, in the order they are tried.
pub fn default_config_paths() -> (v: Vec<String>)
    ensures
        v@.map_values(|s: String| s@) == default_paths(),
{
    let mut v: Vec<String> = Vec::new();
    v.push(String::from_str("./config/default.toml"));
    v.push(String::from_str("./config/development.toml"));
    v.push(String::from_str("/etc/rusher/config.toml"));
    assert(v@.map_values(|s: String| s@) =~= default_paths());
    v
}

/// The first of `paths` whose flag in `exists` is set.
pub fn first_existing_path(paths: &Vec<String>, exists: &Vec<bool>) -> (r: Option<String>)
    requires
        paths@.len() == exists@.len(),
    ensures
        match r {
            Some(p) => first_existing(paths@.map_values(|s: String| s@), exists@) == Some(p@),
            None => first_existing(paths@.map_values(|s: String| s@), exists@) is None,
        },
{
    let ghost views = paths@.map_values(|s: String| s@);
    assert(views.skip(0) =~= views);
    assert(exists@.skip(0) =~= exists@);
    let mut i: usize = 0;
    while i < paths.len()
        invariant
            paths@.len() == exists@.len(),
            i <= paths@.len(),
            views == paths@.map_values(|s: String| s@),
            first_existing(views, exists@) == first_existing(views.skip(i as int), exists@.skip(i as int)),
        decreases paths@.len() - i,
    {
        assert(views.skip(i as int).drop_first() =~= views.skip(i + 1));
        assert(exists@.skip(i as int).drop_first() =~= exists@.skip(i + 1));
        if exists[i] {
            return Some(paths[i].clone());
        }
        i = i + 1;
    }
    None
}

/// The first default place of the configuration file that exists;
/// `exists[i]` tells whether the i-th default place exists.
pub fn get_default_config_path(exists: &Vec<bool>) -> (r: Option<String>)
    requires
        exists@.len() == default_paths().len(),
    ensures
        match r {
            Some(p) => first_existing(default_paths(), exists@) == Some(p@),
            None => first_existing(default_paths(), exists@) is None,
        },
{
    let paths = default_config_paths();
    first_existing_path(&paths, exists)
}

/// Whether `level` names a log level (exactly, in lower case).
pub open spec fn log_level_valid(level: Seq<char>) -> bool {
    level == "trace"@ || level == "debug"@ || level == "info"@ || level == "warn"@ || level == "error"@
}

/// The message for an invalid log level.
pub open spec fn invalid_level_message(level: Seq<char>) -> Seq<char> {
    "无效的日志级别: "@ + level + "，有效值: [\"trace\", \"debug\", \"info\", \"warn\", \"error\"]"@
}

/// The first problem found in `c`, as its message; `None` if there is none.
pub open spec fn config_problem(c: Config) -> Option<Seq<char>> {
    if !log_level_valid(c.general.log_level@) {
        Some(invalid_level_message(c.general.log_level@))
    } else if c.scanner.scan_interval == 0 {
        Some("扫描间隔必须大于0"@)
    } else if c.scanner.max_concurrent == 0 {
        Some("最大并发数必须大于0"@)
    } else if c.github.domains@.len() == 0 {
        Some("GitHub 域名列表不能为空"@)
    } else if c.dns.listen_addr.port == 0 {
        Some("DNS 监听端口不能为0"@)
    } else {
        None
    }
}

/// Checks `config`: a known log level, a nonzero scan interval and
/// concurrency, at least one domain, and a nonzero listening port. The first
/// failed check is reported as a configuration error.
pub fn validate_config(config: &Config) -> (r: Result<(), RusherError>)
    ensures
        match r {
            Ok(()) => config_problem(*config) is None,
            Err(e) => e matches RusherError::ConfigError(m) && config_problem(*config) == Some(m@),
        },
{
    let level = config.general.log_level.as_str();
    let valid = same_chars(level, "trace") || same_chars(level, "debug") || same_chars(level, "info")
        || same_chars(level, "warn") || same_chars(level, "error");
    if !valid {
        let mut m = String::from_str("无效的日志级别: ");
        m.append(level);
        m.append("，有效值: [\"trace\", \"debug\", \"info\", \"warn\", \"error\"]");
        return Err(RusherError::ConfigError(m));
    }
    if config.scanner.scan_interval == 0 {
        return Err(RusherError::ConfigError(String::from_str("扫描间隔必须大于0")));
    }
    if config.scanner.max_concurrent == 0 {
        return Err(RusherError::ConfigError(String::from_str("最大并发数必须大于0")));
    }
    if config.github.domains.len() == 0 {
        return Err(RusherError::ConfigError(String::from_str("GitHub 域名列表不能为空")));
    }
    if config.dns.listen_addr.port() == 0 {
        return Err(RusherError::ConfigError(String::from_str("DNS 监听端口不能为0")));
    }
    Ok(())
}

/// The default settings pass validation.
pub proof fn lemma_default_config_valid(c: Config)
    requires
        c.is_default(),
    ensures
        config_problem(c) is None,
{
    assert(c.github.domains@.len() == string_views(c.github.domains@).len());
    assert(default_domains().len() == 8);
}

/// The log level does not decide validation as long as it is one of trace,
/// debug, info, warn and error: two settings that differ only in their log
/// level, each one of those five names, are both valid or both invalid. With
/// `lemma_default_config_valid`, the defaults with any of the five levels pass.
pub proof fn lemma_any_known_level_valid(c: Config, d: Config)
    requires
        c.dns == d.dns,
        c.scanner == d.scanner,
        c.github == d.github,
        c.general.log_level@ == "trace"@ || c.general.log_level@ == "debug"@ || c.general.log_level@ == "info"@
            || c.general.log_level@ == "warn"@ || c.general.log_level@ == "error"@,
        d.general.log_level@ == "trace"@ || d.general.log_level@ == "debug"@ || d.general.log_level@ == "info"@
            || d.general.log_level@ == "warn"@ || d.general.log_level@ == "error"@,
    ensures
        config_problem(c) is None <==> config_problem(d) is None,
{
}

/// The settings a configuration file is read over: the defaults, except that
/// the API token and the proxy are empty text.
pub fn file_defaults() -> (c: Config)
    ensures
        c.github.api_token matches Some(t) && t@.len() == 0,
        c.http.proxy matches Some(p) && p@.len() == 0,
        (Config {
            github: GithubConfig { api_token: None, ..c.github },
            http: HttpConfig { proxy: None, ..c.http },
            ..c
        }).is_default(),
{
    let mut c = Config::default();
    c.github.api_token = Some(String::new());
    c.http.proxy = Some(String::new());
    c
}

} // verus!
