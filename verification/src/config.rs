//! Configuration (`~/.mso/config.toml`), presets, how `mso run` settles
//! its settings, and where the daemon keeps its files.
use vstd::prelude::*;
use crate::protocol::{HealthCheckConfig, RestartPolicy, copy_opt_string, copy_strings};
use crate::text::{copy_string, push_str, str_eq, string_push};

verus! {

// ── Clock ──────────────────────────────────────────────────────────

/// Reads the wall clock: seconds and sub-second nanoseconds since the Unix
/// epoch, or `None` when the clock is set before it.
#[verifier::external_body]
fn since_unix_epoch() -> Option<(u64, u32)> {
    match std::time::SystemTime::now().duration_since(std::time::UNIX_EPOCH) {
        Ok(d) => Some((d.as_secs(), d.subsec_nanos())),
        Err(_) => None,
    }
}

/// `Duration::as_millis() as u64`: whole milliseconds, truncated to 64 bits.
pub open spec fn millis_of(secs: u64, nanos: u32) -> u64 {
    ((secs as nat * 1000 + nanos as nat / 1_000_000) % 0x1_0000_0000_0000_0000) as u64
}

/// Milliseconds of a duration given as seconds and nanoseconds, as
/// `Duration::as_millis() as u64` computes them.
pub fn millis_from_duration(secs: u64, nanos: u32) -> (m: u64)
    ensures
        m == millis_of(secs, nanos),
{
    let total: u128 = secs as u128 * 1000 + (nanos / 1_000_000) as u128;
    (total % 0x1_0000_0000_0000_0000u128) as u64
}

/// Current epoch millis (zero when the clock reads before the epoch).
pub fn epoch_millis() -> (m: u64)
    ensures
        m == 0 || exists|secs: u64, nanos: u32| m == millis_of(secs, nanos),
{
    match since_unix_epoch() {
        Some((secs, nanos)) => millis_from_duration(secs, nanos),
        None => 0,
    }
}

// ── Paths ──────────────────────────────────────────────────────────

/// `PathBuf::join` on Unix: an absolute `name` replaces `base`; otherwise
/// `name` is appended, after a `/` unless `base` is empty or ends in one.
pub open spec fn path_join(base: Seq<char>, name: Seq<char>) -> Seq<char> {
    if name.len() > 0 && name[0] == '/' {
        name
    } else if base.len() == 0 || base.last() == '/' {
        base + name
    } else {
        base + seq!['/'] + name
    }
}

/// `base.join(name)` for paths held as strings.
pub fn join_path(base: &str, name: &str) -> (r: String)
    ensures
        r@ == path_join(base@, name@),
{
    let n = crate::text::chars_of(name);
    if n.len() > 0 && n[0] == '/' {
        return copy_string(&crate::text::string_from_chars(&n));
    }
    let b = crate::text::chars_of(base);
    let mut r = String::new();
    push_str(&mut r, base);
    if !(b.len() == 0 || b[b.len() - 1] == '/') {
        string_push(&mut r, '/');
    }
    push_str(&mut r, name);
    assert(r@ =~= path_join(base@, name@));
    r
}

/// The MSO directory under a home directory (`.` when there is none).
pub open spec fn mso_dir_under(home: Option<Seq<char>>) -> Seq<char> {
    path_join(
        match home {
            Some(h) => h,
            None => "."@,
        },
        ".mso"@,
    )
}

/// `dirs::home_dir`, converted to a string (lossily, for a path that is not
/// UTF-8). The home directory comes from the environment.
#[verifier::external_body]
fn home_dir() -> Option<String> {
    dirs::home_dir().map(|p| p.to_string_lossy().into_owned())
}

/// `mso_dir_under(home)`.
pub fn mso_dir_for(home: Option<&str>) -> (r: String)
    ensures
        r@ == mso_dir_under(match home { Some(h) => Some(h@), None => None }),
{
    match home {
        Some(h) => join_path(h, ".mso"),
        None => join_path(".", ".mso"),
    }
}

/// `~/.mso/`.
pub fn mso_dir() -> (r: String)
    ensures
        exists|home: Option<Seq<char>>| r@ == mso_dir_under(home),
{
    let home = home_dir();
    match home {
        Some(h) => mso_dir_for(Some(h.as_str())),
        None => mso_dir_for(None),
    }
}

/// `~/.mso/mso.sock`.
pub fn mso_sock_path() -> (r: String)
    ensures
        exists|home: Option<Seq<char>>| r@ == path_join(mso_dir_under(home), "mso.sock"@),
{
    let d = mso_dir();
    join_path(d.as_str(), "mso.sock")
}

/// `~/.mso/daemon.pid`.
pub fn mso_pid_path() -> (r: String)
    ensures
        exists|home: Option<Seq<char>>| r@ == path_join(mso_dir_under(home), "daemon.pid"@),
{
    let d = mso_dir();
    join_path(d.as_str(), "daemon.pid")
}

/// `~/.mso/config.toml`.
pub fn mso_config_path() -> (r: String)
    ensures
        exists|home: Option<Seq<char>>| r@ == path_join(mso_dir_under(home), "config.toml"@),
{
    let d = mso_dir();
    join_path(d.as_str(), "config.toml")
}

/// `~/.mso/processes.json`, where the daemon persists its table.
pub fn processes_file() -> (r: String)
    ensures
        exists|home: Option<Seq<char>>| r@ == path_join(mso_dir_under(home), "processes.json"@),
{
    let d = mso_dir();
    join_path(d.as_str(), "processes.json")
}

// ── Configuration ──────────────────────────────────────────────────

/// Optional colour overrides for the dashboard.
#[derive(Clone, Debug)]
pub struct ThemeConfig {
    pub accent: Option<String>,
    pub bg_dark: Option<String>,
    pub bg_mid: Option<String>,
}

/// The settings of `~/.mso/config.toml`.
#[derive(Clone, Debug)]
pub struct Config {
    pub restart_policy: String,
    pub silence_secs: Option<u64>,
    pub log_retention_days: u64,
    pub theme: Option<ThemeConfig>,
}

/// The restart policy a config file gets when it names none: `"no"`.
pub fn default_restart() -> (r: String)
    ensures
        r@ == "no"@,
{
    String::from_str("no")
}

/// The log retention a config file gets when it names none: 30 days.
pub fn default_log_retention() -> (r: u64)
    ensures
        r == 30,
{
    30
}

impl Default for Config {
    fn default() -> (r: Config)
        ensures
            r.restart_policy@ == "no"@,
            r.silence_secs.is_none(),
            r.log_retention_days == 30,
            r.theme.is_none(),
    {
        Config {
            restart_policy: default_restart(),
            silence_secs: None,
            log_retention_days: default_log_retention(),
            theme: None,
        }
    }
}

pub open spec fn is_hex_digit(c: char) -> bool {
    ('0' <= c && c <= '9') || ('a' <= c && c <= 'f') || ('A' <= c && c <= 'F')
}

/// A colour written `#RRGGBB`.
pub open spec fn is_hex_color(s: Seq<char>) -> bool {
    s.len() == 7 && s[0] == '#' && forall|i: int| 1 <= i < 7 ==> is_hex_digit(s[i])
}

pub open spec fn theme_errors(theme: ThemeConfig) -> Seq<Seq<char>> {
    let accent = match theme.accent {
        Some(v) => if is_hex_color(v@) { seq![] } else { seq!["theme.accent must be a valid hex color like #00CCFF"@] },
        None => seq![],
    };
    let dark = match theme.bg_dark {
        Some(v) => if is_hex_color(v@) { seq![] } else { seq!["theme.bg_dark must be a valid hex color like #00CCFF"@] },
        None => seq![],
    };
    let mid = match theme.bg_mid {
        Some(v) => if is_hex_color(v@) { seq![] } else { seq!["theme.bg_mid must be a valid hex color like #00CCFF"@] },
        None => seq![],
    };
    accent + dark + mid
}

/// What is wrong with a configuration, one message per problem, in the
/// order: restart policy, silence, retention, then each theme colour.
pub open spec fn config_errors(cfg: Config) -> Seq<Seq<char>> {
    let restart = if cfg.restart_policy@ == "no"@ || cfg.restart_policy@ == "always"@ {
        seq![]
    } else {
        seq!["restart_policy must be 'no' or 'always'"@]
    };
    let silence = match cfg.silence_secs {
        Some(secs) => if secs > 86400 { seq!["silence_secs must be ≤ 86400"@] } else { seq![] },
        None => seq![],
    };
    let retention = if cfg.log_retention_days == 0 { seq!["log_retention_days must be > 0"@] } else { seq![] };
    let theme = match cfg.theme {
        Some(t) => theme_errors(t),
        None => seq![],
    };
    restart + silence + retention + theme
}

fn is_hex_digit_exec(c: char) -> (r: bool)
    ensures
        r == is_hex_digit(c),
{
    ('0' <= c && c <= '9') || ('a' <= c && c <= 'f') || ('A' <= c && c <= 'F')
}

/// Whether `s` is a colour written `#RRGGBB`.
pub fn hex_color_valid(s: &str) -> (r: bool)
    ensures
        r == is_hex_color(s@),
{
    let v = crate::text::chars_of(s);
    if v.len() != 7 || v[0] != '#' {
        return false;
    }
    let mut i: usize = 1;
    while i < 7
        invariant
            v@ == s@,
            v.len() == 7,
            1 <= i <= 7,
            forall|j: int| 1 <= j < i ==> is_hex_digit(v@[j]),
        decreases 7 - i,
    {
        if !is_hex_digit_exec(v[i]) {
            return false;
        }
        i = i + 1;
    }
    true
}

fn push_color_error(errors: &mut Vec<String>, v: &Option<String>, msg: &str)
    ensures
        final(errors).deep_view() == old(errors).deep_view() + match *v {
            Some(s) => if is_hex_color(s@) { seq![] } else { seq![msg@] },
            None => seq![],
        },
{
    let ghost before = errors.deep_view();
    if let Some(s) = v {
        if !hex_color_valid(s.as_str()) {
            crate::vecs::vec_push(errors, String::from_str(msg));
        }
    }
    assert(errors.deep_view() =~= before + match *v {
        Some(s) => if is_hex_color(s@) { seq![] } else { seq![msg@] },
        None => seq![],
    });
}

impl Config {
    /// The problems with this configuration (empty when it is valid).
    pub fn validate(&self) -> (errors: Vec<String>)
        ensures
            errors.deep_view() == config_errors(*self),
    {
        let mut errors: Vec<String> = Vec::new();
        let r = self.restart_policy.as_str();
        if !(str_eq(r, "no") || str_eq(r, "always")) {
            crate::vecs::vec_push(&mut errors, String::from_str("restart_policy must be 'no' or 'always'"));
        }
        if let Some(secs) = self.silence_secs {
            if secs > 86400 {
                crate::vecs::vec_push(&mut errors, String::from_str("silence_secs must be ≤ 86400"));
            }
        }
        if self.log_retention_days == 0 {
            crate::vecs::vec_push(&mut errors, String::from_str("log_retention_days must be > 0"));
        }
        if let Some(theme) = &self.theme {
            push_color_error(&mut errors, &theme.accent, "theme.accent must be a valid hex color like #00CCFF");
            push_color_error(&mut errors, &theme.bg_dark, "theme.bg_dark must be a valid hex color like #00CCFF");
            push_color_error(&mut errors, &theme.bg_mid, "theme.bg_mid must be a valid hex color like #00CCFF");
        }
        assert(errors.deep_view() =~= config_errors(*self));
        errors
    }
}

// ── Presets and `mso run` ──────────────────────────────────────────

/// A saved set of `mso run` options (`~/.mso/presets/<name>.toml`).
#[derive(Clone, Debug)]
pub struct Preset {
    pub command: Vec<String>,
    pub restart_policy: String,
    pub tags: Vec<String>,
    pub silence_secs: Option<u64>,
    pub health_check: Option<String>,
    pub health_interval: Option<u64>,
    pub health_timeout: Option<u64>,
    pub health_max_failures: Option<u32>,
}

/// The options given to `mso run`.
pub struct RunConfig {
    pub silence: Option<u64>,
    pub restart: Option<String>,
    pub command: Vec<String>,
    pub tags: Vec<String>,
    pub health_check: Option<String>,
    pub health_interval: u64,
    pub health_timeout: u64,
    pub health_max_failures: u32,
    pub log_file: Option<String>,
    pub preset: Option<String>,
}

/// The settings `mso run` registers with.
pub struct RunPlan {
    pub command: Vec<String>,
    pub silence: Option<u64>,
    pub restart_policy: RestartPolicy,
    pub tags: Vec<String>,
    pub health_check: Option<HealthCheckConfig>,
    pub log_file: Option<String>,
}

pub open spec fn or_opt<T>(a: Option<T>, b: Option<T>) -> Option<T> {
    match a {
        Some(x) => Some(x),
        None => b,
    }
}

/// The restart policy name `mso run` settles on: the flag, else the
/// preset's, else the configuration's.
pub open spec fn effective_restart(cfg: &RunConfig, config: &Config, preset: Option<&Preset>) -> Seq<char> {
    match cfg.restart {
        Some(v) => v@,
        None => match preset {
            Some(p) => p.restart_policy@,
            None => config.restart_policy@,
        },
    }
}

/// How `mso run` settles its settings: flags first; for the silence the
/// configuration before the preset, for the restart policy the preset
/// before the configuration; tags from the flags unless none are given;
/// the health check URL from the flag or the preset, with the flags'
/// interval, timeout and failure limit.
pub open spec fn plan_matches(plan: &RunPlan, cfg: &RunConfig, config: &Config, preset: Option<&Preset>) -> bool {
    &&& plan.command.deep_view() == cfg.command.deep_view()
    &&& plan.silence == or_opt(or_opt(cfg.silence, config.silence_secs), match preset {
        Some(p) => p.silence_secs,
        None => None,
    })
    &&& plan.restart_policy == if effective_restart(cfg, config, preset) == "always"@ {
        RestartPolicy::Always
    } else {
        RestartPolicy::No
    }
    &&& plan.tags.deep_view() == if cfg.tags@.len() > 0 {
        cfg.tags.deep_view()
    } else {
        match preset {
            Some(p) => p.tags.deep_view(),
            None => seq![],
        }
    }
    &&& match or_opt(cfg.health_check.deep_view(), match preset {
        Some(p) => p.health_check.deep_view(),
        None => None,
    }) {
        Some(url) => plan.health_check matches Some(h) && h.url@ == url
            && h.interval_secs == cfg.health_interval && h.timeout_secs == cfg.health_timeout
            && h.max_failures == cfg.health_max_failures,
        None => plan.health_check.is_none(),
    }
    &&& plan.log_file.deep_view() == cfg.log_file.deep_view()
}

/// Settles the settings of `mso run` from its flags, the configuration and
/// the preset, if one was loaded.
pub fn resolve_run(cfg: &RunConfig, config: &Config, preset: Option<&Preset>) -> (plan: RunPlan)
    ensures
        plan_matches(&plan, cfg, config, preset),
        plan.log_file.deep_view() == cfg.log_file.deep_view(),
{
    let preset_silence = match preset {
        Some(p) => p.silence_secs,
        None => None,
    };
    let silence = match cfg.silence {
        Some(s) => Some(s),
        None => match config.silence_secs {
            Some(s) => Some(s),
            None => preset_silence,
        },
    };
    let restart = match &cfg.restart {
        Some(v) => copy_string(v),
        None => match preset {
            Some(p) => copy_string(&p.restart_policy),
            None => copy_string(&config.restart_policy),
        },
    };
    let tags = if cfg.tags.len() > 0 {
        copy_strings(&cfg.tags)
    } else {
        match preset {
            Some(p) => copy_strings(&p.tags),
            None => {
                let e: Vec<String> = Vec::new();
                assert(e.deep_view() =~= seq![]);
                e
            },
        }
    };
    let url = match &cfg.health_check {
        Some(u) => Some(copy_string(u)),
        None => match preset {
            Some(p) => copy_opt_string(&p.health_check),
            None => None,
        },
    };
    let health_check = match url {
        Some(url) => Some(HealthCheckConfig {
            url,
            interval_secs: cfg.health_interval,
            timeout_secs: cfg.health_timeout,
            max_failures: cfg.health_max_failures,
        }),
        None => None,
    };
    let restart_policy = if str_eq(restart.as_str(), "always") {
        RestartPolicy::Always
    } else {
        RestartPolicy::No
    };
    let plan = RunPlan {
        command: copy_strings(&cfg.command),
        silence,
        restart_policy,
        tags,
        health_check,
        log_file: copy_opt_string(&cfg.log_file),
    };
    plan
}

} // verus!
