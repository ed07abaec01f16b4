//! Where the configuration and the state files live, and the clock.
use vstd::prelude::*;

use crate::text::{chars_of, concat_chars, string_of_all};

use std::time::{Duration, SystemTime, SystemTimeError, UNIX_EPOCH};

verus! {

/// Joins a relative path onto `base` the way `Path::join` does on Unix: a
/// separator is put between them unless `base` is empty or already ends
/// with one.
pub open spec fn path_join(base: Seq<char>, rel: Seq<char>) -> Seq<char> {
    if base.len() == 0 {
        rel
    } else if base.last() == '/' {
        base + rel
    } else {
        base + seq!['/'] + rel
    }
}

/// `Path::join` of a relative path.
pub fn join_path(base: &str, rel: &str) -> (r: String)
    ensures
        r@ == path_join(base@, rel@),
{
    let b = chars_of(base);
    let r = chars_of(rel);
    if b.len() == 0 {
        return string_of_all(&r);
    }
    if b[b.len() - 1] == '/' {
        let joined = concat_chars(&b, &r);
        return string_of_all(&joined);
    }
    let sep: Vec<char> = vec!['/'];
    assert(sep@ =~= seq!['/']);
    let with_sep = concat_chars(&b, &sep);
    let joined = concat_chars(&with_sep, &r);
    string_of_all(&joined)
}

/// A directory chosen from the environment: an explicit override wins (as
/// it is, even empty); else the XDG base directory when set and non-empty;
/// else the home directory (empty when unset) joined with `home_rel`. The
/// last two get `rstube` appended.
pub open spec fn env_dir(
    explicit: Option<Seq<char>>,
    xdg: Option<Seq<char>>,
    home: Option<Seq<char>>,
    home_rel: Seq<char>,
) -> Seq<char> {
    match explicit {
        Some(d) => d,
        None => {
            let base = match xdg {
                Some(x) => if x.len() > 0 {
                    x
                } else {
                    path_join(
                        match home {
                            Some(h) => h,
                            None => Seq::empty(),
                        },
                        home_rel,
                    )
                },
                None => path_join(
                    match home {
                        Some(h) => h,
                        None => Seq::empty(),
                    },
                    home_rel,
                ),
            };
            path_join(base, "rstube"@)
        },
    }
}

/// The view of an optional string.
pub open spec fn opt_str_view(o: Option<&str>) -> Option<Seq<char>> {
    match o {
        Some(s) => Some(s@),
        None => None,
    }
}

fn env_dir_exec(explicit: Option<&str>, xdg: Option<&str>, home: Option<&str>, home_rel: &str) -> (r:
    String)
    ensures
        r@ == env_dir(opt_str_view(explicit), opt_str_view(xdg), opt_str_view(home), home_rel@),
{
    match explicit {
        Some(d) => {
            d.to_owned()
        },
        None => {
            let base = match xdg {
                Some(x) if !x.is_empty() => x.to_owned(),
                _ => join_path(
                    match home {
                        Some(h) => h,
                        None => "",
                    },
                    home_rel,
                ),
            };
            proof {
                if home is None {
                    reveal_strlit("");
                    assert(""@ =~= Seq::<char>::empty());
                }
            }
            join_path(base.as_str(), "rstube")
        },
    }
}

/// The configuration directory, from the values of `RSTUBE_CONFIG_DIR`,
/// `XDG_CONFIG_HOME` and `HOME`: the first when set; else
/// `$XDG_CONFIG_HOME/rstube` when that is set and non-empty; else
/// `$HOME/.config/rstube`.
pub fn config_dir(rstube_config_dir: Option<&str>, xdg_config_home: Option<&str>, home: Option<&str>) -> (r:
    String)
    ensures
        r@ == env_dir(
            opt_str_view(rstube_config_dir),
            opt_str_view(xdg_config_home),
            opt_str_view(home),
            ".config"@,
        ),
{
    env_dir_exec(rstube_config_dir, xdg_config_home, home, ".config")
}

/// The configuration file inside the configuration directory.
pub fn config_path(config_dir: &str) -> (r: String)
    ensures
        r@ == path_join(config_dir@, "config.toml"@),
{
    join_path(config_dir, "config.toml")
}

/// The state directory, from the values of `RSTUBE_STATE_DIR`,
/// `XDG_STATE_HOME` and `HOME`: the first when set; else
/// `$XDG_STATE_HOME/rstube` when that is set and non-empty; else
/// `$HOME/.local/state/rstube`.
pub fn state_dir(rstube_state_dir: Option<&str>, xdg_state_home: Option<&str>, home: Option<&str>) -> (r:
    String)
    ensures
        r@ == env_dir(
            opt_str_view(rstube_state_dir),
            opt_str_view(xdg_state_home),
            opt_str_view(home),
            ".local/state"@,
        ),
{
    env_dir_exec(rstube_state_dir, xdg_state_home, home, ".local/state")
}

/// The saved playback positions inside the state directory.
pub fn positions_path(state_dir: &str) -> (r: String)
    ensures
        r@ == path_join(state_dir@, "positions.json"@),
{
    join_path(state_dir, "positions.json")
}

/// The playback history inside the state directory.
pub fn history_path(state_dir: &str) -> (r: String)
    ensures
        r@ == path_join(state_dir@, "history.jsonl"@),
{
    join_path(state_dir, "history.jsonl")
}

/// The playlist cache inside the state directory.
pub fn playlist_cache_path(state_dir: &str) -> (r: String)
    ensures
        r@ == path_join(state_dir@, "playlist_cache.json"@),
{
    join_path(state_dir, "playlist_cache.json")
}

/// The synthetic cache key under which a single video's metadata is kept
/// in the playlist cache.
pub fn video_cache_key(video_id: &str) -> (r: String)
    ensures
        r@ == "rstube:video:"@ + video_id@,
{
    let prefix = chars_of("rstube:video:");
    let id = chars_of(video_id);
    let key = concat_chars(&prefix, &id);
    string_of_all(&key)
}

// ---------------------------------------------------------------------------
// The clock
// ---------------------------------------------------------------------------

#[verifier::external_type_specification]
#[verifier::external_body]
pub struct ExSystemTime(SystemTime);

#[verifier::external_type_specification]
#[verifier::external_body]
pub struct ExSystemTimeError(SystemTimeError);

/// `SystemTime::now`: the current wall-clock time. Nothing is promised of
/// it: it depends on the clock.
#[verifier::external_body]
fn system_time_now() -> SystemTime {
    SystemTime::now()
}

/// `SystemTime::duration_since(UNIX_EPOCH)`: the time elapsed since the
/// Unix epoch, or an error when the time lies before it. Nothing is
/// promised of which.
#[verifier::external_body]
fn since_unix_epoch(t: &SystemTime) -> Result<Duration, SystemTimeError> {
    t.duration_since(UNIX_EPOCH)
}

/// The whole seconds of a duration, as `Duration::as_secs` gives them. They
/// depend on the duration alone; `Duration` is opaque here, so the number
/// is named, not written out.
pub uninterp spec fn whole_secs(d: Duration) -> u64;

/// `Duration::as_secs`: the whole seconds of a duration (named `whole_secs`).
#[verifier::external_body]
fn duration_whole_secs(d: &Duration) -> (r: u64)
    ensures
        r == whole_secs(*d),
{
    d.as_secs()
}

/// The whole seconds of the time since the Unix epoch, or 0 when the clock
/// reads a time before the epoch (`since` is the error then).
pub fn secs_since_epoch_or_zero(since: Result<Duration, SystemTimeError>) -> (secs: u64)
    ensures
        since matches Ok(d) ==> secs == whole_secs(d),
        since is Err ==> secs == 0,
{
    match since {
        Ok(d) => duration_whole_secs(&d),
        Err(_) => 0,
    }
}

/// Seconds since the Unix epoch by the wall clock, or 0 when the clock is
/// set before the epoch.
pub fn now_secs() -> u64 {
    secs_since_epoch_or_zero(since_unix_epoch(&system_time_now()))
}

} // verus!
