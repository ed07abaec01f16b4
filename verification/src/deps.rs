//! Installing the runtime dependencies: which installer to use.
use vstd::prelude::*;

verus! {

pub open spec fn strings_of(v: Seq<String>) -> Seq<Seq<char>> {
    v.map_values(|s: String| s@)
}

/// The system package managers probed, in order of preference: distro-native
/// ones before Homebrew.
pub open spec fn installer_probe(i: int) -> Seq<char> {
    if i == 0 {
        "apt-get"@
    } else if i == 1 {
        "dnf"@
    } else if i == 2 {
        "pacman"@
    } else if i == 3 {
        "zypper"@
    } else {
        "brew"@
    }
}

/// The command that installs one package with the `i`-th package manager
/// (the package name goes last).
pub open spec fn installer_argv(i: int) -> Seq<Seq<char>> {
    if i == 0 {
        seq!["sudo"@, "apt-get"@, "install"@, "-y"@]
    } else if i == 1 {
        seq!["sudo"@, "dnf"@, "install"@, "-y"@]
    } else if i == 2 {
        seq!["sudo"@, "pacman"@, "-S"@, "--noconfirm"@]
    } else if i == 3 {
        seq!["sudo"@, "zypper"@, "install"@, "-y"@]
    } else {
        seq!["brew"@, "install"@]
    }
}

/// The number of package managers probed.
pub const INSTALLER_COUNT: usize = 5;

/// The name of the `i`-th package manager to probe for.
pub fn installer_probe_name(i: usize) -> (name: String)
    requires
        i < INSTALLER_COUNT,
    ensures
        name@ == installer_probe(i as int),
{
    if i == 0 {
        "apt-get".to_owned()
    } else if i == 1 {
        "dnf".to_owned()
    } else if i == 2 {
        "pacman".to_owned()
    } else if i == 3 {
        "zypper".to_owned()
    } else {
        "brew".to_owned()
    }
}

fn argv_of(i: usize) -> (r: Vec<String>)
    requires
        i < INSTALLER_COUNT,
    ensures
        strings_of(r@) == installer_argv(i as int),
{
    let mut r: Vec<String> = Vec::new();
    if i == 0 {
        r.push("sudo".to_owned());
        r.push("apt-get".to_owned());
        r.push("install".to_owned());
        r.push("-y".to_owned());
    } else if i == 1 {
        r.push("sudo".to_owned());
        r.push("dnf".to_owned());
        r.push("install".to_owned());
        r.push("-y".to_owned());
    } else if i == 2 {
        r.push("sudo".to_owned());
        r.push("pacman".to_owned());
        r.push("-S".to_owned());
        r.push("--noconfirm".to_owned());
    } else if i == 3 {
        r.push("sudo".to_owned());
        r.push("zypper".to_owned());
        r.push("install".to_owned());
        r.push("-y".to_owned());
    } else {
        r.push("brew".to_owned());
        r.push("install".to_owned());
    }
    assert(strings_of(r@) =~= installer_argv(i as int));
    r
}

/// The first package manager found, from `present[i]`, whether the `i`-th
/// probe found its tool (a probe not made counts as not found).
pub open spec fn first_present(present: Seq<bool>, i: int) -> Option<int>
    decreases INSTALLER_COUNT - i,
{
    if i >= INSTALLER_COUNT {
        None
    } else if i < present.len() && present[i] {
        Some(i)
    } else {
        first_present(present, i + 1)
    }
}

/// The install command of the first package manager found, in order of
/// preference; `None` when none is.
pub fn detect_system_installer(present: &Vec<bool>) -> (r: Option<Vec<String>>)
    ensures
        match first_present(present@, 0) {
            Some(i) => r matches Some(argv) && strings_of(argv@) == installer_argv(i),
            None => r is None,
        },
{
    let mut i: usize = 0;
    while i < INSTALLER_COUNT
        invariant
            i <= INSTALLER_COUNT,
            first_present(present@, 0) == first_present(present@, i as int),
        decreases INSTALLER_COUNT - i,
    {
        if i < present.len() && present[i] {
            return Some(argv_of(i));
        }
        i += 1;
    }
    None
}

/// The command installing yt-dlp with the first Python installer found:
/// pipx, else pip, else pip3.
pub open spec fn yt_dlp_argv(has_pipx: bool, has_pip: bool, has_pip3: bool) -> Option<Seq<Seq<char>>> {
    if has_pipx {
        Some(seq!["pipx"@, "install"@, "yt-dlp"@])
    } else if has_pip {
        Some(seq!["pip"@, "install"@, "--user"@, "yt-dlp"@])
    } else if has_pip3 {
        Some(seq!["pip3"@, "install"@, "--user"@, "yt-dlp"@])
    } else {
        None
    }
}

/// The command that installs yt-dlp (see `yt_dlp_argv`).
pub fn yt_dlp_install_argv(has_pipx: bool, has_pip: bool, has_pip3: bool) -> (r: Option<Vec<String>>)
    ensures
        match yt_dlp_argv(has_pipx, has_pip, has_pip3) {
            Some(a) => r matches Some(argv) && strings_of(argv@) == a,
            None => r is None,
        },
{
    let mut r: Vec<String> = Vec::new();
    if has_pipx {
        r.push("pipx".to_owned());
        r.push("install".to_owned());
        r.push("yt-dlp".to_owned());
    } else if has_pip || has_pip3 {
        r.push(if has_pip { "pip".to_owned() } else { "pip3".to_owned() });
        r.push("install".to_owned());
        r.push("--user".to_owned());
        r.push("yt-dlp".to_owned());
    } else {
        return None;
    }
    assert(strings_of(r@) =~= yt_dlp_argv(has_pipx, has_pip, has_pip3)->0);
    Some(r)
}

} // verus!
