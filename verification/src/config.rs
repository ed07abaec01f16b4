//! The configuration: named playlists and individually configured videos,
//! and the operations that the `playlists` and `videos` commands apply to it.
use vstd::prelude::*;

verus! {

/// A playlist stored under a short name.
#[derive(Debug)]
pub struct NamedPlaylist {
    pub name: String,
    pub url: String,
}

impl View for NamedPlaylist {
    type V = (Seq<char>, Seq<char>);

    open spec fn view(&self) -> (Seq<char>, Seq<char>) {
        (self.name@, self.url@)
    }
}

impl NamedPlaylist {
    /// A copy of this playlist entry.
    pub fn duplicate(&self) -> (r: Self)
        ensures
            r@ == self@,
    {
        NamedPlaylist { name: self.name.clone(), url: self.url.clone() }
    }
}

/// A single configured video, with the offset (seconds) where its first
/// playback starts.
#[derive(Debug)]
pub struct ConfiguredVideo {
    pub video_id: String,
    pub start_offset_secs: Option<u64>,
}

impl View for ConfiguredVideo {
    type V = (Seq<char>, Option<u64>);

    open spec fn view(&self) -> (Seq<char>, Option<u64>) {
        (self.video_id@, self.start_offset_secs)
    }
}

impl ConfiguredVideo {
    /// A copy of this video entry.
    pub fn duplicate(&self) -> (r: Self)
        ensures
            r@ == self@,
    {
        ConfiguredVideo { video_id: self.video_id.clone(), start_offset_secs: self.start_offset_secs }
    }
}

/// The configuration file's contents.
#[derive(Debug)]
pub struct Config {
    pub playlists: Vec<NamedPlaylist>,
    pub videos: Vec<ConfiguredVideo>,
    /// Legacy single-playlist field, migrated into `playlists` on load.
    pub playlist_url: Option<String>,
}

/// The configuration in the model.
pub struct ConfigView {
    pub playlists: Seq<(Seq<char>, Seq<char>)>,
    pub videos: Seq<(Seq<char>, Option<u64>)>,
    pub playlist_url: Option<Seq<char>>,
}

pub open spec fn playlists_view(ps: Seq<NamedPlaylist>) -> Seq<(Seq<char>, Seq<char>)> {
    ps.map_values(|p: NamedPlaylist| p@)
}

pub open spec fn videos_view(vs: Seq<ConfiguredVideo>) -> Seq<(Seq<char>, Option<u64>)> {
    vs.map_values(|v: ConfiguredVideo| v@)
}

pub open spec fn opt_string_view(o: Option<String>) -> Option<Seq<char>> {
    match o {
        Some(s) => Some(s@),
        None => None,
    }
}

impl View for Config {
    type V = ConfigView;

    open spec fn view(&self) -> ConfigView {
        ConfigView {
            playlists: playlists_view(self.playlists@),
            videos: videos_view(self.videos@),
            playlist_url: opt_string_view(self.playlist_url),
        }
    }
}

impl Default for Config {
    fn default() -> (c: Self)
        ensures
            c@.playlists.len() == 0,
            c@.videos.len() == 0,
            c@.playlist_url is None,
    {
        Config { playlists: Vec::new(), videos: Vec::new(), playlist_url: None }
    }
}

// ---------------------------------------------------------------------------
// Model of the operations
// ---------------------------------------------------------------------------

/// The index of the first playlist with the given name, at or after `i`.
pub open spec fn playlist_named_from(ps: Seq<(Seq<char>, Seq<char>)>, name: Seq<char>, i: nat) -> Option<
    nat,
>
    decreases ps.len() + 1 - i,
{
    if i >= ps.len() {
        None
    } else if ps[i as int].0 == name {
        Some(i)
    } else {
        playlist_named_from(ps, name, i + 1)
    }
}

/// The index of the first playlist with the given name.
pub open spec fn playlist_named(ps: Seq<(Seq<char>, Seq<char>)>, name: Seq<char>) -> Option<nat> {
    playlist_named_from(ps, name, 0)
}

/// The index of the first playlist with the given URL, at or after `i`.
pub open spec fn playlist_with_url_from(ps: Seq<(Seq<char>, Seq<char>)>, url: Seq<char>, i: nat) -> Option<
    nat,
>
    decreases ps.len() + 1 - i,
{
    if i >= ps.len() {
        None
    } else if ps[i as int].1 == url {
        Some(i)
    } else {
        playlist_with_url_from(ps, url, i + 1)
    }
}

/// The index of the first video with the given id, at or after `i`.
pub open spec fn video_with_id_from(vs: Seq<(Seq<char>, Option<u64>)>, id: Seq<char>, i: nat) -> Option<
    nat,
>
    decreases vs.len() + 1 - i,
{
    if i >= vs.len() {
        None
    } else if vs[i as int].0 == id {
        Some(i)
    } else {
        video_with_id_from(vs, id, i + 1)
    }
}

/// The playlists whose name differs from `name`, in order.
pub open spec fn without_name(ps: Seq<(Seq<char>, Seq<char>)>, name: Seq<char>) -> Seq<
    (Seq<char>, Seq<char>),
>
    decreases ps.len(),
{
    if ps.len() == 0 {
        Seq::empty()
    } else {
        let rest = without_name(ps.drop_last(), name);
        if ps.last().0 == name {
            rest
        } else {
            rest.push(ps.last())
        }
    }
}

/// A start offset kept only when it is positive.
pub open spec fn positive_offset(o: Option<u64>) -> Option<u64> {
    match o {
        Some(n) => if n > 0 {
            Some(n)
        } else {
            None
        },
        None => None,
    }
}

/// The configuration after loading: a legacy single playlist URL becomes a
/// playlist named `default` when no playlists are configured, and the
/// legacy field is always emptied.
pub open spec fn migrated(c: ConfigView) -> ConfigView {
    ConfigView {
        playlists: match c.playlist_url {
            Some(u) => if c.playlists.len() == 0 {
                seq![("default"@, u)]
            } else {
                c.playlists
            },
            None => c.playlists,
        },
        videos: c.videos,
        playlist_url: None,
    }
}

// ---------------------------------------------------------------------------
// Errors
// ---------------------------------------------------------------------------

/// Why a playlist could not be added.
#[derive(Debug, PartialEq, Eq)]
pub enum AddPlaylistError {
    /// A playlist with that name is already configured.
    DuplicateName,
    /// The URL is already configured, under the name given.
    DuplicateUrl(String),
}

/// Why a configured video could not be added.
#[derive(Debug, PartialEq, Eq)]
pub enum AddVideoError {
    /// The video id is already configured.
    AlreadyConfigured,
}

/// The playlist or video asked for is not configured.
#[derive(Debug, PartialEq, Eq)]
pub enum NotConfigured {
    NotConfigured,
}

// ---------------------------------------------------------------------------
// Executable
// ---------------------------------------------------------------------------

/// The start offset a video is added with: an explicit start wins over the
/// `t=` offset of its URL.
pub fn chosen_offset(explicit: Option<u64>, from_url: Option<u64>) -> (r: Option<u64>)
    ensures
        r == (if explicit is Some {
            explicit
        } else {
            from_url
        }),
{
    match explicit {
        Some(n) => Some(n),
        None => from_url,
    }
}

/// The position seeded for a video added with `offset`: the offset, when it
/// is positive and no position is saved for the video yet (saved watch
/// progress always wins over an offset).
pub fn seeded_position(offset: Option<u64>, has_saved_position: bool) -> (r: Option<u64>)
    ensures
        r == (if has_saved_position {
            None
        } else {
            positive_offset(offset)
        }),
{
    if has_saved_position {
        return None;
    }
    match offset {
        Some(n) => if n > 0 {
            Some(n)
        } else {
            None
        },
        None => None,
    }
}

/// The first playlist named `name` from `i` on exists exactly when some
/// playlist from `i` on has that name.
pub proof fn lemma_playlist_named_exists(ps: Seq<(Seq<char>, Seq<char>)>, name: Seq<char>, i: nat)
    ensures
        playlist_named_from(ps, name, i) is Some <==> exists|j: int|
            i <= j < ps.len() && (#[trigger] ps[j]).0 == name,
        playlist_named_from(ps, name, i) matches Some(k) ==> i <= k < ps.len() && ps[k as int].0
            == name,
    decreases ps.len() + 1 - i,
{
    if i < ps.len() && ps[i as int].0 != name {
        lemma_playlist_named_exists(ps, name, i + 1);
    }
}

proof fn lemma_playlists_view_push(ps: Seq<NamedPlaylist>, p: NamedPlaylist)
    ensures
        playlists_view(ps.push(p)) == playlists_view(ps).push(p@),
{
    assert(playlists_view(ps.push(p)) =~= playlists_view(ps).push(p@));
}

proof fn lemma_videos_view_push(vs: Seq<ConfiguredVideo>, v: ConfiguredVideo)
    ensures
        videos_view(vs.push(v)) == videos_view(vs).push(v@),
{
    assert(videos_view(vs.push(v)) =~= videos_view(vs).push(v@));
}

/// Applies what loading does to the parsed configuration file: `None` (no
/// file, or one that does not parse) gives the empty configuration; the
/// legacy single-playlist field migrates into `playlists`.
pub fn load(parsed: Option<Config>) -> (c: Config)
    ensures
        match parsed {
            Some(p) => c@ == migrated(p@),
            None => c@.playlists.len() == 0 && c@.videos.len() == 0 && c@.playlist_url is None,
        },
{
    match parsed {
        None => Config::default(),
        Some(cfg) => {
            let ghost legacy_view = opt_string_view(cfg.playlist_url);
            let Config { playlists, videos, playlist_url } = cfg;
            let mut playlists = playlists;
            match playlist_url {
                Some(legacy) => {
                    if playlists.len() == 0 {
                        let p = NamedPlaylist { name: "default".to_owned(), url: legacy };
                        proof {
                            lemma_playlists_view_push(playlists@, p);
                        }
                        playlists.push(p);
                        assert(playlists_view(playlists@) =~= seq![("default"@, legacy_view->0)]);
                    }
                },
                None => {},
            }
            Config { playlists, videos, playlist_url: None }
        },
    }
}

impl Config {
    /// The index of the first playlist named `name`.
    pub fn find_playlist(&self, name: &str) -> (r: Option<usize>)
        ensures
            r matches Some(i) ==> playlist_named(self@.playlists, name@) == Some(i as nat) && i
                < self@.playlists.len(),
            r is None ==> playlist_named(self@.playlists, name@) is None,
    {
        let name_s = name.to_owned();
        let mut i: usize = 0;
        while i < self.playlists.len()
            invariant
                i <= self.playlists.len(),
                name_s@ == name@,
                playlist_named(self@.playlists, name@) == playlist_named_from(
                    self@.playlists,
                    name@,
                    i as nat,
                ),
            decreases self.playlists.len() - i,
        {
            if self.playlists[i].name == name_s {
                return Some(i);
            }
            i += 1;
        }
        None
    }

    /// The index of the first playlist whose URL is `url`.
    pub fn find_playlist_url(&self, url: &str) -> (r: Option<usize>)
        ensures
            r matches Some(i) ==> playlist_with_url_from(self@.playlists, url@, 0) == Some(
                i as nat,
            ) && i < self@.playlists.len(),
            r is None ==> playlist_with_url_from(self@.playlists, url@, 0) is None,
    {
        let url_s = url.to_owned();
        let mut i: usize = 0;
        while i < self.playlists.len()
            invariant
                i <= self.playlists.len(),
                url_s@ == url@,
                playlist_with_url_from(self@.playlists, url@, 0) == playlist_with_url_from(
                    self@.playlists,
                    url@,
                    i as nat,
                ),
            decreases self.playlists.len() - i,
        {
            if self.playlists[i].url == url_s {
                return Some(i);
            }
            i += 1;
        }
        None
    }

    /// Adds a playlist under `name`. Refused when the name is taken, or else
    /// when the URL is already configured (the error names the first
    /// playlist that has it); otherwise appended at the end.
    pub fn add_playlist(&mut self, name: String, url: String) -> (r: Result<(), AddPlaylistError>)
        ensures
            final(self)@.videos == old(self)@.videos,
            final(self)@.playlist_url == old(self)@.playlist_url,
            playlist_named(old(self)@.playlists, name@) is Some ==> r == Err::<
                (),
                AddPlaylistError,
            >(AddPlaylistError::DuplicateName) && final(self)@ == old(self)@,
            playlist_named(old(self)@.playlists, name@) is None ==> match playlist_with_url_from(
                old(self)@.playlists,
                url@,
                0,
            ) {
                Some(k) => (r matches Err(AddPlaylistError::DuplicateUrl(n)) && n@
                    == old(self)@.playlists[k as int].0 && final(self)@ == old(self)@),
                None => r is Ok && final(self)@.playlists == old(self)@.playlists.push(
                    (name@, url@),
                ),
            },
    {
        if self.find_playlist(name.as_str()).is_some() {
            return Err(AddPlaylistError::DuplicateName);
        }
        match self.find_playlist_url(url.as_str()) {
            Some(k) => {
                return Err(AddPlaylistError::DuplicateUrl(self.playlists[k].name.clone()));
            },
            None => {},
        }
        let p = NamedPlaylist { name, url };
        proof {
            lemma_playlists_view_push(self.playlists@, p);
        }
        self.playlists.push(p);
        Ok(())
    }

    /// Removes every playlist named `name`; refused when there is none.
    pub fn remove_playlist(&mut self, name: &str) -> (r: Result<(), NotConfigured>)
        ensures
            final(self)@.videos == old(self)@.videos,
            final(self)@.playlist_url == old(self)@.playlist_url,
            final(self)@.playlists == without_name(old(self)@.playlists, name@),
            r is Ok <==> playlist_named(old(self)@.playlists, name@) is Some,
    {
        let name_s = name.to_owned();
        let ghost orig = self.playlists@;
        let mut rest: Vec<NamedPlaylist> = Vec::new();
        std::mem::swap(&mut rest, &mut self.playlists);
        let mut kept: Vec<NamedPlaylist> = Vec::new();
        let mut removed = false;
        let n = rest.len();
        let mut k: usize = 0;
        while k < n
            invariant
                k <= n,
                n == orig.len(),
                name_s@ == name@,
                rest@ == orig.subrange(k as int, n as int),
                playlists_view(kept@) == without_name(playlists_view(orig.take(k as int)), name@),
                removed == (exists|j: int| 0 <= j < k && (#[trigger] orig[j]).name@ == name@),
            decreases n - k,
        {
            let p = rest.remove(0);
            assert(p == orig[k as int]);
            let ghost pre = orig.take(k as int);
            assert(orig.take(k + 1) =~= pre.push(p));
            proof {
                lemma_playlists_view_push(pre, p);
                assert(playlists_view(pre.push(p)).drop_last() =~= playlists_view(pre));
            }
            if p.name == name_s {
                removed = true;
            } else {
                proof {
                    lemma_playlists_view_push(kept@, p);
                }
                kept.push(p);
            }
            assert(rest@ =~= orig.subrange(k + 1, n as int));
            k += 1;
        }
        assert(orig.take(n as int) =~= orig);
        proof {
            lemma_playlist_named_exists(playlists_view(orig), name@, 0);
            if removed {
                let j = choose|j: int| 0 <= j < n && (#[trigger] orig[j]).name@ == name@;
                assert(playlists_view(orig)[j].0 == name@);
            }
        }
        self.playlists = kept;
        if removed {
            Ok(())
        } else {
            Err(NotConfigured::NotConfigured)
        }
    }

    /// The index of the first configured video with the given id.
    pub fn find_video(&self, video_id: &str) -> (r: Option<usize>)
        ensures
            r matches Some(i) ==> video_with_id_from(self@.videos, video_id@, 0) == Some(i as nat)
                && i < self@.videos.len(),
            r is None ==> video_with_id_from(self@.videos, video_id@, 0) is None,
    {
        let id_s = video_id.to_owned();
        let mut i: usize = 0;
        while i < self.videos.len()
            invariant
                i <= self.videos.len(),
                id_s@ == video_id@,
                video_with_id_from(self@.videos, video_id@, 0) == video_with_id_from(
                    self@.videos,
                    video_id@,
                    i as nat,
                ),
            decreases self.videos.len() - i,
        {
            if self.videos[i].video_id == id_s {
                return Some(i);
            }
            i += 1;
        }
        None
    }

    /// Adds a video, keeping its start offset only when positive; refused
    /// when the id is already configured.
    pub fn add_video(&mut self, video_id: String, offset: Option<u64>) -> (r: Result<(), AddVideoError>)
        ensures
            final(self)@.playlists == old(self)@.playlists,
            final(self)@.playlist_url == old(self)@.playlist_url,
            video_with_id_from(old(self)@.videos, video_id@, 0) is Some ==> r is Err
                && final(self)@ == old(self)@,
            video_with_id_from(old(self)@.videos, video_id@, 0) is None ==> r is Ok
                && final(self)@.videos == old(self)@.videos.push(
                (video_id@, positive_offset(offset)),
            ),
    {
        if self.find_video(video_id.as_str()).is_some() {
            return Err(AddVideoError::AlreadyConfigured);
        }
        let kept = match offset {
            Some(n) => if n > 0 {
                Some(n)
            } else {
                None
            },
            None => None,
        };
        let v = ConfiguredVideo { video_id, start_offset_secs: kept };
        proof {
            lemma_videos_view_push(self.videos@, v);
        }
        self.videos.push(v);
        Ok(())
    }

    /// Removes the first configured video with the given id and returns it;
    /// refused when there is none.
    pub fn remove_video(&mut self, video_id: &str) -> (r: Result<ConfiguredVideo, NotConfigured>)
        ensures
            final(self)@.playlists == old(self)@.playlists,
            final(self)@.playlist_url == old(self)@.playlist_url,
            match video_with_id_from(old(self)@.videos, video_id@, 0) {
                Some(i) => r matches Ok(v) && v@ == old(self)@.videos[i as int]
                    && final(self)@.videos == old(self)@.videos.remove(i as int),
                None => r is Err && final(self)@ == old(self)@,
            },
    {
        match self.find_video(video_id) {
            None => Err(NotConfigured::NotConfigured),
            Some(i) => {
                let ghost before = self.videos@;
                let v = self.videos.remove(i);
                assert(videos_view(self.videos@) =~= videos_view(before).remove(i as int));
                Ok(v)
            },
        }
    }
}

// ---------------------------------------------------------------------------
// Laws
// ---------------------------------------------------------------------------

/// No two playlists share a name.
pub open spec fn names_distinct(ps: Seq<(Seq<char>, Seq<char>)>) -> bool {
    forall|i: int, j: int| 0 <= i < j < ps.len() ==> (#[trigger] ps[i]).0 != (#[trigger] ps[j]).0
}

/// No two playlists share a URL.
pub open spec fn urls_distinct(ps: Seq<(Seq<char>, Seq<char>)>) -> bool {
    forall|i: int, j: int| 0 <= i < j < ps.len() ==> (#[trigger] ps[i]).1 != (#[trigger] ps[j]).1
}

pub proof fn lemma_url_absent(ps: Seq<(Seq<char>, Seq<char>)>, url: Seq<char>, i: nat)
    requires
        playlist_with_url_from(ps, url, i) is None,
    ensures
        forall|j: int| i <= j < ps.len() ==> (#[trigger] ps[j]).1 != url,
    decreases ps.len() + 1 - i,
{
    if i < ps.len() {
        lemma_url_absent(ps, url, i + 1);
    }
}

pub proof fn lemma_video_id_absent(vs: Seq<(Seq<char>, Option<u64>)>, id: Seq<char>, i: nat)
    requires
        video_with_id_from(vs, id, i) is None,
    ensures
        forall|j: int| i <= j < vs.len() ==> (#[trigger] vs[j]).0 != id,
    decreases vs.len() + 1 - i,
{
    if i < vs.len() {
        lemma_video_id_absent(vs, id, i + 1);
    }
}

/// Without a playlist of that name, removing the name changes nothing.
pub proof fn lemma_without_absent_name(ps: Seq<(Seq<char>, Seq<char>)>, name: Seq<char>)
    requires
        forall|j: int| 0 <= j < ps.len() ==> (#[trigger] ps[j]).0 != name,
    ensures
        without_name(ps, name) == ps,
    decreases ps.len(),
{
    if ps.len() > 0 {
        let d = ps.drop_last();
        assert forall|j: int| 0 <= j < d.len() implies (#[trigger] d[j]).0 != name by {
            assert(ps[j].0 != name);
        }
        lemma_without_absent_name(d, name);
        assert(ps.last().0 != name);
        assert(d.push(ps.last()) =~= ps);
    }
}

/// A playlist added under a name not yet configured is what looking the name
/// up finds, and removing that name gives back the playlists as they were.
pub proof fn law_add_then_remove_playlist(
    ps: Seq<(Seq<char>, Seq<char>)>,
    name: Seq<char>,
    url: Seq<char>,
)
    requires
        playlist_named(ps, name) is None,
    ensures
        playlist_named(ps.push((name, url)), name) == Some(ps.len()),
        without_name(ps.push((name, url)), name) == ps,
{
    let added = ps.push((name, url));
    lemma_playlist_named_exists(ps, name, 0);
    assert forall|j: int| 0 <= j < ps.len() implies (#[trigger] ps[j]).0 != name by {
        if ps[j].0 == name {
            assert(exists|k: int| 0 <= k < ps.len() && (#[trigger] ps[k]).0 == name);
        }
    }
    lemma_playlist_named_exists(added, name, 0);
    let k = playlist_named(added, name)->0;
    assert(added[ps.len() as int].0 == name);
    if k < ps.len() {
        assert(added[k as int] == ps[k as int]);
    }
    assert(added.drop_last() =~= ps);
    lemma_without_absent_name(ps, name);
}

/// Adding a playlist keeps names and URLs each distinct: an add that
/// succeeds found neither the name nor the URL configured.
pub proof fn law_add_playlist_keeps_distinct(
    ps: Seq<(Seq<char>, Seq<char>)>,
    name: Seq<char>,
    url: Seq<char>,
)
    requires
        names_distinct(ps),
        urls_distinct(ps),
        playlist_named(ps, name) is None,
        playlist_with_url_from(ps, url, 0) is None,
    ensures
        names_distinct(ps.push((name, url))),
        urls_distinct(ps.push((name, url))),
{
    let added = ps.push((name, url));
    lemma_playlist_named_exists(ps, name, 0);
    lemma_url_absent(ps, url, 0);
    assert forall|i: int, j: int| 0 <= i < j < added.len() implies (#[trigger] added[i]).0 != (
    #[trigger] added[j]).0 by {
        if j == ps.len() {
            if ps[i].0 == name {
                assert(exists|k: int| 0 <= k < ps.len() && (#[trigger] ps[k]).0 == name);
            }
        } else {
            assert(ps[i].0 != ps[j].0);
        }
    }
    assert forall|i: int, j: int| 0 <= i < j < added.len() implies (#[trigger] added[i]).1 != (
    #[trigger] added[j]).1 by {
        if j < ps.len() {
            assert(ps[i].1 != ps[j].1);
        } else {
            assert(ps[i].1 != url);
        }
    }
}

/// A video added under an id not yet configured is what removing that id
/// takes out, and the videos are then as they were.
pub proof fn law_add_then_remove_video(
    vs: Seq<(Seq<char>, Option<u64>)>,
    id: Seq<char>,
    offset: Option<u64>,
)
    requires
        video_with_id_from(vs, id, 0) is None,
    ensures
        video_with_id_from(vs.push((id, positive_offset(offset))), id, 0) == Some(vs.len()),
        vs.push((id, positive_offset(offset))).remove(vs.len() as int) == vs,
{
    let added = vs.push((id, positive_offset(offset)));
    lemma_video_id_absent(vs, id, 0);
    lemma_video_found_at_end(added, id, 0);
    assert(added.remove(vs.len() as int) =~= vs);
}

proof fn lemma_video_found_at_end(vs: Seq<(Seq<char>, Option<u64>)>, id: Seq<char>, i: nat)
    requires
        i < vs.len(),
        vs[vs.len() - 1].0 == id,
        forall|j: int| 0 <= j < vs.len() - 1 ==> (#[trigger] vs[j]).0 != id,
    ensures
        video_with_id_from(vs, id, i) == Some((vs.len() - 1) as nat),
    decreases vs.len() - i,
{
    if i < vs.len() - 1 {
        assert(vs[i as int].0 != id);
        lemma_video_found_at_end(vs, id, i + 1);
    }
}

/// Loading twice is loading once: after a load the legacy field is empty,
/// so nothing more migrates.
pub proof fn law_load_idempotent(c: ConfigView)
    ensures
        migrated(migrated(c)) == migrated(c),
        migrated(c).playlist_url is None,
{
}

} // verus!
