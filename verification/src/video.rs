//! Video and playlist references: watch URLs, short URLs, bare ids, the `t=`
//! start offset, and canonical playlist URLs.
use vstd::prelude::*;

use crate::text::{
    lemma_occurs_sub, lemma_occurs_whole, occurs_in,
    after_char, chars_of, find_from, char_is_ascii_alnum, concat_chars, contains_char_exec, find,
    find_from_exec, index_of_any_exec, is_ascii_alnum, lemma_index_of_any_bound,
    prefix_before_any, starts_with, starts_with_exec, string_of_all, subvec, trim, trimmed_chars,
    index_of_any_from,
};
use crate::timespec::{
    lift_u64, time_spec_overflows, time_spec_value, try_parse_time_spec, TimeSpecError,
};

verus! {

// ---------------------------------------------------------------------------
// Model
// ---------------------------------------------------------------------------

/// The key that introduces a video id in a watch URL.
pub open spec fn watch_key() -> Seq<char> {
    "v="@
}

/// The prefix of a short URL over https.
pub open spec fn short_https() -> Seq<char> {
    "https://youtu.be/"@
}

/// The prefix of a short URL over http.
pub open spec fn short_http() -> Seq<char> {
    "http://youtu.be/"@
}

/// The id part and the query part of a short URL's remainder.
pub open spec fn short_parts(rest: Seq<char>) -> (Seq<char>, Option<Seq<char>>) {
    (prefix_before_any(rest, seq!['?', '#', '/']), after_char(rest, '?'))
}

/// Where a reference names its video: after the first `v=` up to `&` or `#`
/// (with the query after the first `?` of the whole reference), else after
/// a `youtu.be/` prefix up to `?`, `#` or `/` (with the query after its
/// first `?`). `None` when the reference has neither shape.
pub open spec fn id_and_query(s: Seq<char>) -> Option<(Seq<char>, Option<Seq<char>>)> {
    match find(s, watch_key()) {
        Some(i) => {
            let after_v = s.subrange((i + watch_key().len()) as int, s.len() as int);
            Some((prefix_before_any(after_v, seq!['&', '#']), after_char(s, '?')))
        },
        None => {
            if starts_with(s, short_https()) {
                Some(short_parts(s.subrange(short_https().len() as int, s.len() as int)))
            } else if starts_with(s, short_http()) {
                Some(short_parts(s.subrange(short_http().len() as int, s.len() as int)))
            } else {
                None
            }
        },
    }
}

/// The value of the first `t=` parameter among the `&`-separated parts of a
/// query that start at or after `start`, cut at `#`.
pub open spec fn t_param_from(q: Seq<char>, start: nat) -> Option<Seq<char>>
    decreases q.len() + 1 - start,
{
    let j = index_of_any_from(q, seq!['&'], start);
    let part = q.subrange(start as int, j as int);
    if starts_with(part, "t="@) {
        Some(prefix_before_any(part.subrange("t="@.len() as int, part.len() as int), seq!['#']))
    } else if j >= q.len() {
        None
    } else {
        proof {
            if start <= q.len() {
                lemma_index_of_any_bound(q, seq!['&'], start);
            }
        }
        t_param_from(q, j + 1)
    }
}

/// The `t` parameter of a query string.
pub open spec fn t_param(q: Seq<char>) -> Option<Seq<char>> {
    t_param_from(q, 0)
}

/// Eleven characters of `[A-Za-z0-9_-]`.
pub open spec fn valid_video_id(id: Seq<char>) -> bool {
    id.len() == 11 && forall|i: int|
        0 <= i < id.len() ==> #[trigger] is_ascii_alnum(id[i]) || id[i] == '-' || id[i] == '_'
}

/// Starts like an http or https URL.
pub open spec fn looks_like_url(s: Seq<char>) -> bool {
    starts_with(s, "http://"@) || starts_with(s, "https://"@)
}

/// Why a video reference was refused, in the model.
pub enum VideoSpecFault {
    Empty,
    NotYouTubeUrl(Seq<char>),
    InvalidId(Seq<char>),
    BadTime(TimeSpecError, Seq<char>),
}

/// The id candidate and the query of a trimmed, non-empty reference that is
/// not refused as a foreign URL.
pub open spec fn candidate(s: Seq<char>) -> (Seq<char>, Option<Seq<char>>) {
    match id_and_query(s) {
        Some(p) => p,
        None => (s, None),
    }
}

/// The start offset named by a query, if any.
pub open spec fn offset_of(query: Option<Seq<char>>) -> Option<Seq<char>> {
    match query {
        Some(q) => t_param(q),
        None => None,
    }
}

/// How a video reference is read: its id and its start offset in seconds.
pub open spec fn video_spec_value(input: Seq<char>) -> Result<(Seq<char>, Option<int>), VideoSpecFault> {
    let s = trim(input);
    if s.len() == 0 {
        Err(VideoSpecFault::Empty)
    } else if id_and_query(s) is None && looks_like_url(s) {
        Err(VideoSpecFault::NotYouTubeUrl(s))
    } else {
        let (id, query) = candidate(s);
        if !valid_video_id(id) {
            Err(VideoSpecFault::InvalidId(id))
        } else {
            match offset_of(query) {
                None => Ok((id, None)),
                Some(v) => match time_spec_value(v) {
                    Ok(n) => Ok((id, Some(n))),
                    Err(e) => Err(VideoSpecFault::BadTime(e, v)),
                },
            }
        }
    }
}

/// Reading the reference's start offset overflows a `u64`.
pub open spec fn video_spec_overflows(input: Seq<char>) -> bool {
    let s = trim(input);
    &&& s.len() > 0
    &&& !(id_and_query(s) is None && looks_like_url(s))
    &&& valid_video_id(candidate(s).0)
    &&& offset_of(candidate(s).1) matches Some(v)
    &&& time_spec_overflows(v)
}

// ---------------------------------------------------------------------------
// Executable
// ---------------------------------------------------------------------------

/// Why a video reference was refused.
#[derive(Debug, Clone, PartialEq, Eq)]
pub enum VideoSpecError {
    /// Nothing but whitespace.
    Empty,
    /// An http(s) URL that is neither a watch URL nor a short URL.
    NotYouTubeUrl(String),
    /// The id found is not eleven characters of `[A-Za-z0-9_-]`.
    InvalidId(String),
    /// The `t=` parameter (its value given) is not a valid time specification.
    BadTime(TimeSpecError, String),
}

impl View for VideoSpecError {
    type V = VideoSpecFault;

    open spec fn view(&self) -> VideoSpecFault {
        match self {
            VideoSpecError::Empty => VideoSpecFault::Empty,
            VideoSpecError::NotYouTubeUrl(s) => VideoSpecFault::NotYouTubeUrl(s@),
            VideoSpecError::InvalidId(s) => VideoSpecFault::InvalidId(s@),
            VideoSpecError::BadTime(e, v) => VideoSpecFault::BadTime(*e, v@),
        }
    }
}

/// A parsed video reference in the model.
pub open spec fn video_result_view(r: Result<(String, Option<u64>), VideoSpecError>) -> Result<
    (Seq<char>, Option<int>),
    VideoSpecFault,
> {
    match r {
        Ok((id, None)) => Ok((id@, None)),
        Ok((id, Some(n))) => Ok((id@, Some(n as int))),
        Err(e) => Err(e@),
    }
}

/// The part of `v` after its first `c`.
fn after_char_exec(v: &Vec<char>, c: char) -> (r: Option<Vec<char>>)
    ensures
        r matches Some(w) ==> after_char(v@, c) == Some(w@),
        r is None ==> after_char(v@, c) is None,
{
    let ds: Vec<char> = vec![c];
    assert(ds@ =~= seq![c]);
    let j = index_of_any_exec(v, &ds, 0);
    if j < v.len() {
        Some(subvec(v, j + 1, v.len()))
    } else {
        None
    }
}

/// The part of `v` before its first character from `ds`.
fn prefix_before_any_exec(v: &Vec<char>, ds: &Vec<char>) -> (r: Vec<char>)
    ensures
        r@ == prefix_before_any(v@, ds@),
{
    let j = index_of_any_exec(v, ds, 0);
    subvec(v, 0, j)
}

fn short_parts_exec(rest: &Vec<char>) -> (r: (Vec<char>, Option<Vec<char>>))
    ensures
        r.0@ == short_parts(rest@).0,
        r.1 matches Some(q) ==> short_parts(rest@).1 == Some(q@),
        r.1 is None ==> short_parts(rest@).1 is None,
{
    let ds: Vec<char> = vec!['?', '#', '/'];
    assert(ds@ =~= seq!['?', '#', '/']);
    let id = prefix_before_any_exec(rest, &ds);
    (id, after_char_exec(rest, '?'))
}

/// Executable `id_and_query`.
fn id_and_query_exec(s: &Vec<char>) -> (r: Option<(Vec<char>, Option<Vec<char>>)>)
    ensures
        r is None <==> id_and_query(s@) is None,
        r matches Some(p) ==> id_and_query(s@) matches Some(q) && p.0@ == q.0 && (p.1 matches Some(
            w,
        ) ==> q.1 == Some(w@)) && (p.1 is None ==> q.1 is None),
{
    let key = chars_of("v=");
    match find_from_exec(s, &key, 0) {
        Some(i) => {
            proof {
                crate::text::lemma_find_from_bound(s@, key@, 0);
            }
            let n = s.len();
            let after_v = subvec(s, i + key.len(), n);
            let ds: Vec<char> = vec!['&', '#'];
            assert(ds@ =~= seq!['&', '#']);
            let id = prefix_before_any_exec(&after_v, &ds);
            Some((id, after_char_exec(s, '?')))
        },
        None => {
            let https = chars_of("https://youtu.be/");
            let http = chars_of("http://youtu.be/");
            if starts_with_exec(s, &https) {
                let rest = subvec(s, https.len(), s.len());
                Some(short_parts_exec(&rest))
            } else if starts_with_exec(s, &http) {
                let rest = subvec(s, http.len(), s.len());
                Some(short_parts_exec(&rest))
            } else {
                None
            }
        },
    }
}

/// Pulls the `t` parameter's value out of a `&`-separated query string,
/// cut at any `#`. `None` if it is not present.
pub fn extract_t_param(q: &Vec<char>) -> (r: Option<Vec<char>>)
    ensures
        r matches Some(v) ==> t_param(q@) == Some(v@),
        r is None ==> t_param(q@) is None,
{
    let amp: Vec<char> = vec!['&'];
    assert(amp@ =~= seq!['&']);
    let hash: Vec<char> = vec!['#'];
    assert(hash@ =~= seq!['#']);
    let tkey = chars_of("t=");
    let mut start: usize = 0;
    loop
        invariant
            start <= q.len(),
            amp@ == seq!['&'],
            hash@ == seq!['#'],
            tkey@ == "t="@,
            t_param(q@) == t_param_from(q@, start as nat),
        decreases q.len() + 1 - start,
    {
        let j = index_of_any_exec(q, &amp, start);
        let part = subvec(q, start, j);
        if starts_with_exec(&part, &tkey) {
            let value = subvec(&part, tkey.len(), part.len());
            return Some(prefix_before_any_exec(&value, &hash));
        }
        if j >= q.len() {
            return None;
        }
        start = j + 1;
    }
}

/// Whether `v` is eleven characters of `[A-Za-z0-9_-]`.
pub fn is_valid_video_id(v: &Vec<char>) -> (b: bool)
    ensures
        b == valid_video_id(v@),
{
    if v.len() != 11 {
        return false;
    }
    let mut i: usize = 0;
    while i < v.len()
        invariant
            i <= v.len(),
            v.len() == 11,
            forall|k: int|
                0 <= k < i ==> #[trigger] is_ascii_alnum(v@[k]) || v@[k] == '-' || v@[k] == '_',
        decreases v.len() - i,
    {
        let c = v[i];
        if !(char_is_ascii_alnum(c) || c == '-' || c == '_') {
            return false;
        }
        i += 1;
    }
    true
}

/// Parses a video reference into its id and optional start offset in
/// seconds, or answers `None` where reading the offset overflows a `u64`.
/// Accepts a watch URL (`...watch?v=<id>[&...]`), a short URL
/// (`http(s)://youtu.be/<id>[?...]`) or a bare 11-character id; the offset
/// comes from a `t=` query parameter in any time-specification form.
pub fn try_parse_video_spec(input: &str) -> (r: Option<Result<(String, Option<u64>), VideoSpecError>>)
    ensures
        r is None <==> video_spec_overflows(input@),
        r matches Some(res) ==> video_result_view(res) == video_spec_value(input@),
{
    let s = trimmed_chars(input);
    if s.len() == 0 {
        return Some(Err(VideoSpecError::Empty));
    }
    let found = id_and_query_exec(&s);
    let (id, query) = match found {
        Some(p) => p,
        None => {
            let http = chars_of("http://");
            let https = chars_of("https://");
            if starts_with_exec(&s, &http) || starts_with_exec(&s, &https) {
                return Some(Err(VideoSpecError::NotYouTubeUrl(string_of_all(&s))));
            }
            (subvec(&s, 0, s.len()), None)
        },
    };
    assert(s@.subrange(0, s@.len() as int) =~= s@);
    if !is_valid_video_id(&id) {
        return Some(Err(VideoSpecError::InvalidId(string_of_all(&id))));
    }
    let id_string = string_of_all(&id);
    match query {
        None => Some(Ok((id_string, None))),
        Some(q) => match extract_t_param(&q) {
            None => Some(Ok((id_string, None))),
            Some(v) => {
                let vs = string_of_all(&v);
                match try_parse_time_spec(vs.as_str()) {
                    None => None,
                    Some(Ok(n)) => Some(Ok((id_string, Some(n)))),
                    Some(Err(e)) => Some(Err(VideoSpecError::BadTime(e, vs))),
                }
            },
        },
    }
}

/// Parses a video reference (see `try_parse_video_spec`) whose start offset,
/// if any, fits in a `u64` all the way.
pub fn parse_video_spec(input: &str) -> (r: Result<(String, Option<u64>), VideoSpecError>)
    requires
        !video_spec_overflows(input@),
    ensures
        video_result_view(r) == video_spec_value(input@),
{
    match try_parse_video_spec(input) {
        Some(r) => r,
        None => {
            assert(false);
            Err(VideoSpecError::Empty)
        },
    }
}

/// The video id that a URL names: the id part of a watch or short URL, when
/// that part is not empty (the id is not validated otherwise).
pub open spec fn url_video_id(url: Seq<char>) -> Option<Seq<char>> {
    match id_and_query(url) {
        Some(p) => if p.0.len() > 0 {
            Some(p.0)
        } else {
            None
        },
        None => None,
    }
}

/// The video id that a URL names, if it has a watch or short URL shape with
/// a non-empty id part (the id is not validated otherwise). `None` when no
/// id is recognizable.
pub fn video_id_from_url(url: &str) -> (r: Option<String>)
    ensures
        r matches Some(id) ==> url_video_id(url@) == Some(id@),
        r is None ==> url_video_id(url@) is None,
{
    let s = chars_of(url);
    match id_and_query_exec(&s) {
        Some((id, _)) => {
            if id.len() > 0 {
                Some(string_of_all(&id))
            } else {
                None
            }
        },
        None => None,
    }
}

/// The stable key under which a URL's playback is recorded: its video id,
/// or the URL itself when it names none.
pub open spec fn url_key_of(url: Seq<char>) -> Seq<char> {
    match url_video_id(url) {
        Some(id) => id,
        None => url,
    }
}

/// Stable key for a URL: the video id when it names one, else the URL.
pub fn url_key(url: &str) -> (k: String)
    ensures
        k@ == url_key_of(url@),
{
    match video_id_from_url(url) {
        Some(id) => id,
        None => url.to_owned(),
    }
}

/// The watch URL of a video: `https://www.youtube.com/watch?v=<id>`.
pub open spec fn watch_url_of(id: Seq<char>) -> Seq<char> {
    "https://www.youtube.com/watch?v="@ + id
}

/// The watch URL of a video id.
pub fn watch_url(video_id: &str) -> (r: String)
    ensures
        r@ == watch_url_of(video_id@),
{
    let prefix = chars_of("https://www.youtube.com/watch?v=");
    let id = chars_of(video_id);
    let url = concat_chars(&prefix, &id);
    string_of_all(&url)
}

// ---------------------------------------------------------------------------
// Playlists
// ---------------------------------------------------------------------------

/// The canonical URL of a playlist given by its bare id.
pub open spec fn playlist_url_prefix() -> Seq<char> {
    "https://www.youtube.com/playlist?list="@
}

/// Why a playlist reference was refused, in the model.
pub enum PlaylistRefFault {
    Empty,
    MissingListParam(Seq<char>),
    InvalidId(Seq<char>),
}

/// How a playlist reference is read: a URL that carries `list=` is kept as
/// it is (trimmed); a bare id without `/`, space or `?` becomes the
/// canonical playlist URL.
pub open spec fn normalize_playlist_value(input: Seq<char>) -> Result<Seq<char>, PlaylistRefFault> {
    let s = trim(input);
    if s.len() == 0 {
        Err(PlaylistRefFault::Empty)
    } else if looks_like_url(s) {
        if find(s, "list="@) is Some {
            Ok(s)
        } else {
            Err(PlaylistRefFault::MissingListParam(s))
        }
    } else if s.contains('/') || s.contains(' ') || s.contains('?') {
        Err(PlaylistRefFault::InvalidId(s))
    } else {
        Ok(playlist_url_prefix() + s)
    }
}

/// Why a playlist reference was refused.
#[derive(Debug, Clone, PartialEq, Eq)]
pub enum PlaylistRefError {
    /// Nothing but whitespace.
    Empty,
    /// A URL without a `list=` parameter.
    MissingListParam(String),
    /// A bare id holding `/`, a space or `?`.
    InvalidId(String),
}

impl View for PlaylistRefError {
    type V = PlaylistRefFault;

    open spec fn view(&self) -> PlaylistRefFault {
        match self {
            PlaylistRefError::Empty => PlaylistRefFault::Empty,
            PlaylistRefError::MissingListParam(s) => PlaylistRefFault::MissingListParam(s@),
            PlaylistRefError::InvalidId(s) => PlaylistRefFault::InvalidId(s@),
        }
    }
}

/// A normalized playlist reference in the model.
pub open spec fn playlist_result_view(r: Result<String, PlaylistRefError>) -> Result<
    Seq<char>,
    PlaylistRefFault,
> {
    match r {
        Ok(u) => Ok(u@),
        Err(e) => Err(e@),
    }
}

/// Accepts either a full playlist URL or a bare playlist id and returns a
/// canonical URL.
pub fn normalize_playlist(input: &str) -> (r: Result<String, PlaylistRefError>)
    ensures
        playlist_result_view(r) == normalize_playlist_value(input@),
{
    let s = trimmed_chars(input);
    if s.len() == 0 {
        return Err(PlaylistRefError::Empty);
    }
    let http = chars_of("http://");
    let https = chars_of("https://");
    if starts_with_exec(&s, &http) || starts_with_exec(&s, &https) {
        let list = chars_of("list=");
        if find_from_exec(&s, &list, 0).is_some() {
            return Ok(string_of_all(&s));
        }
        return Err(PlaylistRefError::MissingListParam(string_of_all(&s)));
    }
    if contains_char_exec(&s, '/') || contains_char_exec(&s, ' ') || contains_char_exec(&s, '?') {
        return Err(PlaylistRefError::InvalidId(string_of_all(&s)));
    }
    let prefix = chars_of("https://www.youtube.com/playlist?list=");
    let url = concat_chars(&prefix, &s);
    Ok(string_of_all(&url))
}

// ---------------------------------------------------------------------------
// Laws
// ---------------------------------------------------------------------------

/// A video reference without surrounding whitespace that names an id in a
/// URL shape is recorded, when played, under the same key that adding it
/// configures: the URL's key is the id that reading the reference gives.
pub proof fn law_url_key_is_parsed_id(u: Seq<char>)
    requires
        trim(u) == u,
        id_and_query(u) is Some,
        video_spec_value(u) is Ok,
    ensures
        url_key_of(u) == video_spec_value(u)->Ok_0.0,
{
}

/// Normalizing a playlist reference is idempotent: the canonical URL it
/// gives normalizes to itself. In particular a bare id and its canonical
/// URL name the same playlist.
pub proof fn law_normalize_playlist_idempotent(input: Seq<char>)
    requires
        normalize_playlist_value(input) is Ok,
    ensures
        normalize_playlist_value(normalize_playlist_value(input)->Ok_0) == normalize_playlist_value(
            input,
        ),
{
    let s = trim(input);
    crate::text::lemma_trim_ends(input);
    crate::text::lemma_trim_idempotent(input);
    if looks_like_url(s) {
    } else {
        let p = playlist_url_prefix();
        let u = p + s;
        reveal_strlit("https://www.youtube.com/playlist?list=");
        reveal_strlit("https://");
        reveal_strlit("list=");
        assert(p.len() == 38);
        assert(u[0] == 'h');
        assert(u[u.len() - 1] == s[s.len() - 1]);
        crate::text::lemma_trim_no_ws_ends(u);
        assert(u.subrange(0, 8) =~= "https://"@);
        assert(u.subrange(33, 38) =~= "list="@);
        crate::text::lemma_find_when_occurs(u, "list="@, 0, 33);
    }
}

/// The characters of a valid id are none of the separators that the
/// reference shapes use, nor whitespace.
proof fn lemma_id_char(id: Seq<char>, j: int)
    requires
        valid_video_id(id),
        0 <= j < id.len(),
    ensures
        !crate::text::is_ws(id[j]),
        id[j] != '=',
        id[j] != '&',
        id[j] != '#',
        id[j] != '?',
        id[j] != '/',
        id[j] != ':',
{
    assert(is_ascii_alnum(id[j]) || id[j] == '-' || id[j] == '_');
}

proof fn lemma_id_free_of(id: Seq<char>, ds: Seq<char>)
    requires
        valid_video_id(id),
        forall|k: int| 0 <= k < ds.len() ==> (#[trigger] ds[k] == '&' || ds[k] == '#' || ds[k] == '?' || ds[k] == '/'),
    ensures
        forall|j: int| 0 <= j < id.len() ==> !ds.contains(#[trigger] id[j]),
{
    assert forall|j: int| 0 <= j < id.len() implies !ds.contains(#[trigger] id[j]) by {
        lemma_id_char(id, j);
        if ds.contains(id[j]) {
            let k = choose|k: int| 0 <= k < ds.len() && ds[k] == id[j];
            assert(ds[k] == '&' || ds[k] == '#' || ds[k] == '?' || ds[k] == '/');
        }
    }
}

/// A valid id is the whole of its id part, with no query.
proof fn lemma_id_alone(id: Seq<char>)
    requires
        valid_video_id(id),
    ensures
        trim(id) == id,
        prefix_before_any(id, seq!['&', '#']) == id,
        short_parts(id) == (id, None::<Seq<char>>),
        t_param(seq!['v', '='] + id) is None,
{
    lemma_id_char(id, 0);
    lemma_id_char(id, 10);
    crate::text::lemma_trim_no_ws_ends(id);
    lemma_id_free_of(id, seq!['&', '#']);
    crate::text::lemma_index_of_any_absent(id, seq!['&', '#'], 0);
    assert(id.subrange(0, id.len() as int) =~= id);
    lemma_id_free_of(id, seq!['?', '#', '/']);
    crate::text::lemma_index_of_any_absent(id, seq!['?', '#', '/'], 0);
    lemma_id_free_of(id, seq!['?']);
    crate::text::lemma_index_of_any_absent(id, seq!['?'], 0);
    let q = seq!['v', '='] + id;
    assert forall|j: int| 0 <= j < q.len() implies !seq!['&'].contains(#[trigger] q[j]) by {
        if j >= 2 {
            assert(q[j] == id[j - 2]);
            lemma_id_char(id, j - 2);
        }
        if seq!['&'].contains(q[j]) {
            assert(seq!['&'][0] == q[j]);
        }
    }
    crate::text::lemma_index_of_any_absent(q, seq!['&'], 0);
    reveal_strlit("t=");
    assert(q.subrange(0, q.len() as int) =~= q);
    assert(q.subrange(0, 2)[0] == 'v');
}

proof fn lemma_prefix_occurs(v: Seq<char>, ds: Seq<char>, p: Seq<char>)
    requires
        occurs_in(prefix_before_any(v, ds), p),
    ensures
        occurs_in(v, p),
{
    lemma_index_of_any_bound(v, ds, 0);
    lemma_occurs_sub(v, 0, index_of_any_from(v, ds, 0) as int, p);
}

proof fn lemma_after_char_occurs(v: Seq<char>, c: char, p: Seq<char>)
    requires
        after_char(v, c) matches Some(w) && occurs_in(w, p),
    ensures
        occurs_in(v, p),
{
    let j = index_of_any_from(v, seq![c], 0);
    lemma_index_of_any_bound(v, seq![c], 0);
    lemma_occurs_sub(v, (j + 1) as int, v.len() as int, p);
}

proof fn lemma_t_param_occurs(q: Seq<char>, start: nat)
    requires
        start <= q.len(),
        t_param_from(q, start) is Some,
    ensures
        occurs_in(q, "t="@),
    decreases q.len() + 1 - start,
{
    let j = index_of_any_from(q, seq!['&'], start);
    lemma_index_of_any_bound(q, seq!['&'], start);
    let part = q.subrange(start as int, j as int);
    if starts_with(part, "t="@) {
        reveal_strlit("t=");
        assert(part.subrange(0, 2) == "t="@);
        assert(occurs_in(part, "t="@));
        lemma_occurs_sub(q, start as int, j as int, "t="@);
    } else {
        lemma_t_param_occurs(q, j + 1);
    }
}

proof fn lemma_query_offset_occurs(query: Option<Seq<char>>, v: Seq<char>)
    requires
        query matches Some(q) && occurs_in(v, q),
        offset_of(query) is Some,
    ensures
        occurs_in(v, "t="@),
{
    let q = query->Some_0;
    lemma_t_param_occurs(q, 0);
    let (k, e) = choose|k: int, e: int| 0 <= k <= e <= v.len() && #[trigger] v.subrange(k, e) == q;
    lemma_occurs_sub(v, k, e, "t="@);
}

/// What an accepted video reference gives: an id of eleven characters of
/// `[A-Za-z0-9_-]` taken from the reference itself, and a start offset only
/// where the reference holds a `t=` parameter.
pub proof fn law_accepted_video_reference(input: Seq<char>)
    requires
        video_spec_value(input) is Ok,
    ensures
        valid_video_id(video_spec_value(input)->Ok_0.0),
        occurs_in(input, video_spec_value(input)->Ok_0.0),
        video_spec_value(input)->Ok_0.1 is Some ==> occurs_in(input, "t="@),
{
    let s = trim(input);
    let lo = crate::text::skip_ws_from(input, 0);
    let hi = crate::text::trim_end_at(input, input.len());
    crate::text::lemma_skip_ws_bound(input, 0);
    crate::text::lemma_trim_end_at_bound(input, input.len());
    assert(s == input.subrange(lo as int, hi as int));
    let (id, query) = candidate(s);
    // Both facts hold of `s`, hence of `input`.
    match find(s, watch_key()) {
        Some(i) => {
            crate::text::lemma_find_from_bound(s, watch_key(), 0);
            reveal_strlit("v=");
            let after_v = s.subrange((i + watch_key().len()) as int, s.len() as int);
            lemma_index_of_any_bound(after_v, seq!['&', '#'], 0);
            assert(id == after_v.subrange(0, index_of_any_from(after_v, seq!['&', '#'], 0) as int));
            assert(occurs_in(id, id)) by { lemma_occurs_whole(id); }
            lemma_prefix_occurs(after_v, seq!['&', '#'], id);
            lemma_occurs_sub(s, (i + watch_key().len()) as int, s.len() as int, id);
            if offset_of(query) is Some {
                let q = query->Some_0;
                lemma_occurs_whole(q);
                lemma_after_char_occurs(s, '?', q);
                lemma_query_offset_occurs(query, s);
            }
        },
        None => {
            if id_and_query(s) is Some {
                let n: int = if starts_with(s, short_https()) {
                    short_https().len() as int
                } else {
                    short_http().len() as int
                };
                let rest = s.subrange(n, s.len() as int);
                assert(short_parts(rest) == (id, query));
                lemma_occurs_whole(id);
                lemma_prefix_occurs(rest, seq!['?', '#', '/'], id);
                lemma_occurs_sub(s, n, s.len() as int, id);
                if offset_of(query) is Some {
                    let q = query->Some_0;
                    lemma_occurs_whole(q);
                    lemma_after_char_occurs(rest, '?', q);
                    lemma_occurs_sub(s, n, s.len() as int, q);
                    lemma_query_offset_occurs(query, s);
                }
            } else {
                lemma_occurs_whole(s);
            }
        },
    }
    lemma_occurs_sub(input, lo as int, hi as int, id);
    if video_spec_value(input)->Ok_0.1 is Some {
        lemma_occurs_sub(input, lo as int, hi as int, "t="@);
    }
}

/// Every shape of a reference to a valid id reads as that id with no
/// offset: the bare id, the watch URL and the short URL.
pub proof fn law_reference_shapes_agree(id: Seq<char>)
    requires
        valid_video_id(id),
    ensures
        video_spec_value(id) == Ok::<(Seq<char>, Option<int>), VideoSpecFault>((id, None)),
        video_spec_value("https://www.youtube.com/watch?v="@ + id) == Ok::<
            (Seq<char>, Option<int>),
            VideoSpecFault,
        >((id, None)),
        video_spec_value("https://youtu.be/"@ + id) == Ok::<(Seq<char>, Option<int>), VideoSpecFault>(
            (id, None),
        ),
{
    lemma_id_alone(id);
    reveal_strlit("v=");
    reveal_strlit("https://youtu.be/");
    reveal_strlit("http://youtu.be/");
    reveal_strlit("http://");
    reveal_strlit("https://");
    reveal_strlit("https://www.youtube.com/watch?v=");
    // the bare id
    assert forall|j: int| 0 <= j && j + 1 < id.len() && #[trigger] id[j] == watch_key()[0] implies id[j + 1]
        != watch_key()[1] by {
        lemma_id_char(id, j + 1);
    }
    crate::text::lemma_find_pair_absent(id, watch_key(), 0);
    lemma_id_char(id, 4);
    lemma_id_char(id, 5);
    assert(id.subrange(0, 7)[4] == id[4]);
    assert(id.subrange(0, 8)[5] == id[5]);
    assert(!looks_like_url(id));
    // the watch URL
    let w = "https://www.youtube.com/watch?v="@;
    let u = w + id;
    lemma_id_char(id, 10);
    crate::text::lemma_trim_no_ws_ends(u);
    assert(u.subrange(30, 32) =~= watch_key());
    assert forall|j: int| 0 <= j < 30 implies #[trigger] u[j] != watch_key()[0] by {
        assert(u[j] == w[j]);
    }
    crate::text::lemma_find_first_at(u, watch_key(), 0, 30);
    assert(u.subrange(32, u.len() as int) =~= id);
    assert forall|j: int| 0 <= j < 29 implies !seq!['?'].contains(#[trigger] u[j]) by {
        assert(u[j] == w[j]);
        if seq!['?'].contains(u[j]) {
            assert(seq!['?'][0] == u[j]);
        }
    }
    assert(seq!['?'][0] == u[29]);
    crate::text::lemma_index_of_any_at(u, seq!['?'], 0, 29);
    assert(u.subrange(30, u.len() as int) =~= seq!['v', '='] + id);
    // the short URL
    let sh = "https://youtu.be/"@;
    let v = sh + id;
    crate::text::lemma_trim_no_ws_ends(v);
    assert forall|j: int| 0 <= j && j + 1 < v.len() && #[trigger] v[j] == watch_key()[0] implies v[j + 1]
        != watch_key()[1] by {
        if j < 17 {
            assert(v[j] == sh[j]);
        } else {
            assert(v[j + 1] == id[j + 1 - 17]);
            lemma_id_char(id, j + 1 - 17);
        }
    }
    crate::text::lemma_find_pair_absent(v, watch_key(), 0);
    assert(v.subrange(0, 17) =~= sh);
    assert(v.subrange(17, v.len() as int) =~= id);
}

/// A character of a YouTube video id: an ASCII letter or digit, `-` or `_`.
pub open spec fn youtube_id_char(c: char) -> bool {
    let n = c as u32;
    ||| ('a' as u32 <= n && n <= 'z' as u32)
    ||| ('A' as u32 <= n && n <= 'Z' as u32)
    ||| ('0' as u32 <= n && n <= '9' as u32)
    ||| c == '-'
    ||| c == '_'
}

/// Eleven characters read as a video reference: every eleven characters of
/// ASCII letters, digits, `-` and `_` read as that id with no offset, as a
/// bare id, in a watch URL and in a short URL; and eleven characters are
/// accepted only when each is one of those.
pub proof fn law_eleven_character_ids(s: Seq<char>)
    requires
        s.len() == 11,
    ensures
        (forall|i: int| 0 <= i < s.len() ==> #[trigger] youtube_id_char(s[i])) ==> {
            &&& video_spec_value(s) == Ok::<(Seq<char>, Option<int>), VideoSpecFault>((s, None))
            &&& video_spec_value("https://www.youtube.com/watch?v="@ + s) == Ok::<
                (Seq<char>, Option<int>),
                VideoSpecFault,
            >((s, None))
            &&& video_spec_value("https://youtu.be/"@ + s) == Ok::<
                (Seq<char>, Option<int>),
                VideoSpecFault,
            >((s, None))
        },
        video_spec_value(s) is Ok ==> forall|i: int| 0 <= i < s.len() ==> #[trigger] youtube_id_char(s[i]),
{
    if forall|i: int| 0 <= i < s.len() ==> #[trigger] youtube_id_char(s[i]) {
        assert forall|i: int| 0 <= i < s.len() implies #[trigger] is_ascii_alnum(s[i]) || s[i] == '-'
            || s[i] == '_' by {
            assert(youtube_id_char(s[i]));
        }
        assert(valid_video_id(s));
        law_reference_shapes_agree(s);
    }
    if video_spec_value(s) is Ok {
        let t = trim(s);
        let lo = crate::text::skip_ws_from(s, 0);
        let hi = crate::text::trim_end_at(s, s.len());
        crate::text::lemma_skip_ws_bound(s, 0);
        crate::text::lemma_trim_end_at_bound(s, s.len());
        assert(t.len() <= 11);
        let id = candidate(t).0;
        assert(valid_video_id(id));
        reveal_strlit("v=");
        reveal_strlit("https://youtu.be/");
        reveal_strlit("http://youtu.be/");
        match find(t, watch_key()) {
            Some(i) => {
                crate::text::lemma_find_from_bound(t, watch_key(), 0);
                let after_v = t.subrange((i + 2) as int, t.len() as int);
                lemma_index_of_any_bound(after_v, seq!['&', '#'], 0);
                assert(id.len() <= after_v.len());
                assert(false);
            },
            None => {
                assert(!starts_with(t, short_https()));
                assert(!starts_with(t, short_http()));
                assert(id == t);
                assert(t.len() == 11);
                assert(lo == 0 && hi == 11);
                assert(t =~= s);
                assert forall|i: int| 0 <= i < s.len() implies #[trigger] youtube_id_char(s[i]) by {
                    assert(is_ascii_alnum(s[i]) || s[i] == '-' || s[i] == '_');
                }
            },
        }
    }
}

/// Playing a video by its watch URL records it under its own id, the id that
/// playlists list it by: the key of the watch URL is the id.
pub proof fn law_watch_url_key(id: Seq<char>)
    requires
        valid_video_id(id),
    ensures
        url_key_of(watch_url_of(id)) == id,
{
    lemma_id_alone(id);
    reveal_strlit("v=");
    reveal_strlit("https://www.youtube.com/watch?v=");
    let w = "https://www.youtube.com/watch?v="@;
    let u = w + id;
    assert(u.subrange(30, 32) =~= watch_key());
    assert forall|j: int| 0 <= j < 30 implies #[trigger] u[j] != watch_key()[0] by {
        assert(u[j] == w[j]);
    }
    crate::text::lemma_find_first_at(u, watch_key(), 0, 30);
    assert(u.subrange(32, u.len() as int) =~= id);
}

} // verus!
