//! The player's IPC protocol as the position tracker uses it: numbered
//! property requests, matching their answers, and the player's command line.
use vstd::prelude::*;

use crate::format::{decimal, push_decimal};
use crate::text::{chars_of, concat_chars, string_of_all};

verus! {

/// A player property that the tracker polls.
#[derive(Debug, Clone, Copy, PartialEq, Eq, Structural)]
pub enum Property {
    TimePos,
    Duration,
}

/// The property's name in the protocol.
pub open spec fn property_name(p: Property) -> Seq<char> {
    match p {
        Property::TimePos => "time-pos"@,
        Property::Duration => "duration"@,
    }
}

/// The request line that asks the player for a property, under a request id.
pub open spec fn get_property_line(p: Property, id: u64) -> Seq<char> {
    "{\"command\":[\"get_property\",\""@ + property_name(p) + "\"],\"request_id\":"@ + decimal(
        id as nat,
    ) + "}"@
}

/// The JSON request line asking the player for `p`, numbered `id`.
pub fn get_property_command(p: Property, id: u64) -> (r: String)
    ensures
        r@ == get_property_line(p, id),
{
    let head = chars_of("{\"command\":[\"get_property\",\"");
    let name = match p {
        Property::TimePos => chars_of("time-pos"),
        Property::Duration => chars_of("duration"),
    };
    let mid = chars_of("\"],\"request_id\":");
    let tail = chars_of("}");
    let a = concat_chars(&head, &name);
    let mut b = concat_chars(&a, &mid);
    push_decimal(&mut b, id);
    let c = concat_chars(&b, &tail);
    string_of_all(&c)
}

/// The property requested under `id`, among the outstanding requests.
pub open spec fn pending_lookup(entries: Seq<(u64, Property)>, id: u64) -> Option<Property>
    decreases entries.len(),
{
    if entries.len() == 0 {
        None
    } else if entries.last().0 == id {
        Some(entries.last().1)
    } else {
        pending_lookup(entries.drop_last(), id)
    }
}

/// Requests sent to the player and not answered yet, and the next request
/// id (ids start at 1 and are never reused).
#[derive(Debug)]
pub struct PendingRequests {
    next_id: u64,
    entries: Vec<(u64, Property)>,
}

impl PendingRequests {
    /// The id the next request gets.
    pub closed spec fn next(&self) -> u64 {
        self.next_id
    }

    /// The property outstanding under `id`, if any.
    pub closed spec fn lookup(&self, id: u64) -> Option<Property> {
        pending_lookup(self.entries@, id)
    }

    /// Every outstanding id is below the next one, and none is outstanding twice.
    pub closed spec fn wf(&self) -> bool {
        &&& self.next_id >= 1
        &&& forall|k: int| 0 <= k < self.entries@.len() ==> (#[trigger] self.entries@[k]).0 < self.next_id
        &&& forall|k1: int, k2: int|
            0 <= k1 < k2 < self.entries@.len() ==> (#[trigger] self.entries@[k1]).0
                != (#[trigger] self.entries@[k2]).0
    }

    /// No requests yet; the first gets id 1.
    pub fn new() -> (r: Self)
        ensures
            r.wf(),
            r.next() == 1,
            forall|id: u64| r.lookup(id) is None,
    {
        PendingRequests { next_id: 1, entries: Vec::new() }
    }

    /// The id the next request gets.
    pub fn next_request_id(&self) -> (id: u64)
        ensures
            id == self.next(),
    {
        self.next_id
    }

    /// Records a request for `p` under the next id, and returns that id.
    pub fn issue(&mut self, p: Property) -> (id: u64)
        requires
            old(self).wf(),
            old(self).next() < u64::MAX,
        ensures
            final(self).wf(),
            id == old(self).next(),
            final(self).next() == id + 1,
            final(self).lookup(id) == Some(p),
            forall|other: u64| other != id ==> final(self).lookup(other) == old(self).lookup(other),
    {
        let id = self.next_id;
        let ghost old_entries = self.entries@;
        self.entries.push((id, p));
        assert(self.entries@.drop_last() =~= old_entries);
        self.next_id = id + 1;
        id
    }

    /// Takes the request numbered `id` off the outstanding ones, and says
    /// which property it asked for (`None` for an id not outstanding).
    pub fn resolve(&mut self, id: u64) -> (r: Option<Property>)
        requires
            old(self).wf(),
        ensures
            final(self).wf(),
            r == old(self).lookup(id),
            final(self).next() == old(self).next(),
            final(self).lookup(id) is None,
            forall|other: u64| other != id ==> final(self).lookup(other) == old(self).lookup(other),
    {
        let ghost old_entries = self.entries@;
        let mut k: usize = 0;
        while k < self.entries.len()
            invariant
                k <= self.entries@.len(),
                self.entries@ == old_entries,
                self.wf(),
                self.next_id == old(self).next_id,
                old_entries == old(self).entries@,
                forall|j: int| 0 <= j < k ==> (#[trigger] old_entries[j]).0 != id,
            decreases self.entries.len() - k,
        {
            if self.entries[k].0 == id {
                let (_, p) = self.entries.remove(k);
                proof {
                    lemma_lookup_unique(old_entries, k as int, id);
                    lemma_lookup_after_remove(old_entries, k as int, id);
                    let es = self.entries@;
                    assert forall|k1: int, k2: int|
                        0 <= k1 < k2 < es.len() implies (#[trigger] es[k1]).0 != (#[trigger] es[k2]).0 by {
                        let a = if k1 < k { k1 } else { k1 + 1 };
                        let b = if k2 < k { k2 } else { k2 + 1 };
                        assert(es[k1] == old_entries[a]);
                        assert(es[k2] == old_entries[b]);
                    }
                    assert forall|j: int| 0 <= j < es.len() implies (#[trigger] es[j]).0 < self.next_id by {
                        let a = if j < k { j } else { j + 1 };
                        assert(es[j] == old_entries[a]);
                    }
                }
                return Some(p);
            }
            k += 1;
        }
        proof {
            lemma_lookup_absent(old_entries, id);
        }
        None
    }
}

/// The lookup finds the only entry with the id.
proof fn lemma_lookup_unique(es: Seq<(u64, Property)>, k: int, id: u64)
    requires
        0 <= k < es.len(),
        es[k].0 == id,
        forall|k1: int, k2: int| 0 <= k1 < k2 < es.len() ==> (#[trigger] es[k1]).0 != (#[trigger] es[k2]).0,
    ensures
        pending_lookup(es, id) == Some(es[k].1),
    decreases es.len(),
{
    if k < es.len() - 1 {
        assert(es.last().0 != id) by {
            assert(es[k].0 != es[es.len() - 1].0);
        }
        let d = es.drop_last();
        assert forall|k1: int, k2: int| 0 <= k1 < k2 < d.len() implies (#[trigger] d[k1]).0 != (#[trigger] d[k2]).0 by {
            assert(es[k1].0 != es[k2].0);
        }
        lemma_lookup_unique(d, k, id);
    }
}

proof fn lemma_lookup_absent(es: Seq<(u64, Property)>, id: u64)
    requires
        forall|j: int| 0 <= j < es.len() ==> (#[trigger] es[j]).0 != id,
    ensures
        pending_lookup(es, id) is None,
    decreases es.len(),
{
    if es.len() > 0 {
        assert(es[es.len() - 1].0 != id);
        let d = es.drop_last();
        assert forall|j: int| 0 <= j < d.len() implies (#[trigger] d[j]).0 != id by {
            assert(es[j].0 != id);
        }
        lemma_lookup_absent(d, id);
    }
}

/// Removing the entry at `k` removes exactly the lookup of its id.
proof fn lemma_lookup_after_remove(es: Seq<(u64, Property)>, k: int, id: u64)
    requires
        0 <= k < es.len(),
        es[k].0 == id,
        forall|k1: int, k2: int| 0 <= k1 < k2 < es.len() ==> (#[trigger] es[k1]).0 != (#[trigger] es[k2]).0,
    ensures
        pending_lookup(es.remove(k), id) is None,
        forall|other: u64| other != id ==> pending_lookup(es.remove(k), other) == pending_lookup(es, other),
        forall|j: int| 0 <= j < es.remove(k).len() ==> #[trigger] es.remove(k)[j] == (if j < k { es[j] } else { es[j + 1] }),
    decreases es.len(),
{
    let r = es.remove(k);
    es.remove_ensures(k);
    assert forall|j: int| 0 <= j < r.len() implies (#[trigger] r[j]).0 != id by {
        if j < k {
            assert(r[j] == es[j]);
            assert(es[j].0 != es[k].0);
        } else {
            assert(r[j] == es[j + 1]);
            assert(es[k].0 != es[j + 1].0);
        }
    }
    lemma_lookup_absent(r, id);
    assert forall|other: u64| other != id implies pending_lookup(r, other) == pending_lookup(es, other) by {
        lemma_lookup_skip(es, k, other);
    }
}

/// Removing an entry whose id differs leaves a lookup unchanged.
proof fn lemma_lookup_skip(es: Seq<(u64, Property)>, k: int, other: u64)
    requires
        0 <= k < es.len(),
        es[k].0 != other,
    ensures
        pending_lookup(es.remove(k), other) == pending_lookup(es, other),
    decreases es.len(),
{
    let r = es.remove(k);
    if k == es.len() - 1 {
        assert(r =~= es.drop_last());
    } else {
        assert(r.last() == es.last());
        if es.last().0 != other {
            assert(r.drop_last() =~= es.drop_last().remove(k));
            lemma_lookup_skip(es.drop_last(), k, other);
        }
    }
}

// ---------------------------------------------------------------------------
// The player's command line
// ---------------------------------------------------------------------------

pub open spec fn strings_of(v: Seq<String>) -> Seq<Seq<char>> {
    v.map_values(|s: String| s@)
}

/// The player's arguments: audio only, the IPC socket, the resume offset
/// (already formatted), then the URL.
pub open spec fn mpv_argv(audio_only: bool, socket: Seq<char>, start: Option<Seq<char>>, url: Seq<char>) -> Seq<
    Seq<char>,
> {
    (if audio_only {
        seq!["--no-video"@]
    } else {
        Seq::empty()
    }) + seq!["--input-ipc-server="@ + socket] + (match start {
        Some(s) => seq!["--start=+"@ + s],
        None => Seq::empty(),
    }) + seq![url]
}

/// Audio-only playback and the resume offset, in the player's arguments:
/// audio only adds `--no-video` in front and changes nothing else; a start
/// offset `s` is passed as `--start=+<s>` exactly once, with or without
/// video (given a URL that is not itself that argument); and the IPC socket
/// and the URL are always passed.
pub proof fn law_player_arguments(
    audio_only: bool,
    socket: Seq<char>,
    start: Option<Seq<char>>,
    url: Seq<char>,
)
    ensures
        mpv_argv(true, socket, start, url) == seq!["--no-video"@] + mpv_argv(false, socket, start, url),
        mpv_argv(false, socket, start, url)[0] == "--input-ipc-server="@ + socket,
        mpv_argv(audio_only, socket, start, url).last() == url,
        start is Some && url != "--start=+"@ + start->Some_0 ==> {
            let args = mpv_argv(audio_only, socket, start, url);
            let arg = "--start=+"@ + start->Some_0;
            &&& exists|k: int| 0 <= k < args.len() && args[k] == arg
            &&& forall|j: int, k: int|
                0 <= j < args.len() && 0 <= k < args.len() && args[j] == arg && args[k] == arg ==> j
                    == k
        },
{
    let ipc = "--input-ipc-server="@ + socket;
    let none: Seq<Seq<char>> = Seq::empty();
    let front = seq!["--no-video"@];
    let st = match start {
        Some(s) => seq!["--start=+"@ + s],
        None => none,
    };
    assert(mpv_argv(false, socket, start, url) =~= seq![ipc] + st + seq![url]);
    assert(mpv_argv(true, socket, start, url) =~= front + (seq![ipc] + st + seq![url]));
    if let Some(s) = start {
        reveal_strlit("--start=+");
        reveal_strlit("--input-ipc-server=");
        reveal_strlit("--no-video");
        let arg = "--start=+"@ + s;
        assert(arg[2] == 's');
        assert(ipc[2] == 'i');
        assert(ipc != arg);
        assert("--no-video"@[2] == 'n');
        assert("--no-video"@ != arg);
        if url != arg {
            let args = mpv_argv(audio_only, socket, start, url);
            if audio_only {
                assert(args =~= seq!["--no-video"@, ipc, arg, url]);
                assert(args[2] == arg);
            } else {
                assert(args =~= seq![ipc, arg, url]);
                assert(args[1] == arg);
            }
        }
    }
}

/// Builds the player's arguments (see `mpv_argv`).
pub fn mpv_args(audio_only: bool, socket: &str, start: Option<&str>, url: &str) -> (r: Vec<String>)
    ensures
        strings_of(r@) == mpv_argv(
            audio_only,
            socket@,
            match start {
                Some(s) => Some(s@),
                None => None,
            },
            url@,
        ),
{
    let mut r: Vec<String> = Vec::new();
    if audio_only {
        r.push("--no-video".to_owned());
    }
    let ipc = concat_chars(&chars_of("--input-ipc-server="), &chars_of(socket));
    r.push(string_of_all(&ipc));
    match start {
        Some(s) => {
            let st = concat_chars(&chars_of("--start=+"), &chars_of(s));
            r.push(string_of_all(&st));
        },
        None => {},
    }
    r.push(url.to_owned());
    assert(strings_of(r@) =~= mpv_argv(
        audio_only,
        socket@,
        match start {
            Some(s) => Some(s@),
            None => None,
        },
        url@,
    ));
    r
}

} // verus!
