//! Bash completion for configured playlist names and video ids, spliced into
//! the generated completion script.
use vstd::prelude::*;

use crate::text::{
    chars_of, concat_chars, find, find_from_exec, lemma_find_first, lemma_find_from_bound,
    lemma_find_is_first, lemma_find_none, lemma_find_when_occurs, lemma_no_occurrence_across,
    lemma_none_before, lemma_none_inside, lemma_occurs_sub, mismatch_at, occurs_at, occurs_in,
    overlap_mismatch, runs_into_nowhere, starts_nowhere_in, string_of_all, subvec,
};

verus! {

/// Shell functions that read playlist names and video ids out of the
/// configuration file at completion time, one section at a time.
pub const BASH_HELPER: &'static str = r#"
_rstube_field_in_section() {
    # args: $1 = section name (without brackets), $2 = TOML field name
    local cfg="${RSTUBE_CONFIG_DIR:-${XDG_CONFIG_HOME:-$HOME/.config}/rstube}/config.toml"
    [[ -f "$cfg" ]] || return
    awk -v want="[[$1]]" -v field="$2" '
        /^\[\[/ { in_section = ($0 == want); next }
        /^\[/   { in_section = 0; next }
        in_section && $1 == field {
            match($0, /"[^"]*"/)
            if (RSTART > 0) print substr($0, RSTART+1, RLENGTH-2)
        }
    ' "$cfg"
}
_rstube_playlist_names() { _rstube_field_in_section playlists name; }
_rstube_video_ids()      { _rstube_field_in_section videos video_id; }
"#;

/// The case labels of the subcommands that take a playlist name.
pub const PLAYLIST_SHOW_CASE: &'static str = "rstube__subcmd__playlists__subcmd__show)";
pub const PLAYLIST_REMOVE_CASE: &'static str = "rstube__subcmd__playlists__subcmd__remove)";
pub const PLAYLIST_FETCH_CASE: &'static str = "rstube__subcmd__playlists__subcmd__fetch)";

/// The case labels of the subcommands that take a video id.
pub const VIDEO_REMOVE_CASE: &'static str = "rstube__subcmd__videos__subcmd__remove)";
pub const VIDEO_FETCH_CASE: &'static str = "rstube__subcmd__videos__subcmd__fetch)";

/// What a section's completion line is, in the generated script.
pub const OPTS_COMPLETION: &'static str = "COMPREPLY=( $(compgen -W \"${opts}\" -- \"${cur}\") )";

/// Where the next subcommand's section starts.
pub const NEXT_SECTION: &'static str = "\n        rstube__subcmd__";

/// The completion line for a playlist-name argument.
pub const PLAYLIST_COMPLETION: &'static str = "if [[ ${cur} != -* ]] ; then\n                    COMPREPLY=( $(compgen -W \"$(_rstube_playlist_names)\" -- \"${cur}\") )\n                else\n                    COMPREPLY=( $(compgen -W \"${opts}\" -- \"${cur}\") )\n                fi";

/// The completion line for a video-id argument.
pub const VIDEO_COMPLETION: &'static str = "if [[ ${cur} != -* ]] ; then\n                    COMPREPLY=( $(compgen -W \"$(_rstube_video_ids)\" -- \"${cur}\") )\n                else\n                    COMPREPLY=( $(compgen -W \"${opts}\" -- \"${cur}\") )\n                fi";

/// In the section that starts at the first `target` of `s` (and runs to the
/// next subcommand's section, or to the end), the first completion line is
/// replaced by `replacement`. `s` is unchanged when it has no `target`, or
/// that section has no completion line.
pub open spec fn splice_section(s: Seq<char>, target: Seq<char>, replacement: Seq<char>) -> Seq<char> {
    match find(s, target) {
        None => s,
        Some(st) => {
            let after = st + target.len();
            let end = match find(s.subrange(after as int, s.len() as int), NEXT_SECTION@) {
                Some(l) => after + l,
                None => s.len(),
            };
            match find(s.subrange(st as int, end as int), OPTS_COMPLETION@) {
                None => s,
                Some(rel) => s.subrange(0, (st + rel) as int) + replacement + s.subrange(
                    (st + rel + OPTS_COMPLETION@.len()) as int,
                    s.len() as int,
                ),
            }
        },
    }
}

/// The completion script with playlist-name completion in the `show`,
/// `remove` and `fetch` playlist sections, then video-id completion in the
/// `remove` and `fetch` video sections, and the helper functions in front.
pub open spec fn injected_script(script: Seq<char>) -> Seq<char> {
    let s1 = splice_section(script, PLAYLIST_SHOW_CASE@, PLAYLIST_COMPLETION@);
    let s2 = splice_section(s1, PLAYLIST_REMOVE_CASE@, PLAYLIST_COMPLETION@);
    let s3 = splice_section(s2, PLAYLIST_FETCH_CASE@, PLAYLIST_COMPLETION@);
    let s4 = splice_section(s3, VIDEO_REMOVE_CASE@, VIDEO_COMPLETION@);
    let s5 = splice_section(s4, VIDEO_FETCH_CASE@, VIDEO_COMPLETION@);
    BASH_HELPER@ + s5
}

proof fn lemma_find_in_bounds(s: Seq<char>, p: Seq<char>)
    ensures
        find(s, p) matches Some(k) ==> k + p.len() <= s.len(),
{
    crate::text::lemma_find_from_bound(s, p, 0);
}

fn splice_section_exec(s: &Vec<char>, target: &str, replacement: &str) -> (r: Vec<char>)
    ensures
        r@ == splice_section(s@, target@, replacement@),
{
    let t = chars_of(target);
    let marker = chars_of(NEXT_SECTION);
    let needle = chars_of(OPTS_COMPLETION);
    proof {
        lemma_find_in_bounds(s@, t@);
    }
    let st = match find_from_exec(s, &t, 0) {
        None => {
            return subvec(s, 0, s.len());
        },
        Some(st) => st,
    };
    let n = s.len();
    let after = st + t.len();
    let tail = subvec(s, after, n);
    proof {
        lemma_find_in_bounds(tail@, marker@);
    }
    let end = match find_from_exec(&tail, &marker, 0) {
        Some(l) => after + l,
        None => n,
    };
    let section = subvec(s, st, end);
    proof {
        lemma_find_in_bounds(section@, needle@);
    }
    match find_from_exec(&section, &needle, 0) {
        None => {
            let r = subvec(s, 0, n);
            assert(r@ =~= s@);
            r
        },
        Some(rel) => {
            let head = subvec(s, 0, st + rel);
            let rep = chars_of(replacement);
            let rest = subvec(s, st + rel + needle.len(), n);
            let front = concat_chars(&head, &rep);
            concat_chars(&front, &rest)
        },
    }
}

/// Injects bash completion for configured playlist names and video ids into
/// a generated completion script (see `injected_script`).
pub fn inject_bash_playlist_completions(script: &str) -> (r: String)
    ensures
        r@ == injected_script(script@),
{
    let s0 = chars_of(script);
    let s1 = splice_section_exec(&s0, PLAYLIST_SHOW_CASE, PLAYLIST_COMPLETION);
    let s2 = splice_section_exec(&s1, PLAYLIST_REMOVE_CASE, PLAYLIST_COMPLETION);
    let s3 = splice_section_exec(&s2, PLAYLIST_FETCH_CASE, PLAYLIST_COMPLETION);
    let s4 = splice_section_exec(&s3, VIDEO_REMOVE_CASE, VIDEO_COMPLETION);
    let s5 = splice_section_exec(&s4, VIDEO_FETCH_CASE, VIDEO_COMPLETION);
    let helper = chars_of(BASH_HELPER);
    let all = concat_chars(&helper, &s5);
    string_of_all(&all)
}

// ---------------------------------------------------------------------------
// Laws
// ---------------------------------------------------------------------------

/// `b` with its first occurrence of `n` replaced by `v` (`str::replacen`
/// with a count of one).
pub open spec fn replace_first(b: Seq<char>, n: Seq<char>, v: Seq<char>) -> Seq<char> {
    match find(b, n) {
        Some(k) => b.subrange(0, k as int) + v + b.subrange((k + n.len()) as int, b.len() as int),
        None => b,
    }
}

/// None of the five subcommand labels occurs in `s`.
pub open spec fn holds_no_label(s: Seq<char>) -> bool {
    &&& !occurs_in(s, PLAYLIST_SHOW_CASE@)
    &&& !occurs_in(s, PLAYLIST_REMOVE_CASE@)
    &&& !occurs_in(s, PLAYLIST_FETCH_CASE@)
    &&& !occurs_in(s, VIDEO_REMOVE_CASE@)
    &&& !occurs_in(s, VIDEO_FETCH_CASE@)
}

/// Injection around the `videos remove` label: for a script made of `a`,
/// that label and `b`, where neither `a` nor `b` holds a subcommand label,
/// `b` holds no start of a next section and does hold a completion line,
/// the result is the helpers, then `a` and the label unchanged (even a
/// completion line in `a`), then `b` with its first completion line
/// replaced by video-id completion. Playlist-name completion is not used.
pub proof fn law_video_remove_section(a: Seq<char>, b: Seq<char>)
    requires
        holds_no_label(a),
        holds_no_label(b),
        !occurs_in(b, NEXT_SECTION@),
        occurs_in(b, OPTS_COMPLETION@),
    ensures
        injected_script(a + VIDEO_REMOVE_CASE@ + b) == BASH_HELPER@ + a + VIDEO_REMOVE_CASE@
            + replace_first(b, OPTS_COMPLETION@, VIDEO_COMPLETION@),
{
    let t = VIDEO_REMOVE_CASE@;
    let n = OPTS_COMPLETION@;
    let v = VIDEO_COMPLETION@;
    let vf = VIDEO_FETCH_CASE@;
    let s0 = a + t + b;
    fact_playlist_show_case_starts_nowhere_in_video_remove_case();
    fact_playlist_show_case_runs_into_nowhere_video_remove_case();
    fact_playlist_remove_case_starts_nowhere_in_video_remove_case();
    fact_playlist_remove_case_runs_into_nowhere_video_remove_case();
    fact_playlist_fetch_case_starts_nowhere_in_video_remove_case();
    fact_playlist_fetch_case_runs_into_nowhere_video_remove_case();
    fact_video_remove_case_runs_into_nowhere_video_remove_case();
    fact_opts_completion_starts_nowhere_in_video_remove_case();
    fact_video_fetch_case_starts_nowhere_in_video_completion();
    fact_video_fetch_case_runs_into_nowhere_video_completion();
    fact_video_fetch_case_starts_nowhere_in_video_remove_case();
    fact_video_fetch_case_runs_into_nowhere_video_remove_case();
    // The playlist labels are nowhere in the script: those sections stay.
    lemma_no_occurrence_across(a, t, b, PLAYLIST_SHOW_CASE@);
    lemma_no_occurrence_across(a, t, b, PLAYLIST_REMOVE_CASE@);
    lemma_no_occurrence_across(a, t, b, PLAYLIST_FETCH_CASE@);
    lemma_find_none(s0, PLAYLIST_SHOW_CASE@);
    lemma_find_none(s0, PLAYLIST_REMOVE_CASE@);
    lemma_find_none(s0, PLAYLIST_FETCH_CASE@);
    let s1 = splice_section(s0, PLAYLIST_SHOW_CASE@, PLAYLIST_COMPLETION@);
    let s2 = splice_section(s1, PLAYLIST_REMOVE_CASE@, PLAYLIST_COMPLETION@);
    let s3 = splice_section(s2, PLAYLIST_FETCH_CASE@, PLAYLIST_COMPLETION@);
    assert(s3 == s0);
    // The label is found right after `a`.
    let la = a.len() as int;
    assert(s0.subrange(la, la + t.len()) =~= t);
    assert forall|j: int| 0 <= j < la implies !#[trigger] occurs_at(s0, t, j) by {
        lemma_none_before(a, t, b, t, j);
    }
    lemma_find_first(s0, t, 0, la as nat);
    // Its section runs to the end of the script.
    let after = la + t.len();
    assert(s0.subrange(after, s0.len() as int) =~= b);
    lemma_find_none(b, NEXT_SECTION@);
    let section = s0.subrange(la, s0.len() as int);
    assert(section =~= t + b);
    // The first completion line of the section is the first one of `b`.
    let (k0, e0) = choose|k: int, e: int| 0 <= k <= e <= b.len() && #[trigger] b.subrange(k, e) == n;
    assert(b.subrange(k0, e0).len() == n.len());
    lemma_find_when_occurs(b, n, 0, k0 as nat);
    lemma_find_from_bound(b, n, 0);
    lemma_find_is_first(b, n, 0);
    let kb = find(b, n)->Some_0 as int;
    let lt = t.len() as int;
    let ln = n.len() as int;
    let tb = t + b;
    assert forall|j: int| 0 <= j < lt + kb implies !#[trigger] occurs_at(tb, n, j) by {
        if j < t.len() {
            assert(Seq::<char>::empty() + t + b =~= tb);
            lemma_none_inside(Seq::<char>::empty(), t, b, n, j);
        } else if occurs_at(tb, n, j) {
            assert(tb.subrange(j, j + n.len()) =~= b.subrange(j - t.len(), j - t.len() + n.len()));
            assert(occurs_at(b, n, j - t.len()));
        }
    }
    assert(tb.subrange(lt + kb, lt + kb + ln) =~= b.subrange(kb, kb + ln));
    lemma_find_first(tb, n, 0, (lt + kb) as nat);
    let b1 = b.subrange(0, kb);
    let b2 = b.subrange(kb + ln, b.len() as int);
    let s4 = splice_section(s3, t, v);
    assert(s4 =~= a + t + (b1 + v + b2));
    assert(replace_first(b, n, v) == b1 + v + b2);
    // The `videos fetch` label is nowhere in the result: that section stays.
    if occurs_in(b1, vf) {
        lemma_occurs_sub(b, 0, kb, vf);
    }
    if occurs_in(b2, vf) {
        lemma_occurs_sub(b, kb + ln, b.len() as int, vf);
    }
    lemma_no_occurrence_across(b1, v, b2, vf);
    lemma_no_occurrence_across(a, t, b1 + v + b2, vf);
    assert(a + t + (b1 + v + b2) =~= a + t + b1 + v + b2);
    lemma_find_none(s4, vf);
    let s5 = splice_section(s4, vf, v);
    assert(s5 == s4);
}

/// Injection around the `videos fetch` label: for a script made of `a`,
/// that label and `b`, where neither `a` nor `b` holds a subcommand label,
/// `b` holds no start of a next section and does hold a completion line,
/// the result is the helpers, then `a` and the label unchanged (even a
/// completion line in `a`), then `b` with its first completion line
/// replaced by video-id completion. Playlist-name completion is not used.
pub proof fn law_video_fetch_section(a: Seq<char>, b: Seq<char>)
    requires
        holds_no_label(a),
        holds_no_label(b),
        !occurs_in(b, NEXT_SECTION@),
        occurs_in(b, OPTS_COMPLETION@),
    ensures
        injected_script(a + VIDEO_FETCH_CASE@ + b) == BASH_HELPER@ + a + VIDEO_FETCH_CASE@
            + replace_first(b, OPTS_COMPLETION@, VIDEO_COMPLETION@),
{
    let t = VIDEO_FETCH_CASE@;
    let n = OPTS_COMPLETION@;
    let v = VIDEO_COMPLETION@;
    let s0 = a + t + b;
    fact_playlist_show_case_starts_nowhere_in_video_fetch_case();
    fact_playlist_show_case_runs_into_nowhere_video_fetch_case();
    fact_playlist_remove_case_starts_nowhere_in_video_fetch_case();
    fact_playlist_remove_case_runs_into_nowhere_video_fetch_case();
    fact_playlist_fetch_case_starts_nowhere_in_video_fetch_case();
    fact_playlist_fetch_case_runs_into_nowhere_video_fetch_case();
    fact_video_remove_case_starts_nowhere_in_video_fetch_case();
    fact_video_remove_case_runs_into_nowhere_video_fetch_case();
    fact_video_fetch_case_runs_into_nowhere_video_fetch_case();
    fact_opts_completion_starts_nowhere_in_video_fetch_case();
    // The other labels are nowhere in the script: those sections stay.
    lemma_no_occurrence_across(a, t, b, PLAYLIST_SHOW_CASE@);
    lemma_no_occurrence_across(a, t, b, PLAYLIST_REMOVE_CASE@);
    lemma_no_occurrence_across(a, t, b, PLAYLIST_FETCH_CASE@);
    lemma_no_occurrence_across(a, t, b, VIDEO_REMOVE_CASE@);
    lemma_find_none(s0, PLAYLIST_SHOW_CASE@);
    lemma_find_none(s0, PLAYLIST_REMOVE_CASE@);
    lemma_find_none(s0, PLAYLIST_FETCH_CASE@);
    lemma_find_none(s0, VIDEO_REMOVE_CASE@);
    let s1 = splice_section(s0, PLAYLIST_SHOW_CASE@, PLAYLIST_COMPLETION@);
    let s2 = splice_section(s1, PLAYLIST_REMOVE_CASE@, PLAYLIST_COMPLETION@);
    let s3 = splice_section(s2, PLAYLIST_FETCH_CASE@, PLAYLIST_COMPLETION@);
    let s4 = splice_section(s3, VIDEO_REMOVE_CASE@, VIDEO_COMPLETION@);
    assert(s4 == s0);
    // The label is found right after `a`.
    let la = a.len() as int;
    assert(s0.subrange(la, la + t.len()) =~= t);
    assert forall|j: int| 0 <= j < la implies !#[trigger] occurs_at(s0, t, j) by {
        lemma_none_before(a, t, b, t, j);
    }
    lemma_find_first(s0, t, 0, la as nat);
    // Its section runs to the end of the script.
    let after = la + t.len();
    assert(s0.subrange(after, s0.len() as int) =~= b);
    lemma_find_none(b, NEXT_SECTION@);
    let section = s0.subrange(la, s0.len() as int);
    assert(section =~= t + b);
    // The first completion line of the section is the first one of `b`.
    let (k0, e0) = choose|k: int, e: int| 0 <= k <= e <= b.len() && #[trigger] b.subrange(k, e) == n;
    assert(b.subrange(k0, e0).len() == n.len());
    lemma_find_when_occurs(b, n, 0, k0 as nat);
    lemma_find_from_bound(b, n, 0);
    lemma_find_is_first(b, n, 0);
    let kb = find(b, n)->Some_0 as int;
    let lt = t.len() as int;
    let ln = n.len() as int;
    let tb = t + b;
    assert forall|j: int| 0 <= j < lt + kb implies !#[trigger] occurs_at(tb, n, j) by {
        if j < t.len() {
            assert(Seq::<char>::empty() + t + b =~= tb);
            lemma_none_inside(Seq::<char>::empty(), t, b, n, j);
        } else if occurs_at(tb, n, j) {
            assert(tb.subrange(j, j + n.len()) =~= b.subrange(j - t.len(), j - t.len() + n.len()));
            assert(occurs_at(b, n, j - t.len()));
        }
    }
    assert(tb.subrange(lt + kb, lt + kb + ln) =~= b.subrange(kb, kb + ln));
    lemma_find_first(tb, n, 0, (lt + kb) as nat);
    let b1 = b.subrange(0, kb);
    let b2 = b.subrange(kb + ln, b.len() as int);
    let s5 = splice_section(s4, t, v);
    assert(s5 =~= a + t + (b1 + v + b2));
    assert(replace_first(b, n, v) == b1 + v + b2);
}

// ---------------------------------------------------------------------------
// Where the labels and the completion lines cannot overlap
// ---------------------------------------------------------------------------

proof fn fact_playlist_show_case_starts_nowhere_in_video_remove_case()
    ensures
        starts_nowhere_in(VIDEO_REMOVE_CASE@, PLAYLIST_SHOW_CASE@),
{
    reveal_strlit("rstube__subcmd__videos__subcmd__remove)");
    reveal_strlit("rstube__subcmd__playlists__subcmd__show)");
    assert forall|j: int| 0 <= j < VIDEO_REMOVE_CASE@.len() implies #[trigger] mismatch_at(VIDEO_REMOVE_CASE@, PLAYLIST_SHOW_CASE@, j) by {
        if j == 1 || j == 2 || j == 3 || j == 4 || j == 5 || j == 6 || j == 7 || j == 8
            || j == 9 || j == 10 || j == 11 || j == 12 || j == 13 || j == 14 || j == 15
            || j == 16 || j == 17 || j == 18 || j == 19 || j == 20 || j == 21 || j == 22
            || j == 23 || j == 24 || j == 25 || j == 26 || j == 27 || j == 28 || j == 29
            || j == 30 || j == 31 || j == 33 || j == 34 || j == 35 || j == 36 || j == 37
            || j == 38 {
            assert(PLAYLIST_SHOW_CASE@[0] != VIDEO_REMOVE_CASE@[j]);
        } else if j == 0 {
            assert(PLAYLIST_SHOW_CASE@[16] != VIDEO_REMOVE_CASE@[j + 16]);
        } else if j == 32 {
            assert(PLAYLIST_SHOW_CASE@[1] != VIDEO_REMOVE_CASE@[j + 1]);
        }
    }
}

proof fn fact_playlist_show_case_runs_into_nowhere_video_remove_case()
    ensures
        runs_into_nowhere(PLAYLIST_SHOW_CASE@, VIDEO_REMOVE_CASE@),
{
    reveal_strlit("rstube__subcmd__playlists__subcmd__show)");
    reveal_strlit("rstube__subcmd__videos__subcmd__remove)");
    assert forall|j: int| 1 <= j < PLAYLIST_SHOW_CASE@.len() implies #[trigger] overlap_mismatch(PLAYLIST_SHOW_CASE@, VIDEO_REMOVE_CASE@, j) by {
        if j == 1 {
            assert(PLAYLIST_SHOW_CASE@[1] != VIDEO_REMOVE_CASE@[1 - j]);
        } else if j == 2 {
            assert(PLAYLIST_SHOW_CASE@[2] != VIDEO_REMOVE_CASE@[2 - j]);
        } else if j == 3 {
            assert(PLAYLIST_SHOW_CASE@[3] != VIDEO_REMOVE_CASE@[3 - j]);
        } else if j == 4 {
            assert(PLAYLIST_SHOW_CASE@[4] != VIDEO_REMOVE_CASE@[4 - j]);
        } else if j == 5 {
            assert(PLAYLIST_SHOW_CASE@[5] != VIDEO_REMOVE_CASE@[5 - j]);
        } else if j == 6 {
            assert(PLAYLIST_SHOW_CASE@[6] != VIDEO_REMOVE_CASE@[6 - j]);
        } else if j == 7 {
            assert(PLAYLIST_SHOW_CASE@[7] != VIDEO_REMOVE_CASE@[7 - j]);
        } else if j == 8 {
            assert(PLAYLIST_SHOW_CASE@[8] != VIDEO_REMOVE_CASE@[8 - j]);
        } else if j == 9 {
            assert(PLAYLIST_SHOW_CASE@[9] != VIDEO_REMOVE_CASE@[9 - j]);
        } else if j == 10 {
            assert(PLAYLIST_SHOW_CASE@[10] != VIDEO_REMOVE_CASE@[10 - j]);
        } else if j == 11 {
            assert(PLAYLIST_SHOW_CASE@[11] != VIDEO_REMOVE_CASE@[11 - j]);
        } else if j == 12 {
            assert(PLAYLIST_SHOW_CASE@[12] != VIDEO_REMOVE_CASE@[12 - j]);
        } else if j == 13 {
            assert(PLAYLIST_SHOW_CASE@[13] != VIDEO_REMOVE_CASE@[13 - j]);
        } else if j == 14 {
            assert(PLAYLIST_SHOW_CASE@[14] != VIDEO_REMOVE_CASE@[14 - j]);
        } else if j == 15 {
            assert(PLAYLIST_SHOW_CASE@[15] != VIDEO_REMOVE_CASE@[15 - j]);
        } else if j == 16 {
            assert(PLAYLIST_SHOW_CASE@[16] != VIDEO_REMOVE_CASE@[16 - j]);
        } else if j == 17 {
            assert(PLAYLIST_SHOW_CASE@[17] != VIDEO_REMOVE_CASE@[17 - j]);
        } else if j == 18 {
            assert(PLAYLIST_SHOW_CASE@[18] != VIDEO_REMOVE_CASE@[18 - j]);
        } else if j == 19 {
            assert(PLAYLIST_SHOW_CASE@[19] != VIDEO_REMOVE_CASE@[19 - j]);
        } else if j == 20 {
            assert(PLAYLIST_SHOW_CASE@[20] != VIDEO_REMOVE_CASE@[20 - j]);
        } else if j == 21 {
            assert(PLAYLIST_SHOW_CASE@[21] != VIDEO_REMOVE_CASE@[21 - j]);
        } else if j == 22 {
            assert(PLAYLIST_SHOW_CASE@[22] != VIDEO_REMOVE_CASE@[22 - j]);
        } else if j == 23 {
            assert(PLAYLIST_SHOW_CASE@[23] != VIDEO_REMOVE_CASE@[23 - j]);
        } else if j == 24 {
            assert(PLAYLIST_SHOW_CASE@[24] != VIDEO_REMOVE_CASE@[24 - j]);
        } else if j == 25 {
            assert(PLAYLIST_SHOW_CASE@[25] != VIDEO_REMOVE_CASE@[25 - j]);
        } else if j == 26 {
            assert(PLAYLIST_SHOW_CASE@[26] != VIDEO_REMOVE_CASE@[26 - j]);
        } else if j == 27 {
            assert(PLAYLIST_SHOW_CASE@[27] != VIDEO_REMOVE_CASE@[27 - j]);
        } else if j == 28 {
            assert(PLAYLIST_SHOW_CASE@[28] != VIDEO_REMOVE_CASE@[28 - j]);
        } else if j == 29 {
            assert(PLAYLIST_SHOW_CASE@[29] != VIDEO_REMOVE_CASE@[29 - j]);
        } else if j == 30 {
            assert(PLAYLIST_SHOW_CASE@[30] != VIDEO_REMOVE_CASE@[30 - j]);
        } else if j == 31 {
            assert(PLAYLIST_SHOW_CASE@[31] != VIDEO_REMOVE_CASE@[31 - j]);
        } else if j == 32 {
            assert(PLAYLIST_SHOW_CASE@[32] != VIDEO_REMOVE_CASE@[32 - j]);
        } else if j == 33 {
            assert(PLAYLIST_SHOW_CASE@[33] != VIDEO_REMOVE_CASE@[33 - j]);
        } else if j == 34 {
            assert(PLAYLIST_SHOW_CASE@[34] != VIDEO_REMOVE_CASE@[34 - j]);
        } else if j == 35 {
            assert(PLAYLIST_SHOW_CASE@[35] != VIDEO_REMOVE_CASE@[35 - j]);
        } else if j == 36 {
            assert(PLAYLIST_SHOW_CASE@[36] != VIDEO_REMOVE_CASE@[36 - j]);
        } else if j == 37 {
            assert(PLAYLIST_SHOW_CASE@[37] != VIDEO_REMOVE_CASE@[37 - j]);
        } else if j == 38 {
            assert(PLAYLIST_SHOW_CASE@[38] != VIDEO_REMOVE_CASE@[38 - j]);
        } else if j == 39 {
            assert(PLAYLIST_SHOW_CASE@[39] != VIDEO_REMOVE_CASE@[39 - j]);
        }
    }
}

proof fn fact_playlist_remove_case_starts_nowhere_in_video_remove_case()
    ensures
        starts_nowhere_in(VIDEO_REMOVE_CASE@, PLAYLIST_REMOVE_CASE@),
{
    reveal_strlit("rstube__subcmd__videos__subcmd__remove)");
    reveal_strlit("rstube__subcmd__playlists__subcmd__remove)");
    assert forall|j: int| 0 <= j < VIDEO_REMOVE_CASE@.len() implies #[trigger] mismatch_at(VIDEO_REMOVE_CASE@, PLAYLIST_REMOVE_CASE@, j) by {
        if j == 1 || j == 2 || j == 3 || j == 4 || j == 5 || j == 6 || j == 7 || j == 8
            || j == 9 || j == 10 || j == 11 || j == 12 || j == 13 || j == 14 || j == 15
            || j == 16 || j == 17 || j == 18 || j == 19 || j == 20 || j == 21 || j == 22
            || j == 23 || j == 24 || j == 25 || j == 26 || j == 27 || j == 28 || j == 29
            || j == 30 || j == 31 || j == 33 || j == 34 || j == 35 || j == 36 || j == 37
            || j == 38 {
            assert(PLAYLIST_REMOVE_CASE@[0] != VIDEO_REMOVE_CASE@[j]);
        } else if j == 0 {
            assert(PLAYLIST_REMOVE_CASE@[16] != VIDEO_REMOVE_CASE@[j + 16]);
        } else if j == 32 {
            assert(PLAYLIST_REMOVE_CASE@[1] != VIDEO_REMOVE_CASE@[j + 1]);
        }
    }
}

proof fn fact_playlist_remove_case_runs_into_nowhere_video_remove_case()
    ensures
        runs_into_nowhere(PLAYLIST_REMOVE_CASE@, VIDEO_REMOVE_CASE@),
{
    reveal_strlit("rstube__subcmd__playlists__subcmd__remove)");
    reveal_strlit("rstube__subcmd__videos__subcmd__remove)");
    assert forall|j: int| 1 <= j < PLAYLIST_REMOVE_CASE@.len() implies #[trigger] overlap_mismatch(PLAYLIST_REMOVE_CASE@, VIDEO_REMOVE_CASE@, j) by {
        if j == 35 || j == 36 {
            assert(PLAYLIST_REMOVE_CASE@[36] != VIDEO_REMOVE_CASE@[36 - j]);
        } else if j == 1 {
            assert(PLAYLIST_REMOVE_CASE@[1] != VIDEO_REMOVE_CASE@[1 - j]);
        } else if j == 2 {
            assert(PLAYLIST_REMOVE_CASE@[2] != VIDEO_REMOVE_CASE@[2 - j]);
        } else if j == 3 {
            assert(PLAYLIST_REMOVE_CASE@[3] != VIDEO_REMOVE_CASE@[3 - j]);
        } else if j == 4 {
            assert(PLAYLIST_REMOVE_CASE@[4] != VIDEO_REMOVE_CASE@[4 - j]);
        } else if j == 5 {
            assert(PLAYLIST_REMOVE_CASE@[5] != VIDEO_REMOVE_CASE@[5 - j]);
        } else if j == 6 {
            assert(PLAYLIST_REMOVE_CASE@[6] != VIDEO_REMOVE_CASE@[6 - j]);
        } else if j == 7 {
            assert(PLAYLIST_REMOVE_CASE@[7] != VIDEO_REMOVE_CASE@[7 - j]);
        } else if j == 8 {
            assert(PLAYLIST_REMOVE_CASE@[8] != VIDEO_REMOVE_CASE@[8 - j]);
        } else if j == 9 {
            assert(PLAYLIST_REMOVE_CASE@[9] != VIDEO_REMOVE_CASE@[9 - j]);
        } else if j == 10 {
            assert(PLAYLIST_REMOVE_CASE@[10] != VIDEO_REMOVE_CASE@[10 - j]);
        } else if j == 11 {
            assert(PLAYLIST_REMOVE_CASE@[11] != VIDEO_REMOVE_CASE@[11 - j]);
        } else if j == 12 {
            assert(PLAYLIST_REMOVE_CASE@[12] != VIDEO_REMOVE_CASE@[12 - j]);
        } else if j == 13 {
            assert(PLAYLIST_REMOVE_CASE@[13] != VIDEO_REMOVE_CASE@[13 - j]);
        } else if j == 14 {
            assert(PLAYLIST_REMOVE_CASE@[14] != VIDEO_REMOVE_CASE@[14 - j]);
        } else if j == 15 {
            assert(PLAYLIST_REMOVE_CASE@[15] != VIDEO_REMOVE_CASE@[15 - j]);
        } else if j == 16 {
            assert(PLAYLIST_REMOVE_CASE@[16] != VIDEO_REMOVE_CASE@[16 - j]);
        } else if j == 17 {
            assert(PLAYLIST_REMOVE_CASE@[17] != VIDEO_REMOVE_CASE@[17 - j]);
        } else if j == 18 {
            assert(PLAYLIST_REMOVE_CASE@[18] != VIDEO_REMOVE_CASE@[18 - j]);
        } else if j == 19 {
            assert(PLAYLIST_REMOVE_CASE@[19] != VIDEO_REMOVE_CASE@[19 - j]);
        } else if j == 20 {
            assert(PLAYLIST_REMOVE_CASE@[20] != VIDEO_REMOVE_CASE@[20 - j]);
        } else if j == 21 {
            assert(PLAYLIST_REMOVE_CASE@[21] != VIDEO_REMOVE_CASE@[21 - j]);
        } else if j == 22 {
            assert(PLAYLIST_REMOVE_CASE@[22] != VIDEO_REMOVE_CASE@[22 - j]);
        } else if j == 23 {
            assert(PLAYLIST_REMOVE_CASE@[23] != VIDEO_REMOVE_CASE@[23 - j]);
        } else if j == 24 {
            assert(PLAYLIST_REMOVE_CASE@[24] != VIDEO_REMOVE_CASE@[24 - j]);
        } else if j == 25 {
            assert(PLAYLIST_REMOVE_CASE@[25] != VIDEO_REMOVE_CASE@[25 - j]);
        } else if j == 26 {
            assert(PLAYLIST_REMOVE_CASE@[26] != VIDEO_REMOVE_CASE@[26 - j]);
        } else if j == 27 {
            assert(PLAYLIST_REMOVE_CASE@[27] != VIDEO_REMOVE_CASE@[27 - j]);
        } else if j == 28 {
            assert(PLAYLIST_REMOVE_CASE@[28] != VIDEO_REMOVE_CASE@[28 - j]);
        } else if j == 29 {
            assert(PLAYLIST_REMOVE_CASE@[29] != VIDEO_REMOVE_CASE@[29 - j]);
        } else if j == 30 {
            assert(PLAYLIST_REMOVE_CASE@[30] != VIDEO_REMOVE_CASE@[30 - j]);
        } else if j == 31 {
            assert(PLAYLIST_REMOVE_CASE@[31] != VIDEO_REMOVE_CASE@[31 - j]);
        } else if j == 32 {
            assert(PLAYLIST_REMOVE_CASE@[32] != VIDEO_REMOVE_CASE@[32 - j]);
        } else if j == 33 {
            assert(PLAYLIST_REMOVE_CASE@[33] != VIDEO_REMOVE_CASE@[33 - j]);
        } else if j == 34 {
            assert(PLAYLIST_REMOVE_CASE@[34] != VIDEO_REMOVE_CASE@[34 - j]);
        } else if j == 37 {
            assert(PLAYLIST_REMOVE_CASE@[37] != VIDEO_REMOVE_CASE@[37 - j]);
        } else if j == 38 {
            assert(PLAYLIST_REMOVE_CASE@[38] != VIDEO_REMOVE_CASE@[38 - j]);
        } else if j == 39 {
            assert(PLAYLIST_REMOVE_CASE@[39] != VIDEO_REMOVE_CASE@[39 - j]);
        } else if j == 40 {
            assert(PLAYLIST_REMOVE_CASE@[40] != VIDEO_REMOVE_CASE@[40 - j]);
        } else if j == 41 {
            assert(PLAYLIST_REMOVE_CASE@[41] != VIDEO_REMOVE_CASE@[41 - j]);
        }
    }
}

proof fn fact_playlist_fetch_case_starts_nowhere_in_video_remove_case()
    ensures
        starts_nowhere_in(VIDEO_REMOVE_CASE@, PLAYLIST_FETCH_CASE@),
{
    reveal_strlit("rstube__subcmd__videos__subcmd__remove)");
    reveal_strlit("rstube__subcmd__playlists__subcmd__fetch)");
    assert forall|j: int| 0 <= j < VIDEO_REMOVE_CASE@.len() implies #[trigger] mismatch_at(VIDEO_REMOVE_CASE@, PLAYLIST_FETCH_CASE@, j) by {
        if j == 1 || j == 2 || j == 3 || j == 4 || j == 5 || j == 6 || j == 7 || j == 8
            || j == 9 || j == 10 || j == 11 || j == 12 || j == 13 || j == 14 || j == 15
            || j == 16 || j == 17 || j == 18 || j == 19 || j == 20 || j == 21 || j == 22
            || j == 23 || j == 24 || j == 25 || j == 26 || j == 27 || j == 28 || j == 29
            || j == 30 || j == 31 || j == 33 || j == 34 || j == 35 || j == 36 || j == 37
            || j == 38 {
            assert(PLAYLIST_FETCH_CASE@[0] != VIDEO_REMOVE_CASE@[j]);
        } else if j == 0 {
            assert(PLAYLIST_FETCH_CASE@[16] != VIDEO_REMOVE_CASE@[j + 16]);
        } else if j == 32 {
            assert(PLAYLIST_FETCH_CASE@[1] != VIDEO_REMOVE_CASE@[j + 1]);
        }
    }
}

proof fn fact_playlist_fetch_case_runs_into_nowhere_video_remove_case()
    ensures
        runs_into_nowhere(PLAYLIST_FETCH_CASE@, VIDEO_REMOVE_CASE@),
{
    reveal_strlit("rstube__subcmd__playlists__subcmd__fetch)");
    reveal_strlit("rstube__subcmd__videos__subcmd__remove)");
    assert forall|j: int| 1 <= j < PLAYLIST_FETCH_CASE@.len() implies #[trigger] overlap_mismatch(PLAYLIST_FETCH_CASE@, VIDEO_REMOVE_CASE@, j) by {
        if j == 1 {
            assert(PLAYLIST_FETCH_CASE@[1] != VIDEO_REMOVE_CASE@[1 - j]);
        } else if j == 2 {
            assert(PLAYLIST_FETCH_CASE@[2] != VIDEO_REMOVE_CASE@[2 - j]);
        } else if j == 3 {
            assert(PLAYLIST_FETCH_CASE@[3] != VIDEO_REMOVE_CASE@[3 - j]);
        } else if j == 4 {
            assert(PLAYLIST_FETCH_CASE@[4] != VIDEO_REMOVE_CASE@[4 - j]);
        } else if j == 5 {
            assert(PLAYLIST_FETCH_CASE@[5] != VIDEO_REMOVE_CASE@[5 - j]);
        } else if j == 6 {
            assert(PLAYLIST_FETCH_CASE@[6] != VIDEO_REMOVE_CASE@[6 - j]);
        } else if j == 7 {
            assert(PLAYLIST_FETCH_CASE@[7] != VIDEO_REMOVE_CASE@[7 - j]);
        } else if j == 8 {
            assert(PLAYLIST_FETCH_CASE@[8] != VIDEO_REMOVE_CASE@[8 - j]);
        } else if j == 9 {
            assert(PLAYLIST_FETCH_CASE@[9] != VIDEO_REMOVE_CASE@[9 - j]);
        } else if j == 10 {
            assert(PLAYLIST_FETCH_CASE@[10] != VIDEO_REMOVE_CASE@[10 - j]);
        } else if j == 11 {
            assert(PLAYLIST_FETCH_CASE@[11] != VIDEO_REMOVE_CASE@[11 - j]);
        } else if j == 12 {
            assert(PLAYLIST_FETCH_CASE@[12] != VIDEO_REMOVE_CASE@[12 - j]);
        } else if j == 13 {
            assert(PLAYLIST_FETCH_CASE@[13] != VIDEO_REMOVE_CASE@[13 - j]);
        } else if j == 14 {
            assert(PLAYLIST_FETCH_CASE@[14] != VIDEO_REMOVE_CASE@[14 - j]);
        } else if j == 15 {
            assert(PLAYLIST_FETCH_CASE@[15] != VIDEO_REMOVE_CASE@[15 - j]);
        } else if j == 16 {
            assert(PLAYLIST_FETCH_CASE@[16] != VIDEO_REMOVE_CASE@[16 - j]);
        } else if j == 17 {
            assert(PLAYLIST_FETCH_CASE@[17] != VIDEO_REMOVE_CASE@[17 - j]);
        } else if j == 18 {
            assert(PLAYLIST_FETCH_CASE@[18] != VIDEO_REMOVE_CASE@[18 - j]);
        } else if j == 19 {
            assert(PLAYLIST_FETCH_CASE@[19] != VIDEO_REMOVE_CASE@[19 - j]);
        } else if j == 20 {
            assert(PLAYLIST_FETCH_CASE@[20] != VIDEO_REMOVE_CASE@[20 - j]);
        } else if j == 21 {
            assert(PLAYLIST_FETCH_CASE@[21] != VIDEO_REMOVE_CASE@[21 - j]);
        } else if j == 22 {
            assert(PLAYLIST_FETCH_CASE@[22] != VIDEO_REMOVE_CASE@[22 - j]);
        } else if j == 23 {
            assert(PLAYLIST_FETCH_CASE@[23] != VIDEO_REMOVE_CASE@[23 - j]);
        } else if j == 24 {
            assert(PLAYLIST_FETCH_CASE@[24] != VIDEO_REMOVE_CASE@[24 - j]);
        } else if j == 25 {
            assert(PLAYLIST_FETCH_CASE@[25] != VIDEO_REMOVE_CASE@[25 - j]);
        } else if j == 26 {
            assert(PLAYLIST_FETCH_CASE@[26] != VIDEO_REMOVE_CASE@[26 - j]);
        } else if j == 27 {
            assert(PLAYLIST_FETCH_CASE@[27] != VIDEO_REMOVE_CASE@[27 - j]);
        } else if j == 28 {
            assert(PLAYLIST_FETCH_CASE@[28] != VIDEO_REMOVE_CASE@[28 - j]);
        } else if j == 29 {
            assert(PLAYLIST_FETCH_CASE@[29] != VIDEO_REMOVE_CASE@[29 - j]);
        } else if j == 30 {
            assert(PLAYLIST_FETCH_CASE@[30] != VIDEO_REMOVE_CASE@[30 - j]);
        } else if j == 31 {
            assert(PLAYLIST_FETCH_CASE@[31] != VIDEO_REMOVE_CASE@[31 - j]);
        } else if j == 32 {
            assert(PLAYLIST_FETCH_CASE@[32] != VIDEO_REMOVE_CASE@[32 - j]);
        } else if j == 33 {
            assert(PLAYLIST_FETCH_CASE@[33] != VIDEO_REMOVE_CASE@[33 - j]);
        } else if j == 34 {
            assert(PLAYLIST_FETCH_CASE@[34] != VIDEO_REMOVE_CASE@[34 - j]);
        } else if j == 35 {
            assert(PLAYLIST_FETCH_CASE@[35] != VIDEO_REMOVE_CASE@[35 - j]);
        } else if j == 36 {
            assert(PLAYLIST_FETCH_CASE@[36] != VIDEO_REMOVE_CASE@[36 - j]);
        } else if j == 37 {
            assert(PLAYLIST_FETCH_CASE@[37] != VIDEO_REMOVE_CASE@[37 - j]);
        } else if j == 38 {
            assert(PLAYLIST_FETCH_CASE@[38] != VIDEO_REMOVE_CASE@[38 - j]);
        } else if j == 39 {
            assert(PLAYLIST_FETCH_CASE@[39] != VIDEO_REMOVE_CASE@[39 - j]);
        } else if j == 40 {
            assert(PLAYLIST_FETCH_CASE@[40] != VIDEO_REMOVE_CASE@[40 - j]);
        }
    }
}

proof fn fact_video_remove_case_runs_into_nowhere_video_remove_case()
    ensures
        runs_into_nowhere(VIDEO_REMOVE_CASE@, VIDEO_REMOVE_CASE@),
{
    reveal_strlit("rstube__subcmd__videos__subcmd__remove)");
    assert forall|j: int| 1 <= j < VIDEO_REMOVE_CASE@.len() implies #[trigger] overlap_mismatch(VIDEO_REMOVE_CASE@, VIDEO_REMOVE_CASE@, j) by {
        if j == 32 || j == 33 {
            assert(VIDEO_REMOVE_CASE@[33] != VIDEO_REMOVE_CASE@[33 - j]);
        } else if j == 1 {
            assert(VIDEO_REMOVE_CASE@[1] != VIDEO_REMOVE_CASE@[1 - j]);
        } else if j == 2 {
            assert(VIDEO_REMOVE_CASE@[2] != VIDEO_REMOVE_CASE@[2 - j]);
        } else if j == 3 {
            assert(VIDEO_REMOVE_CASE@[3] != VIDEO_REMOVE_CASE@[3 - j]);
        } else if j == 4 {
            assert(VIDEO_REMOVE_CASE@[4] != VIDEO_REMOVE_CASE@[4 - j]);
        } else if j == 5 {
            assert(VIDEO_REMOVE_CASE@[5] != VIDEO_REMOVE_CASE@[5 - j]);
        } else if j == 6 {
            assert(VIDEO_REMOVE_CASE@[6] != VIDEO_REMOVE_CASE@[6 - j]);
        } else if j == 7 {
            assert(VIDEO_REMOVE_CASE@[7] != VIDEO_REMOVE_CASE@[7 - j]);
        } else if j == 8 {
            assert(VIDEO_REMOVE_CASE@[8] != VIDEO_REMOVE_CASE@[8 - j]);
        } else if j == 9 {
            assert(VIDEO_REMOVE_CASE@[9] != VIDEO_REMOVE_CASE@[9 - j]);
        } else if j == 10 {
            assert(VIDEO_REMOVE_CASE@[10] != VIDEO_REMOVE_CASE@[10 - j]);
        } else if j == 11 {
            assert(VIDEO_REMOVE_CASE@[11] != VIDEO_REMOVE_CASE@[11 - j]);
        } else if j == 12 {
            assert(VIDEO_REMOVE_CASE@[12] != VIDEO_REMOVE_CASE@[12 - j]);
        } else if j == 13 {
            assert(VIDEO_REMOVE_CASE@[13] != VIDEO_REMOVE_CASE@[13 - j]);
        } else if j == 14 {
            assert(VIDEO_REMOVE_CASE@[14] != VIDEO_REMOVE_CASE@[14 - j]);
        } else if j == 15 {
            assert(VIDEO_REMOVE_CASE@[15] != VIDEO_REMOVE_CASE@[15 - j]);
        } else if j == 16 {
            assert(VIDEO_REMOVE_CASE@[16] != VIDEO_REMOVE_CASE@[16 - j]);
        } else if j == 17 {
            assert(VIDEO_REMOVE_CASE@[17] != VIDEO_REMOVE_CASE@[17 - j]);
        } else if j == 18 {
            assert(VIDEO_REMOVE_CASE@[18] != VIDEO_REMOVE_CASE@[18 - j]);
        } else if j == 19 {
            assert(VIDEO_REMOVE_CASE@[19] != VIDEO_REMOVE_CASE@[19 - j]);
        } else if j == 20 {
            assert(VIDEO_REMOVE_CASE@[20] != VIDEO_REMOVE_CASE@[20 - j]);
        } else if j == 21 {
            assert(VIDEO_REMOVE_CASE@[21] != VIDEO_REMOVE_CASE@[21 - j]);
        } else if j == 22 {
            assert(VIDEO_REMOVE_CASE@[22] != VIDEO_REMOVE_CASE@[22 - j]);
        } else if j == 23 {
            assert(VIDEO_REMOVE_CASE@[23] != VIDEO_REMOVE_CASE@[23 - j]);
        } else if j == 24 {
            assert(VIDEO_REMOVE_CASE@[24] != VIDEO_REMOVE_CASE@[24 - j]);
        } else if j == 25 {
            assert(VIDEO_REMOVE_CASE@[25] != VIDEO_REMOVE_CASE@[25 - j]);
        } else if j == 26 {
            assert(VIDEO_REMOVE_CASE@[26] != VIDEO_REMOVE_CASE@[26 - j]);
        } else if j == 27 {
            assert(VIDEO_REMOVE_CASE@[27] != VIDEO_REMOVE_CASE@[27 - j]);
        } else if j == 28 {
            assert(VIDEO_REMOVE_CASE@[28] != VIDEO_REMOVE_CASE@[28 - j]);
        } else if j == 29 {
            assert(VIDEO_REMOVE_CASE@[29] != VIDEO_REMOVE_CASE@[29 - j]);
        } else if j == 30 {
            assert(VIDEO_REMOVE_CASE@[30] != VIDEO_REMOVE_CASE@[30 - j]);
        } else if j == 31 {
            assert(VIDEO_REMOVE_CASE@[31] != VIDEO_REMOVE_CASE@[31 - j]);
        } else if j == 34 {
            assert(VIDEO_REMOVE_CASE@[34] != VIDEO_REMOVE_CASE@[34 - j]);
        } else if j == 35 {
            assert(VIDEO_REMOVE_CASE@[35] != VIDEO_REMOVE_CASE@[35 - j]);
        } else if j == 36 {
            assert(VIDEO_REMOVE_CASE@[36] != VIDEO_REMOVE_CASE@[36 - j]);
        } else if j == 37 {
            assert(VIDEO_REMOVE_CASE@[37] != VIDEO_REMOVE_CASE@[37 - j]);
        } else if j == 38 {
            assert(VIDEO_REMOVE_CASE@[38] != VIDEO_REMOVE_CASE@[38 - j]);
        }
    }
}

proof fn fact_opts_completion_starts_nowhere_in_video_remove_case()
    ensures
        starts_nowhere_in(VIDEO_REMOVE_CASE@, OPTS_COMPLETION@),
{
    reveal_strlit("rstube__subcmd__videos__subcmd__remove)");
    reveal_strlit("COMPREPLY=( $(compgen -W \"${opts}\" -- \"${cur}\") )");
    assert forall|j: int| 0 <= j < VIDEO_REMOVE_CASE@.len() implies #[trigger] mismatch_at(VIDEO_REMOVE_CASE@, OPTS_COMPLETION@, j) by {
        if j == 0 || j == 1 || j == 2 || j == 3 || j == 4 || j == 5 || j == 6 || j == 7
            || j == 8 || j == 9 || j == 10 || j == 11 || j == 12 || j == 13 || j == 14
            || j == 15 || j == 16 || j == 17 || j == 18 || j == 19 || j == 20 || j == 21
            || j == 22 || j == 23 || j == 24 || j == 25 || j == 26 || j == 27 || j == 28
            || j == 29 || j == 30 || j == 31 || j == 32 || j == 33 || j == 34 || j == 35
            || j == 36 || j == 37 || j == 38 {
            assert(OPTS_COMPLETION@[0] != VIDEO_REMOVE_CASE@[j]);
        }
    }
}

proof fn fact_video_fetch_case_starts_nowhere_in_video_completion()
    ensures
        starts_nowhere_in(VIDEO_COMPLETION@, VIDEO_FETCH_CASE@),
{
    reveal_strlit("if [[ ${cur} != -* ]] ; then\n                    COMPREPLY=( $(compgen -W \"$(_rstube_video_ids)\" -- \"${cur}\") )\n                else\n                    COMPREPLY=( $(compgen -W \"${opts}\" -- \"${cur}\") )\n                fi");
    reveal_strlit("rstube__subcmd__videos__subcmd__fetch)");
    assert forall|j: int| 0 <= j < VIDEO_COMPLETION@.len() implies #[trigger] mismatch_at(VIDEO_COMPLETION@, VIDEO_FETCH_CASE@, j) by {
        if j == 0 || j == 1 || j == 2 || j == 3 || j == 4 || j == 5 || j == 6 || j == 7
            || j == 8 || j == 9 || j == 11 || j == 12 || j == 13 || j == 14 || j == 15
            || j == 16 || j == 17 || j == 18 || j == 19 || j == 20 || j == 21 || j == 22
            || j == 23 || j == 24 || j == 25 || j == 26 || j == 27 || j == 28 || j == 29
            || j == 30 || j == 31 || j == 32 || j == 33 || j == 34 || j == 35 || j == 36
            || j == 37 || j == 38 || j == 39 || j == 40 || j == 41 || j == 42 || j == 43
            || j == 44 || j == 45 || j == 46 || j == 47 || j == 48 || j == 49 || j == 50
            || j == 51 || j == 52 || j == 53 || j == 54 || j == 55 || j == 56 || j == 57
            || j == 58 || j == 59 || j == 60 || j == 61 || j == 62 || j == 63 || j == 64
            || j == 65 || j == 66 || j == 67 || j == 68 || j == 69 || j == 70 || j == 71
            || j == 72 || j == 73 || j == 74 || j == 75 || j == 76 || j == 77 || j == 79
            || j == 80 || j == 81 || j == 82 || j == 83 || j == 84 || j == 85 || j == 86
            || j == 87 || j == 88 || j == 89 || j == 90 || j == 91 || j == 92 || j == 93
            || j == 94 || j == 95 || j == 96 || j == 97 || j == 98 || j == 99 || j == 100
            || j == 101 || j == 102 || j == 103 || j == 104 || j == 106 || j == 107 || j == 108
            || j == 109 || j == 110 || j == 111 || j == 112 || j == 113 || j == 114 || j == 115
            || j == 116 || j == 117 || j == 118 || j == 119 || j == 120 || j == 121 || j == 122
            || j == 123 || j == 124 || j == 125 || j == 126 || j == 127 || j == 128 || j == 129
            || j == 130 || j == 131 || j == 132 || j == 133 || j == 134 || j == 135 || j == 136
            || j == 137 || j == 138 || j == 139 || j == 140 || j == 141 || j == 142 || j == 143
            || j == 144 || j == 145 || j == 146 || j == 147 || j == 148 || j == 149 || j == 150
            || j == 151 || j == 152 || j == 153 || j == 154 || j == 155 || j == 156 || j == 157
            || j == 158 || j == 159 || j == 160 || j == 161 || j == 162 || j == 163 || j == 164
            || j == 165 || j == 166 || j == 167 || j == 168 || j == 169 || j == 170 || j == 171
            || j == 172 || j == 173 || j == 174 || j == 175 || j == 176 || j == 177 || j == 178
            || j == 179 || j == 180 || j == 181 || j == 182 || j == 183 || j == 184 || j == 185
            || j == 186 || j == 187 || j == 188 || j == 189 || j == 190 || j == 191 || j == 192
            || j == 193 || j == 194 || j == 195 || j == 197 || j == 198 || j == 199 || j == 200
            || j == 201 || j == 202 || j == 203 || j == 204 || j == 205 || j == 206 || j == 207
            || j == 208 || j == 209 || j == 210 || j == 211 || j == 212 || j == 213 || j == 214
            || j == 215 || j == 216 || j == 217 || j == 218 || j == 219 || j == 220 {
            assert(VIDEO_FETCH_CASE@[0] != VIDEO_COMPLETION@[j]);
        } else if j == 10 || j == 105 || j == 196 {
            assert(VIDEO_FETCH_CASE@[1] != VIDEO_COMPLETION@[j + 1]);
        } else if j == 78 {
            assert(VIDEO_FETCH_CASE@[7] != VIDEO_COMPLETION@[j + 7]);
        }
    }
}

proof fn fact_video_fetch_case_runs_into_nowhere_video_completion()
    ensures
        runs_into_nowhere(VIDEO_FETCH_CASE@, VIDEO_COMPLETION@),
{
    reveal_strlit("rstube__subcmd__videos__subcmd__fetch)");
    reveal_strlit("if [[ ${cur} != -* ]] ; then\n                    COMPREPLY=( $(compgen -W \"$(_rstube_video_ids)\" -- \"${cur}\") )\n                else\n                    COMPREPLY=( $(compgen -W \"${opts}\" -- \"${cur}\") )\n                fi");
    assert forall|j: int| 1 <= j < VIDEO_FETCH_CASE@.len() implies #[trigger] overlap_mismatch(VIDEO_FETCH_CASE@, VIDEO_COMPLETION@, j) by {
        if j == 17 || j == 18 {
            assert(VIDEO_FETCH_CASE@[18] != VIDEO_COMPLETION@[18 - j]);
        } else if j == 1 {
            assert(VIDEO_FETCH_CASE@[1] != VIDEO_COMPLETION@[1 - j]);
        } else if j == 2 {
            assert(VIDEO_FETCH_CASE@[2] != VIDEO_COMPLETION@[2 - j]);
        } else if j == 3 {
            assert(VIDEO_FETCH_CASE@[3] != VIDEO_COMPLETION@[3 - j]);
        } else if j == 4 {
            assert(VIDEO_FETCH_CASE@[4] != VIDEO_COMPLETION@[4 - j]);
        } else if j == 5 {
            assert(VIDEO_FETCH_CASE@[5] != VIDEO_COMPLETION@[5 - j]);
        } else if j == 6 {
            assert(VIDEO_FETCH_CASE@[6] != VIDEO_COMPLETION@[6 - j]);
        } else if j == 7 {
            assert(VIDEO_FETCH_CASE@[7] != VIDEO_COMPLETION@[7 - j]);
        } else if j == 8 {
            assert(VIDEO_FETCH_CASE@[8] != VIDEO_COMPLETION@[8 - j]);
        } else if j == 9 {
            assert(VIDEO_FETCH_CASE@[9] != VIDEO_COMPLETION@[9 - j]);
        } else if j == 10 {
            assert(VIDEO_FETCH_CASE@[10] != VIDEO_COMPLETION@[10 - j]);
        } else if j == 11 {
            assert(VIDEO_FETCH_CASE@[11] != VIDEO_COMPLETION@[11 - j]);
        } else if j == 12 {
            assert(VIDEO_FETCH_CASE@[12] != VIDEO_COMPLETION@[12 - j]);
        } else if j == 13 {
            assert(VIDEO_FETCH_CASE@[13] != VIDEO_COMPLETION@[13 - j]);
        } else if j == 14 {
            assert(VIDEO_FETCH_CASE@[14] != VIDEO_COMPLETION@[14 - j]);
        } else if j == 15 {
            assert(VIDEO_FETCH_CASE@[15] != VIDEO_COMPLETION@[15 - j]);
        } else if j == 16 {
            assert(VIDEO_FETCH_CASE@[16] != VIDEO_COMPLETION@[16 - j]);
        } else if j == 19 {
            assert(VIDEO_FETCH_CASE@[19] != VIDEO_COMPLETION@[19 - j]);
        } else if j == 20 {
            assert(VIDEO_FETCH_CASE@[20] != VIDEO_COMPLETION@[20 - j]);
        } else if j == 21 {
            assert(VIDEO_FETCH_CASE@[21] != VIDEO_COMPLETION@[21 - j]);
        } else if j == 22 {
            assert(VIDEO_FETCH_CASE@[22] != VIDEO_COMPLETION@[22 - j]);
        } else if j == 23 {
            assert(VIDEO_FETCH_CASE@[23] != VIDEO_COMPLETION@[23 - j]);
        } else if j == 24 {
            assert(VIDEO_FETCH_CASE@[24] != VIDEO_COMPLETION@[24 - j]);
        } else if j == 25 {
            assert(VIDEO_FETCH_CASE@[25] != VIDEO_COMPLETION@[25 - j]);
        } else if j == 26 {
            assert(VIDEO_FETCH_CASE@[26] != VIDEO_COMPLETION@[26 - j]);
        } else if j == 27 {
            assert(VIDEO_FETCH_CASE@[27] != VIDEO_COMPLETION@[27 - j]);
        } else if j == 28 {
            assert(VIDEO_FETCH_CASE@[28] != VIDEO_COMPLETION@[28 - j]);
        } else if j == 29 {
            assert(VIDEO_FETCH_CASE@[29] != VIDEO_COMPLETION@[29 - j]);
        } else if j == 30 {
            assert(VIDEO_FETCH_CASE@[30] != VIDEO_COMPLETION@[30 - j]);
        } else if j == 31 {
            assert(VIDEO_FETCH_CASE@[31] != VIDEO_COMPLETION@[31 - j]);
        } else if j == 32 {
            assert(VIDEO_FETCH_CASE@[32] != VIDEO_COMPLETION@[32 - j]);
        } else if j == 33 {
            assert(VIDEO_FETCH_CASE@[33] != VIDEO_COMPLETION@[33 - j]);
        } else if j == 34 {
            assert(VIDEO_FETCH_CASE@[34] != VIDEO_COMPLETION@[34 - j]);
        } else if j == 35 {
            assert(VIDEO_FETCH_CASE@[35] != VIDEO_COMPLETION@[35 - j]);
        } else if j == 36 {
            assert(VIDEO_FETCH_CASE@[36] != VIDEO_COMPLETION@[36 - j]);
        } else if j == 37 {
            assert(VIDEO_FETCH_CASE@[37] != VIDEO_COMPLETION@[37 - j]);
        }
    }
}

proof fn fact_video_fetch_case_starts_nowhere_in_video_remove_case()
    ensures
        starts_nowhere_in(VIDEO_REMOVE_CASE@, VIDEO_FETCH_CASE@),
{
    reveal_strlit("rstube__subcmd__videos__subcmd__remove)");
    reveal_strlit("rstube__subcmd__videos__subcmd__fetch)");
    assert forall|j: int| 0 <= j < VIDEO_REMOVE_CASE@.len() implies #[trigger] mismatch_at(VIDEO_REMOVE_CASE@, VIDEO_FETCH_CASE@, j) by {
        if j == 1 || j == 2 || j == 3 || j == 4 || j == 5 || j == 6 || j == 7 || j == 8
            || j == 9 || j == 10 || j == 11 || j == 12 || j == 13 || j == 14 || j == 15
            || j == 16 || j == 17 || j == 18 || j == 19 || j == 20 || j == 21 || j == 22
            || j == 23 || j == 24 || j == 25 || j == 26 || j == 27 || j == 28 || j == 29
            || j == 30 || j == 31 || j == 33 || j == 34 || j == 35 || j == 36 || j == 37
            || j == 38 {
            assert(VIDEO_FETCH_CASE@[0] != VIDEO_REMOVE_CASE@[j]);
        } else if j == 0 {
            assert(VIDEO_FETCH_CASE@[32] != VIDEO_REMOVE_CASE@[j + 32]);
        } else if j == 32 {
            assert(VIDEO_FETCH_CASE@[1] != VIDEO_REMOVE_CASE@[j + 1]);
        }
    }
}

proof fn fact_video_fetch_case_runs_into_nowhere_video_remove_case()
    ensures
        runs_into_nowhere(VIDEO_FETCH_CASE@, VIDEO_REMOVE_CASE@),
{
    reveal_strlit("rstube__subcmd__videos__subcmd__fetch)");
    reveal_strlit("rstube__subcmd__videos__subcmd__remove)");
    assert forall|j: int| 1 <= j < VIDEO_FETCH_CASE@.len() implies #[trigger] overlap_mismatch(VIDEO_FETCH_CASE@, VIDEO_REMOVE_CASE@, j) by {
        if j == 1 {
            assert(VIDEO_FETCH_CASE@[1] != VIDEO_REMOVE_CASE@[1 - j]);
        } else if j == 2 {
            assert(VIDEO_FETCH_CASE@[2] != VIDEO_REMOVE_CASE@[2 - j]);
        } else if j == 3 {
            assert(VIDEO_FETCH_CASE@[3] != VIDEO_REMOVE_CASE@[3 - j]);
        } else if j == 4 {
            assert(VIDEO_FETCH_CASE@[4] != VIDEO_REMOVE_CASE@[4 - j]);
        } else if j == 5 {
            assert(VIDEO_FETCH_CASE@[5] != VIDEO_REMOVE_CASE@[5 - j]);
        } else if j == 6 {
            assert(VIDEO_FETCH_CASE@[6] != VIDEO_REMOVE_CASE@[6 - j]);
        } else if j == 7 {
            assert(VIDEO_FETCH_CASE@[7] != VIDEO_REMOVE_CASE@[7 - j]);
        } else if j == 8 {
            assert(VIDEO_FETCH_CASE@[8] != VIDEO_REMOVE_CASE@[8 - j]);
        } else if j == 9 {
            assert(VIDEO_FETCH_CASE@[9] != VIDEO_REMOVE_CASE@[9 - j]);
        } else if j == 10 {
            assert(VIDEO_FETCH_CASE@[10] != VIDEO_REMOVE_CASE@[10 - j]);
        } else if j == 11 {
            assert(VIDEO_FETCH_CASE@[11] != VIDEO_REMOVE_CASE@[11 - j]);
        } else if j == 12 {
            assert(VIDEO_FETCH_CASE@[12] != VIDEO_REMOVE_CASE@[12 - j]);
        } else if j == 13 {
            assert(VIDEO_FETCH_CASE@[13] != VIDEO_REMOVE_CASE@[13 - j]);
        } else if j == 14 {
            assert(VIDEO_FETCH_CASE@[14] != VIDEO_REMOVE_CASE@[14 - j]);
        } else if j == 15 {
            assert(VIDEO_FETCH_CASE@[15] != VIDEO_REMOVE_CASE@[15 - j]);
        } else if j == 16 {
            assert(VIDEO_FETCH_CASE@[16] != VIDEO_REMOVE_CASE@[16 - j]);
        } else if j == 17 {
            assert(VIDEO_FETCH_CASE@[17] != VIDEO_REMOVE_CASE@[17 - j]);
        } else if j == 18 {
            assert(VIDEO_FETCH_CASE@[18] != VIDEO_REMOVE_CASE@[18 - j]);
        } else if j == 19 {
            assert(VIDEO_FETCH_CASE@[19] != VIDEO_REMOVE_CASE@[19 - j]);
        } else if j == 20 {
            assert(VIDEO_FETCH_CASE@[20] != VIDEO_REMOVE_CASE@[20 - j]);
        } else if j == 21 {
            assert(VIDEO_FETCH_CASE@[21] != VIDEO_REMOVE_CASE@[21 - j]);
        } else if j == 22 {
            assert(VIDEO_FETCH_CASE@[22] != VIDEO_REMOVE_CASE@[22 - j]);
        } else if j == 23 {
            assert(VIDEO_FETCH_CASE@[23] != VIDEO_REMOVE_CASE@[23 - j]);
        } else if j == 24 {
            assert(VIDEO_FETCH_CASE@[24] != VIDEO_REMOVE_CASE@[24 - j]);
        } else if j == 25 {
            assert(VIDEO_FETCH_CASE@[25] != VIDEO_REMOVE_CASE@[25 - j]);
        } else if j == 26 {
            assert(VIDEO_FETCH_CASE@[26] != VIDEO_REMOVE_CASE@[26 - j]);
        } else if j == 27 {
            assert(VIDEO_FETCH_CASE@[27] != VIDEO_REMOVE_CASE@[27 - j]);
        } else if j == 28 {
            assert(VIDEO_FETCH_CASE@[28] != VIDEO_REMOVE_CASE@[28 - j]);
        } else if j == 29 {
            assert(VIDEO_FETCH_CASE@[29] != VIDEO_REMOVE_CASE@[29 - j]);
        } else if j == 30 {
            assert(VIDEO_FETCH_CASE@[30] != VIDEO_REMOVE_CASE@[30 - j]);
        } else if j == 31 {
            assert(VIDEO_FETCH_CASE@[31] != VIDEO_REMOVE_CASE@[31 - j]);
        } else if j == 32 {
            assert(VIDEO_FETCH_CASE@[32] != VIDEO_REMOVE_CASE@[32 - j]);
        } else if j == 33 {
            assert(VIDEO_FETCH_CASE@[33] != VIDEO_REMOVE_CASE@[33 - j]);
        } else if j == 34 {
            assert(VIDEO_FETCH_CASE@[34] != VIDEO_REMOVE_CASE@[34 - j]);
        } else if j == 35 {
            assert(VIDEO_FETCH_CASE@[35] != VIDEO_REMOVE_CASE@[35 - j]);
        } else if j == 36 {
            assert(VIDEO_FETCH_CASE@[36] != VIDEO_REMOVE_CASE@[36 - j]);
        } else if j == 37 {
            assert(VIDEO_FETCH_CASE@[37] != VIDEO_REMOVE_CASE@[37 - j]);
        }
    }
}

proof fn fact_playlist_show_case_starts_nowhere_in_video_fetch_case()
    ensures
        starts_nowhere_in(VIDEO_FETCH_CASE@, PLAYLIST_SHOW_CASE@),
{
    reveal_strlit("rstube__subcmd__videos__subcmd__fetch)");
    reveal_strlit("rstube__subcmd__playlists__subcmd__show)");
    assert forall|j: int| 0 <= j < VIDEO_FETCH_CASE@.len() implies #[trigger] mismatch_at(VIDEO_FETCH_CASE@, PLAYLIST_SHOW_CASE@, j) by {
        if j == 1 || j == 2 || j == 3 || j == 4 || j == 5 || j == 6 || j == 7 || j == 8
            || j == 9 || j == 10 || j == 11 || j == 12 || j == 13 || j == 14 || j == 15
            || j == 16 || j == 17 || j == 18 || j == 19 || j == 20 || j == 21 || j == 22
            || j == 23 || j == 24 || j == 25 || j == 26 || j == 27 || j == 28 || j == 29
            || j == 30 || j == 31 || j == 32 || j == 33 || j == 34 || j == 35 || j == 36
            || j == 37 {
            assert(PLAYLIST_SHOW_CASE@[0] != VIDEO_FETCH_CASE@[j]);
        } else if j == 0 {
            assert(PLAYLIST_SHOW_CASE@[16] != VIDEO_FETCH_CASE@[j + 16]);
        }
    }
}

proof fn fact_playlist_show_case_runs_into_nowhere_video_fetch_case()
    ensures
        runs_into_nowhere(PLAYLIST_SHOW_CASE@, VIDEO_FETCH_CASE@),
{
    reveal_strlit("rstube__subcmd__playlists__subcmd__show)");
    reveal_strlit("rstube__subcmd__videos__subcmd__fetch)");
    assert forall|j: int| 1 <= j < PLAYLIST_SHOW_CASE@.len() implies #[trigger] overlap_mismatch(PLAYLIST_SHOW_CASE@, VIDEO_FETCH_CASE@, j) by {
        if j == 1 {
            assert(PLAYLIST_SHOW_CASE@[1] != VIDEO_FETCH_CASE@[1 - j]);
        } else if j == 2 {
            assert(PLAYLIST_SHOW_CASE@[2] != VIDEO_FETCH_CASE@[2 - j]);
        } else if j == 3 {
            assert(PLAYLIST_SHOW_CASE@[3] != VIDEO_FETCH_CASE@[3 - j]);
        } else if j == 4 {
            assert(PLAYLIST_SHOW_CASE@[4] != VIDEO_FETCH_CASE@[4 - j]);
        } else if j == 5 {
            assert(PLAYLIST_SHOW_CASE@[5] != VIDEO_FETCH_CASE@[5 - j]);
        } else if j == 6 {
            assert(PLAYLIST_SHOW_CASE@[6] != VIDEO_FETCH_CASE@[6 - j]);
        } else if j == 7 {
            assert(PLAYLIST_SHOW_CASE@[7] != VIDEO_FETCH_CASE@[7 - j]);
        } else if j == 8 {
            assert(PLAYLIST_SHOW_CASE@[8] != VIDEO_FETCH_CASE@[8 - j]);
        } else if j == 9 {
            assert(PLAYLIST_SHOW_CASE@[9] != VIDEO_FETCH_CASE@[9 - j]);
        } else if j == 10 {
            assert(PLAYLIST_SHOW_CASE@[10] != VIDEO_FETCH_CASE@[10 - j]);
        } else if j == 11 {
            assert(PLAYLIST_SHOW_CASE@[11] != VIDEO_FETCH_CASE@[11 - j]);
        } else if j == 12 {
            assert(PLAYLIST_SHOW_CASE@[12] != VIDEO_FETCH_CASE@[12 - j]);
        } else if j == 13 {
            assert(PLAYLIST_SHOW_CASE@[13] != VIDEO_FETCH_CASE@[13 - j]);
        } else if j == 14 {
            assert(PLAYLIST_SHOW_CASE@[14] != VIDEO_FETCH_CASE@[14 - j]);
        } else if j == 15 {
            assert(PLAYLIST_SHOW_CASE@[15] != VIDEO_FETCH_CASE@[15 - j]);
        } else if j == 16 {
            assert(PLAYLIST_SHOW_CASE@[16] != VIDEO_FETCH_CASE@[16 - j]);
        } else if j == 17 {
            assert(PLAYLIST_SHOW_CASE@[17] != VIDEO_FETCH_CASE@[17 - j]);
        } else if j == 18 {
            assert(PLAYLIST_SHOW_CASE@[18] != VIDEO_FETCH_CASE@[18 - j]);
        } else if j == 19 {
            assert(PLAYLIST_SHOW_CASE@[19] != VIDEO_FETCH_CASE@[19 - j]);
        } else if j == 20 {
            assert(PLAYLIST_SHOW_CASE@[20] != VIDEO_FETCH_CASE@[20 - j]);
        } else if j == 21 {
            assert(PLAYLIST_SHOW_CASE@[21] != VIDEO_FETCH_CASE@[21 - j]);
        } else if j == 22 {
            assert(PLAYLIST_SHOW_CASE@[22] != VIDEO_FETCH_CASE@[22 - j]);
        } else if j == 23 {
            assert(PLAYLIST_SHOW_CASE@[23] != VIDEO_FETCH_CASE@[23 - j]);
        } else if j == 24 {
            assert(PLAYLIST_SHOW_CASE@[24] != VIDEO_FETCH_CASE@[24 - j]);
        } else if j == 25 {
            assert(PLAYLIST_SHOW_CASE@[25] != VIDEO_FETCH_CASE@[25 - j]);
        } else if j == 26 {
            assert(PLAYLIST_SHOW_CASE@[26] != VIDEO_FETCH_CASE@[26 - j]);
        } else if j == 27 {
            assert(PLAYLIST_SHOW_CASE@[27] != VIDEO_FETCH_CASE@[27 - j]);
        } else if j == 28 {
            assert(PLAYLIST_SHOW_CASE@[28] != VIDEO_FETCH_CASE@[28 - j]);
        } else if j == 29 {
            assert(PLAYLIST_SHOW_CASE@[29] != VIDEO_FETCH_CASE@[29 - j]);
        } else if j == 30 {
            assert(PLAYLIST_SHOW_CASE@[30] != VIDEO_FETCH_CASE@[30 - j]);
        } else if j == 31 {
            assert(PLAYLIST_SHOW_CASE@[31] != VIDEO_FETCH_CASE@[31 - j]);
        } else if j == 32 {
            assert(PLAYLIST_SHOW_CASE@[32] != VIDEO_FETCH_CASE@[32 - j]);
        } else if j == 33 {
            assert(PLAYLIST_SHOW_CASE@[33] != VIDEO_FETCH_CASE@[33 - j]);
        } else if j == 34 {
            assert(PLAYLIST_SHOW_CASE@[34] != VIDEO_FETCH_CASE@[34 - j]);
        } else if j == 35 {
            assert(PLAYLIST_SHOW_CASE@[35] != VIDEO_FETCH_CASE@[35 - j]);
        } else if j == 36 {
            assert(PLAYLIST_SHOW_CASE@[36] != VIDEO_FETCH_CASE@[36 - j]);
        } else if j == 37 {
            assert(PLAYLIST_SHOW_CASE@[37] != VIDEO_FETCH_CASE@[37 - j]);
        } else if j == 38 {
            assert(PLAYLIST_SHOW_CASE@[38] != VIDEO_FETCH_CASE@[38 - j]);
        } else if j == 39 {
            assert(PLAYLIST_SHOW_CASE@[39] != VIDEO_FETCH_CASE@[39 - j]);
        }
    }
}

proof fn fact_playlist_remove_case_starts_nowhere_in_video_fetch_case()
    ensures
        starts_nowhere_in(VIDEO_FETCH_CASE@, PLAYLIST_REMOVE_CASE@),
{
    reveal_strlit("rstube__subcmd__videos__subcmd__fetch)");
    reveal_strlit("rstube__subcmd__playlists__subcmd__remove)");
    assert forall|j: int| 0 <= j < VIDEO_FETCH_CASE@.len() implies #[trigger] mismatch_at(VIDEO_FETCH_CASE@, PLAYLIST_REMOVE_CASE@, j) by {
        if j == 1 || j == 2 || j == 3 || j == 4 || j == 5 || j == 6 || j == 7 || j == 8
            || j == 9 || j == 10 || j == 11 || j == 12 || j == 13 || j == 14 || j == 15
            || j == 16 || j == 17 || j == 18 || j == 19 || j == 20 || j == 21 || j == 22
            || j == 23 || j == 24 || j == 25 || j == 26 || j == 27 || j == 28 || j == 29
            || j == 30 || j == 31 || j == 32 || j == 33 || j == 34 || j == 35 || j == 36
            || j == 37 {
            assert(PLAYLIST_REMOVE_CASE@[0] != VIDEO_FETCH_CASE@[j]);
        } else if j == 0 {
            assert(PLAYLIST_REMOVE_CASE@[16] != VIDEO_FETCH_CASE@[j + 16]);
        }
    }
}

proof fn fact_playlist_remove_case_runs_into_nowhere_video_fetch_case()
    ensures
        runs_into_nowhere(PLAYLIST_REMOVE_CASE@, VIDEO_FETCH_CASE@),
{
    reveal_strlit("rstube__subcmd__playlists__subcmd__remove)");
    reveal_strlit("rstube__subcmd__videos__subcmd__fetch)");
    assert forall|j: int| 1 <= j < PLAYLIST_REMOVE_CASE@.len() implies #[trigger] overlap_mismatch(PLAYLIST_REMOVE_CASE@, VIDEO_FETCH_CASE@, j) by {
        if j == 35 || j == 36 {
            assert(PLAYLIST_REMOVE_CASE@[36] != VIDEO_FETCH_CASE@[36 - j]);
        } else if j == 1 {
            assert(PLAYLIST_REMOVE_CASE@[1] != VIDEO_FETCH_CASE@[1 - j]);
        } else if j == 2 {
            assert(PLAYLIST_REMOVE_CASE@[2] != VIDEO_FETCH_CASE@[2 - j]);
        } else if j == 3 {
            assert(PLAYLIST_REMOVE_CASE@[3] != VIDEO_FETCH_CASE@[3 - j]);
        } else if j == 4 {
            assert(PLAYLIST_REMOVE_CASE@[4] != VIDEO_FETCH_CASE@[4 - j]);
        } else if j == 5 {
            assert(PLAYLIST_REMOVE_CASE@[5] != VIDEO_FETCH_CASE@[5 - j]);
        } else if j == 6 {
            assert(PLAYLIST_REMOVE_CASE@[6] != VIDEO_FETCH_CASE@[6 - j]);
        } else if j == 7 {
            assert(PLAYLIST_REMOVE_CASE@[7] != VIDEO_FETCH_CASE@[7 - j]);
        } else if j == 8 {
            assert(PLAYLIST_REMOVE_CASE@[8] != VIDEO_FETCH_CASE@[8 - j]);
        } else if j == 9 {
            assert(PLAYLIST_REMOVE_CASE@[9] != VIDEO_FETCH_CASE@[9 - j]);
        } else if j == 10 {
            assert(PLAYLIST_REMOVE_CASE@[10] != VIDEO_FETCH_CASE@[10 - j]);
        } else if j == 11 {
            assert(PLAYLIST_REMOVE_CASE@[11] != VIDEO_FETCH_CASE@[11 - j]);
        } else if j == 12 {
            assert(PLAYLIST_REMOVE_CASE@[12] != VIDEO_FETCH_CASE@[12 - j]);
        } else if j == 13 {
            assert(PLAYLIST_REMOVE_CASE@[13] != VIDEO_FETCH_CASE@[13 - j]);
        } else if j == 14 {
            assert(PLAYLIST_REMOVE_CASE@[14] != VIDEO_FETCH_CASE@[14 - j]);
        } else if j == 15 {
            assert(PLAYLIST_REMOVE_CASE@[15] != VIDEO_FETCH_CASE@[15 - j]);
        } else if j == 16 {
            assert(PLAYLIST_REMOVE_CASE@[16] != VIDEO_FETCH_CASE@[16 - j]);
        } else if j == 17 {
            assert(PLAYLIST_REMOVE_CASE@[17] != VIDEO_FETCH_CASE@[17 - j]);
        } else if j == 18 {
            assert(PLAYLIST_REMOVE_CASE@[18] != VIDEO_FETCH_CASE@[18 - j]);
        } else if j == 19 {
            assert(PLAYLIST_REMOVE_CASE@[19] != VIDEO_FETCH_CASE@[19 - j]);
        } else if j == 20 {
            assert(PLAYLIST_REMOVE_CASE@[20] != VIDEO_FETCH_CASE@[20 - j]);
        } else if j == 21 {
            assert(PLAYLIST_REMOVE_CASE@[21] != VIDEO_FETCH_CASE@[21 - j]);
        } else if j == 22 {
            assert(PLAYLIST_REMOVE_CASE@[22] != VIDEO_FETCH_CASE@[22 - j]);
        } else if j == 23 {
            assert(PLAYLIST_REMOVE_CASE@[23] != VIDEO_FETCH_CASE@[23 - j]);
        } else if j == 24 {
            assert(PLAYLIST_REMOVE_CASE@[24] != VIDEO_FETCH_CASE@[24 - j]);
        } else if j == 25 {
            assert(PLAYLIST_REMOVE_CASE@[25] != VIDEO_FETCH_CASE@[25 - j]);
        } else if j == 26 {
            assert(PLAYLIST_REMOVE_CASE@[26] != VIDEO_FETCH_CASE@[26 - j]);
        } else if j == 27 {
            assert(PLAYLIST_REMOVE_CASE@[27] != VIDEO_FETCH_CASE@[27 - j]);
        } else if j == 28 {
            assert(PLAYLIST_REMOVE_CASE@[28] != VIDEO_FETCH_CASE@[28 - j]);
        } else if j == 29 {
            assert(PLAYLIST_REMOVE_CASE@[29] != VIDEO_FETCH_CASE@[29 - j]);
        } else if j == 30 {
            assert(PLAYLIST_REMOVE_CASE@[30] != VIDEO_FETCH_CASE@[30 - j]);
        } else if j == 31 {
            assert(PLAYLIST_REMOVE_CASE@[31] != VIDEO_FETCH_CASE@[31 - j]);
        } else if j == 32 {
            assert(PLAYLIST_REMOVE_CASE@[32] != VIDEO_FETCH_CASE@[32 - j]);
        } else if j == 33 {
            assert(PLAYLIST_REMOVE_CASE@[33] != VIDEO_FETCH_CASE@[33 - j]);
        } else if j == 34 {
            assert(PLAYLIST_REMOVE_CASE@[34] != VIDEO_FETCH_CASE@[34 - j]);
        } else if j == 37 {
            assert(PLAYLIST_REMOVE_CASE@[37] != VIDEO_FETCH_CASE@[37 - j]);
        } else if j == 38 {
            assert(PLAYLIST_REMOVE_CASE@[38] != VIDEO_FETCH_CASE@[38 - j]);
        } else if j == 39 {
            assert(PLAYLIST_REMOVE_CASE@[39] != VIDEO_FETCH_CASE@[39 - j]);
        } else if j == 40 {
            assert(PLAYLIST_REMOVE_CASE@[40] != VIDEO_FETCH_CASE@[40 - j]);
        } else if j == 41 {
            assert(PLAYLIST_REMOVE_CASE@[41] != VIDEO_FETCH_CASE@[41 - j]);
        }
    }
}

proof fn fact_playlist_fetch_case_starts_nowhere_in_video_fetch_case()
    ensures
        starts_nowhere_in(VIDEO_FETCH_CASE@, PLAYLIST_FETCH_CASE@),
{
    reveal_strlit("rstube__subcmd__videos__subcmd__fetch)");
    reveal_strlit("rstube__subcmd__playlists__subcmd__fetch)");
    assert forall|j: int| 0 <= j < VIDEO_FETCH_CASE@.len() implies #[trigger] mismatch_at(VIDEO_FETCH_CASE@, PLAYLIST_FETCH_CASE@, j) by {
        if j == 1 || j == 2 || j == 3 || j == 4 || j == 5 || j == 6 || j == 7 || j == 8
            || j == 9 || j == 10 || j == 11 || j == 12 || j == 13 || j == 14 || j == 15
            || j == 16 || j == 17 || j == 18 || j == 19 || j == 20 || j == 21 || j == 22
            || j == 23 || j == 24 || j == 25 || j == 26 || j == 27 || j == 28 || j == 29
            || j == 30 || j == 31 || j == 32 || j == 33 || j == 34 || j == 35 || j == 36
            || j == 37 {
            assert(PLAYLIST_FETCH_CASE@[0] != VIDEO_FETCH_CASE@[j]);
        } else if j == 0 {
            assert(PLAYLIST_FETCH_CASE@[16] != VIDEO_FETCH_CASE@[j + 16]);
        }
    }
}

proof fn fact_playlist_fetch_case_runs_into_nowhere_video_fetch_case()
    ensures
        runs_into_nowhere(PLAYLIST_FETCH_CASE@, VIDEO_FETCH_CASE@),
{
    reveal_strlit("rstube__subcmd__playlists__subcmd__fetch)");
    reveal_strlit("rstube__subcmd__videos__subcmd__fetch)");
    assert forall|j: int| 1 <= j < PLAYLIST_FETCH_CASE@.len() implies #[trigger] overlap_mismatch(PLAYLIST_FETCH_CASE@, VIDEO_FETCH_CASE@, j) by {
        if j == 1 {
            assert(PLAYLIST_FETCH_CASE@[1] != VIDEO_FETCH_CASE@[1 - j]);
        } else if j == 2 {
            assert(PLAYLIST_FETCH_CASE@[2] != VIDEO_FETCH_CASE@[2 - j]);
        } else if j == 3 {
            assert(PLAYLIST_FETCH_CASE@[3] != VIDEO_FETCH_CASE@[3 - j]);
        } else if j == 4 {
            assert(PLAYLIST_FETCH_CASE@[4] != VIDEO_FETCH_CASE@[4 - j]);
        } else if j == 5 {
            assert(PLAYLIST_FETCH_CASE@[5] != VIDEO_FETCH_CASE@[5 - j]);
        } else if j == 6 {
            assert(PLAYLIST_FETCH_CASE@[6] != VIDEO_FETCH_CASE@[6 - j]);
        } else if j == 7 {
            assert(PLAYLIST_FETCH_CASE@[7] != VIDEO_FETCH_CASE@[7 - j]);
        } else if j == 8 {
            assert(PLAYLIST_FETCH_CASE@[8] != VIDEO_FETCH_CASE@[8 - j]);
        } else if j == 9 {
            assert(PLAYLIST_FETCH_CASE@[9] != VIDEO_FETCH_CASE@[9 - j]);
        } else if j == 10 {
            assert(PLAYLIST_FETCH_CASE@[10] != VIDEO_FETCH_CASE@[10 - j]);
        } else if j == 11 {
            assert(PLAYLIST_FETCH_CASE@[11] != VIDEO_FETCH_CASE@[11 - j]);
        } else if j == 12 {
            assert(PLAYLIST_FETCH_CASE@[12] != VIDEO_FETCH_CASE@[12 - j]);
        } else if j == 13 {
            assert(PLAYLIST_FETCH_CASE@[13] != VIDEO_FETCH_CASE@[13 - j]);
        } else if j == 14 {
            assert(PLAYLIST_FETCH_CASE@[14] != VIDEO_FETCH_CASE@[14 - j]);
        } else if j == 15 {
            assert(PLAYLIST_FETCH_CASE@[15] != VIDEO_FETCH_CASE@[15 - j]);
        } else if j == 16 {
            assert(PLAYLIST_FETCH_CASE@[16] != VIDEO_FETCH_CASE@[16 - j]);
        } else if j == 17 {
            assert(PLAYLIST_FETCH_CASE@[17] != VIDEO_FETCH_CASE@[17 - j]);
        } else if j == 18 {
            assert(PLAYLIST_FETCH_CASE@[18] != VIDEO_FETCH_CASE@[18 - j]);
        } else if j == 19 {
            assert(PLAYLIST_FETCH_CASE@[19] != VIDEO_FETCH_CASE@[19 - j]);
        } else if j == 20 {
            assert(PLAYLIST_FETCH_CASE@[20] != VIDEO_FETCH_CASE@[20 - j]);
        } else if j == 21 {
            assert(PLAYLIST_FETCH_CASE@[21] != VIDEO_FETCH_CASE@[21 - j]);
        } else if j == 22 {
            assert(PLAYLIST_FETCH_CASE@[22] != VIDEO_FETCH_CASE@[22 - j]);
        } else if j == 23 {
            assert(PLAYLIST_FETCH_CASE@[23] != VIDEO_FETCH_CASE@[23 - j]);
        } else if j == 24 {
            assert(PLAYLIST_FETCH_CASE@[24] != VIDEO_FETCH_CASE@[24 - j]);
        } else if j == 25 {
            assert(PLAYLIST_FETCH_CASE@[25] != VIDEO_FETCH_CASE@[25 - j]);
        } else if j == 26 {
            assert(PLAYLIST_FETCH_CASE@[26] != VIDEO_FETCH_CASE@[26 - j]);
        } else if j == 27 {
            assert(PLAYLIST_FETCH_CASE@[27] != VIDEO_FETCH_CASE@[27 - j]);
        } else if j == 28 {
            assert(PLAYLIST_FETCH_CASE@[28] != VIDEO_FETCH_CASE@[28 - j]);
        } else if j == 29 {
            assert(PLAYLIST_FETCH_CASE@[29] != VIDEO_FETCH_CASE@[29 - j]);
        } else if j == 30 {
            assert(PLAYLIST_FETCH_CASE@[30] != VIDEO_FETCH_CASE@[30 - j]);
        } else if j == 31 {
            assert(PLAYLIST_FETCH_CASE@[31] != VIDEO_FETCH_CASE@[31 - j]);
        } else if j == 32 {
            assert(PLAYLIST_FETCH_CASE@[32] != VIDEO_FETCH_CASE@[32 - j]);
        } else if j == 33 {
            assert(PLAYLIST_FETCH_CASE@[33] != VIDEO_FETCH_CASE@[33 - j]);
        } else if j == 34 {
            assert(PLAYLIST_FETCH_CASE@[34] != VIDEO_FETCH_CASE@[34 - j]);
        } else if j == 35 {
            assert(PLAYLIST_FETCH_CASE@[35] != VIDEO_FETCH_CASE@[35 - j]);
        } else if j == 36 {
            assert(PLAYLIST_FETCH_CASE@[36] != VIDEO_FETCH_CASE@[36 - j]);
        } else if j == 37 {
            assert(PLAYLIST_FETCH_CASE@[37] != VIDEO_FETCH_CASE@[37 - j]);
        } else if j == 38 {
            assert(PLAYLIST_FETCH_CASE@[38] != VIDEO_FETCH_CASE@[38 - j]);
        } else if j == 39 {
            assert(PLAYLIST_FETCH_CASE@[39] != VIDEO_FETCH_CASE@[39 - j]);
        } else if j == 40 {
            assert(PLAYLIST_FETCH_CASE@[40] != VIDEO_FETCH_CASE@[40 - j]);
        }
    }
}

proof fn fact_video_remove_case_starts_nowhere_in_video_fetch_case()
    ensures
        starts_nowhere_in(VIDEO_FETCH_CASE@, VIDEO_REMOVE_CASE@),
{
    reveal_strlit("rstube__subcmd__videos__subcmd__fetch)");
    reveal_strlit("rstube__subcmd__videos__subcmd__remove)");
    assert forall|j: int| 0 <= j < VIDEO_FETCH_CASE@.len() implies #[trigger] mismatch_at(VIDEO_FETCH_CASE@, VIDEO_REMOVE_CASE@, j) by {
        if j == 1 || j == 2 || j == 3 || j == 4 || j == 5 || j == 6 || j == 7 || j == 8
            || j == 9 || j == 10 || j == 11 || j == 12 || j == 13 || j == 14 || j == 15
            || j == 16 || j == 17 || j == 18 || j == 19 || j == 20 || j == 21 || j == 22
            || j == 23 || j == 24 || j == 25 || j == 26 || j == 27 || j == 28 || j == 29
            || j == 30 || j == 31 || j == 32 || j == 33 || j == 34 || j == 35 || j == 36
            || j == 37 {
            assert(VIDEO_REMOVE_CASE@[0] != VIDEO_FETCH_CASE@[j]);
        } else if j == 0 {
            assert(VIDEO_REMOVE_CASE@[32] != VIDEO_FETCH_CASE@[j + 32]);
        }
    }
}

proof fn fact_video_remove_case_runs_into_nowhere_video_fetch_case()
    ensures
        runs_into_nowhere(VIDEO_REMOVE_CASE@, VIDEO_FETCH_CASE@),
{
    reveal_strlit("rstube__subcmd__videos__subcmd__remove)");
    reveal_strlit("rstube__subcmd__videos__subcmd__fetch)");
    assert forall|j: int| 1 <= j < VIDEO_REMOVE_CASE@.len() implies #[trigger] overlap_mismatch(VIDEO_REMOVE_CASE@, VIDEO_FETCH_CASE@, j) by {
        if j == 32 || j == 33 {
            assert(VIDEO_REMOVE_CASE@[33] != VIDEO_FETCH_CASE@[33 - j]);
        } else if j == 1 {
            assert(VIDEO_REMOVE_CASE@[1] != VIDEO_FETCH_CASE@[1 - j]);
        } else if j == 2 {
            assert(VIDEO_REMOVE_CASE@[2] != VIDEO_FETCH_CASE@[2 - j]);
        } else if j == 3 {
            assert(VIDEO_REMOVE_CASE@[3] != VIDEO_FETCH_CASE@[3 - j]);
        } else if j == 4 {
            assert(VIDEO_REMOVE_CASE@[4] != VIDEO_FETCH_CASE@[4 - j]);
        } else if j == 5 {
            assert(VIDEO_REMOVE_CASE@[5] != VIDEO_FETCH_CASE@[5 - j]);
        } else if j == 6 {
            assert(VIDEO_REMOVE_CASE@[6] != VIDEO_FETCH_CASE@[6 - j]);
        } else if j == 7 {
            assert(VIDEO_REMOVE_CASE@[7] != VIDEO_FETCH_CASE@[7 - j]);
        } else if j == 8 {
            assert(VIDEO_REMOVE_CASE@[8] != VIDEO_FETCH_CASE@[8 - j]);
        } else if j == 9 {
            assert(VIDEO_REMOVE_CASE@[9] != VIDEO_FETCH_CASE@[9 - j]);
        } else if j == 10 {
            assert(VIDEO_REMOVE_CASE@[10] != VIDEO_FETCH_CASE@[10 - j]);
        } else if j == 11 {
            assert(VIDEO_REMOVE_CASE@[11] != VIDEO_FETCH_CASE@[11 - j]);
        } else if j == 12 {
            assert(VIDEO_REMOVE_CASE@[12] != VIDEO_FETCH_CASE@[12 - j]);
        } else if j == 13 {
            assert(VIDEO_REMOVE_CASE@[13] != VIDEO_FETCH_CASE@[13 - j]);
        } else if j == 14 {
            assert(VIDEO_REMOVE_CASE@[14] != VIDEO_FETCH_CASE@[14 - j]);
        } else if j == 15 {
            assert(VIDEO_REMOVE_CASE@[15] != VIDEO_FETCH_CASE@[15 - j]);
        } else if j == 16 {
            assert(VIDEO_REMOVE_CASE@[16] != VIDEO_FETCH_CASE@[16 - j]);
        } else if j == 17 {
            assert(VIDEO_REMOVE_CASE@[17] != VIDEO_FETCH_CASE@[17 - j]);
        } else if j == 18 {
            assert(VIDEO_REMOVE_CASE@[18] != VIDEO_FETCH_CASE@[18 - j]);
        } else if j == 19 {
            assert(VIDEO_REMOVE_CASE@[19] != VIDEO_FETCH_CASE@[19 - j]);
        } else if j == 20 {
            assert(VIDEO_REMOVE_CASE@[20] != VIDEO_FETCH_CASE@[20 - j]);
        } else if j == 21 {
            assert(VIDEO_REMOVE_CASE@[21] != VIDEO_FETCH_CASE@[21 - j]);
        } else if j == 22 {
            assert(VIDEO_REMOVE_CASE@[22] != VIDEO_FETCH_CASE@[22 - j]);
        } else if j == 23 {
            assert(VIDEO_REMOVE_CASE@[23] != VIDEO_FETCH_CASE@[23 - j]);
        } else if j == 24 {
            assert(VIDEO_REMOVE_CASE@[24] != VIDEO_FETCH_CASE@[24 - j]);
        } else if j == 25 {
            assert(VIDEO_REMOVE_CASE@[25] != VIDEO_FETCH_CASE@[25 - j]);
        } else if j == 26 {
            assert(VIDEO_REMOVE_CASE@[26] != VIDEO_FETCH_CASE@[26 - j]);
        } else if j == 27 {
            assert(VIDEO_REMOVE_CASE@[27] != VIDEO_FETCH_CASE@[27 - j]);
        } else if j == 28 {
            assert(VIDEO_REMOVE_CASE@[28] != VIDEO_FETCH_CASE@[28 - j]);
        } else if j == 29 {
            assert(VIDEO_REMOVE_CASE@[29] != VIDEO_FETCH_CASE@[29 - j]);
        } else if j == 30 {
            assert(VIDEO_REMOVE_CASE@[30] != VIDEO_FETCH_CASE@[30 - j]);
        } else if j == 31 {
            assert(VIDEO_REMOVE_CASE@[31] != VIDEO_FETCH_CASE@[31 - j]);
        } else if j == 34 {
            assert(VIDEO_REMOVE_CASE@[34] != VIDEO_FETCH_CASE@[34 - j]);
        } else if j == 35 {
            assert(VIDEO_REMOVE_CASE@[35] != VIDEO_FETCH_CASE@[35 - j]);
        } else if j == 36 {
            assert(VIDEO_REMOVE_CASE@[36] != VIDEO_FETCH_CASE@[36 - j]);
        } else if j == 37 {
            assert(VIDEO_REMOVE_CASE@[37] != VIDEO_FETCH_CASE@[37 - j]);
        } else if j == 38 {
            assert(VIDEO_REMOVE_CASE@[38] != VIDEO_FETCH_CASE@[38 - j]);
        }
    }
}

proof fn fact_video_fetch_case_runs_into_nowhere_video_fetch_case()
    ensures
        runs_into_nowhere(VIDEO_FETCH_CASE@, VIDEO_FETCH_CASE@),
{
    reveal_strlit("rstube__subcmd__videos__subcmd__fetch)");
    assert forall|j: int| 1 <= j < VIDEO_FETCH_CASE@.len() implies #[trigger] overlap_mismatch(VIDEO_FETCH_CASE@, VIDEO_FETCH_CASE@, j) by {
        if j == 1 {
            assert(VIDEO_FETCH_CASE@[1] != VIDEO_FETCH_CASE@[1 - j]);
        } else if j == 2 {
            assert(VIDEO_FETCH_CASE@[2] != VIDEO_FETCH_CASE@[2 - j]);
        } else if j == 3 {
            assert(VIDEO_FETCH_CASE@[3] != VIDEO_FETCH_CASE@[3 - j]);
        } else if j == 4 {
            assert(VIDEO_FETCH_CASE@[4] != VIDEO_FETCH_CASE@[4 - j]);
        } else if j == 5 {
            assert(VIDEO_FETCH_CASE@[5] != VIDEO_FETCH_CASE@[5 - j]);
        } else if j == 6 {
            assert(VIDEO_FETCH_CASE@[6] != VIDEO_FETCH_CASE@[6 - j]);
        } else if j == 7 {
            assert(VIDEO_FETCH_CASE@[7] != VIDEO_FETCH_CASE@[7 - j]);
        } else if j == 8 {
            assert(VIDEO_FETCH_CASE@[8] != VIDEO_FETCH_CASE@[8 - j]);
        } else if j == 9 {
            assert(VIDEO_FETCH_CASE@[9] != VIDEO_FETCH_CASE@[9 - j]);
        } else if j == 10 {
            assert(VIDEO_FETCH_CASE@[10] != VIDEO_FETCH_CASE@[10 - j]);
        } else if j == 11 {
            assert(VIDEO_FETCH_CASE@[11] != VIDEO_FETCH_CASE@[11 - j]);
        } else if j == 12 {
            assert(VIDEO_FETCH_CASE@[12] != VIDEO_FETCH_CASE@[12 - j]);
        } else if j == 13 {
            assert(VIDEO_FETCH_CASE@[13] != VIDEO_FETCH_CASE@[13 - j]);
        } else if j == 14 {
            assert(VIDEO_FETCH_CASE@[14] != VIDEO_FETCH_CASE@[14 - j]);
        } else if j == 15 {
            assert(VIDEO_FETCH_CASE@[15] != VIDEO_FETCH_CASE@[15 - j]);
        } else if j == 16 {
            assert(VIDEO_FETCH_CASE@[16] != VIDEO_FETCH_CASE@[16 - j]);
        } else if j == 17 {
            assert(VIDEO_FETCH_CASE@[17] != VIDEO_FETCH_CASE@[17 - j]);
        } else if j == 18 {
            assert(VIDEO_FETCH_CASE@[18] != VIDEO_FETCH_CASE@[18 - j]);
        } else if j == 19 {
            assert(VIDEO_FETCH_CASE@[19] != VIDEO_FETCH_CASE@[19 - j]);
        } else if j == 20 {
            assert(VIDEO_FETCH_CASE@[20] != VIDEO_FETCH_CASE@[20 - j]);
        } else if j == 21 {
            assert(VIDEO_FETCH_CASE@[21] != VIDEO_FETCH_CASE@[21 - j]);
        } else if j == 22 {
            assert(VIDEO_FETCH_CASE@[22] != VIDEO_FETCH_CASE@[22 - j]);
        } else if j == 23 {
            assert(VIDEO_FETCH_CASE@[23] != VIDEO_FETCH_CASE@[23 - j]);
        } else if j == 24 {
            assert(VIDEO_FETCH_CASE@[24] != VIDEO_FETCH_CASE@[24 - j]);
        } else if j == 25 {
            assert(VIDEO_FETCH_CASE@[25] != VIDEO_FETCH_CASE@[25 - j]);
        } else if j == 26 {
            assert(VIDEO_FETCH_CASE@[26] != VIDEO_FETCH_CASE@[26 - j]);
        } else if j == 27 {
            assert(VIDEO_FETCH_CASE@[27] != VIDEO_FETCH_CASE@[27 - j]);
        } else if j == 28 {
            assert(VIDEO_FETCH_CASE@[28] != VIDEO_FETCH_CASE@[28 - j]);
        } else if j == 29 {
            assert(VIDEO_FETCH_CASE@[29] != VIDEO_FETCH_CASE@[29 - j]);
        } else if j == 30 {
            assert(VIDEO_FETCH_CASE@[30] != VIDEO_FETCH_CASE@[30 - j]);
        } else if j == 31 {
            assert(VIDEO_FETCH_CASE@[31] != VIDEO_FETCH_CASE@[31 - j]);
        } else if j == 32 {
            assert(VIDEO_FETCH_CASE@[32] != VIDEO_FETCH_CASE@[32 - j]);
        } else if j == 33 {
            assert(VIDEO_FETCH_CASE@[33] != VIDEO_FETCH_CASE@[33 - j]);
        } else if j == 34 {
            assert(VIDEO_FETCH_CASE@[34] != VIDEO_FETCH_CASE@[34 - j]);
        } else if j == 35 {
            assert(VIDEO_FETCH_CASE@[35] != VIDEO_FETCH_CASE@[35 - j]);
        } else if j == 36 {
            assert(VIDEO_FETCH_CASE@[36] != VIDEO_FETCH_CASE@[36 - j]);
        } else if j == 37 {
            assert(VIDEO_FETCH_CASE@[37] != VIDEO_FETCH_CASE@[37 - j]);
        }
    }
}

proof fn fact_opts_completion_starts_nowhere_in_video_fetch_case()
    ensures
        starts_nowhere_in(VIDEO_FETCH_CASE@, OPTS_COMPLETION@),
{
    reveal_strlit("rstube__subcmd__videos__subcmd__fetch)");
    reveal_strlit("COMPREPLY=( $(compgen -W \"${opts}\" -- \"${cur}\") )");
    assert forall|j: int| 0 <= j < VIDEO_FETCH_CASE@.len() implies #[trigger] mismatch_at(VIDEO_FETCH_CASE@, OPTS_COMPLETION@, j) by {
        if j == 0 || j == 1 || j == 2 || j == 3 || j == 4 || j == 5 || j == 6 || j == 7
            || j == 8 || j == 9 || j == 10 || j == 11 || j == 12 || j == 13 || j == 14
            || j == 15 || j == 16 || j == 17 || j == 18 || j == 19 || j == 20 || j == 21
            || j == 22 || j == 23 || j == 24 || j == 25 || j == 26 || j == 27 || j == 28
            || j == 29 || j == 30 || j == 31 || j == 32 || j == 33 || j == 34 || j == 35
            || j == 36 || j == 37 {
            assert(OPTS_COMPLETION@[0] != VIDEO_FETCH_CASE@[j]);
        }
    }
}

} // verus!
