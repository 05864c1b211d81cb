//! Finding leftover `dtach` and `ttyd` processes, and deciding which to kill
//! and which socket files to remove.
use vstd::prelude::*;
use crate::external::{captures_view, regex_captures, regex_captures_of};
use crate::routes::rows_view;
use crate::text::{contains_text, parse_i64, parse_i64_spec, strings_view};

verus! {

/// What `pgrep -af` is asked for to list the session processes.
pub fn dtach_scan_pattern() -> (r: &'static str)
    ensures
        r@ == "dtach -n /tmp/remote_terminal/"@,
{
    "dtach -n /tmp/remote_terminal/"
}

/// What `pgrep -af` is asked for to list the terminal processes.
pub fn ttyd_scan_pattern() -> (r: &'static str)
    ensures
        r@ == "ttyd -i 127\\.0\\.0\\.1 .* -b /term/"@,
{
    "ttyd -i 127\\.0\\.0\\.1 .* -b /term/"
}

/// The number of times a leftover process is probed after `SIGTERM` before
/// it is killed by force.
pub fn orphan_kill_probe_limit() -> (r: u32)
    ensures
        r == 10,
{
    10
}

/// A `pgrep` line of a session: pid, then `dtach ... -n {socket}`.
pub open spec fn dtach_line_pattern() -> Seq<char> {
    "^\\s*(\\d+)\\s+.*\\bdtach\\b.*\\s-n\\s+(\\S+)"@
}

/// A `pgrep` line of a terminal: pid, then `ttyd ... -b /term/{task id}`.
pub open spec fn ttyd_line_pattern() -> Seq<char> {
    "^\\s*(\\d+)\\s+.*\\bttyd\\b.*-b\\s+/term/([A-Za-z0-9._-]{1,64})"@
}

/// Group `i` of a match, if present and taking part.
pub open spec fn group_at(g: Seq<Option<Seq<char>>>, i: int) -> Option<Seq<char>> {
    if 0 <= i < g.len() {
        g[i]
    } else {
        None
    }
}

/// The `(key, pid)` that a matched line contributes: the pid is group 1 read
/// as a number (0 when it does not read), the key is group 2 (empty when
/// absent); only a pid above 1 with a non-empty key counts.
pub open spec fn entry_of_captures(caps: Option<Option<Seq<Option<Seq<char>>>>>) -> Option<(Seq<char>, i64)> {
    match caps {
        Some(Some(g)) => {
            let pid: i64 = match group_at(g, 1) {
                Some(t) => match parse_i64_spec(t) {
                    Some(p) => p,
                    None => 0,
                },
                None => 0,
            };
            let key = match group_at(g, 2) {
                Some(t) => t,
                None => Seq::empty(),
            };
            if pid > 1 && key.len() > 0 {
                Some((key, pid))
            } else {
                None
            }
        },
        _ => None,
    }
}

pub open spec fn entry_view(e: Option<(String, i64)>) -> Option<(Seq<char>, i64)> {
    match e {
        Some(x) => Some((x.0@, x.1)),
        None => None,
    }
}

/// The entry that the capture groups of a matched line give.
pub fn entry_from_captures(caps: &Option<Option<Vec<Option<String>>>>) -> (r: Option<(String, i64)>)
    ensures
        entry_view(r) == entry_of_captures(captures_view(*caps)),
{
    match caps {
        Some(Some(g)) => {
            let ghost gv = crate::external::groups_view(g@);
            let pid: i64 = if g.len() > 1 {
                match &g[1] {
                    Some(t) => match parse_i64(t.as_str()) {
                        Some(p) => p,
                        None => 0,
                    },
                    None => 0,
                }
            } else {
                0
            };
            let key: String = if g.len() > 2 {
                match &g[2] {
                    Some(t) => t.clone(),
                    None => String::new(),
                }
            } else {
                String::new()
            };
            proof {
                if g@.len() > 1 {
                    assert(gv[1] == match g@[1] { Some(x) => Some(x@), None => None });
                }
                if g@.len() > 2 {
                    assert(gv[2] == match g@[2] { Some(x) => Some(x@), None => None });
                }
            }
            if pid > 1 && key.unicode_len() > 0 {
                Some((key, pid))
            } else {
                None
            }
        },
        _ => None,
    }
}

/// The entries of the lines that `pattern` matches, in line order.
pub open spec fn scanned_entries(pattern: Seq<char>, lines: Seq<Seq<char>>) -> Seq<(Seq<char>, i64)>
    decreases lines.len(),
{
    if lines.len() == 0 {
        Seq::empty()
    } else {
        let prev = scanned_entries(pattern, lines.drop_last());
        match entry_of_captures(regex_captures_of(pattern, lines.last())) {
            Some(e) => prev.push(e),
            None => prev,
        }
    }
}

/// The entries found in `pgrep` lines with `pattern`.
pub fn scan_entries(pattern: &str, lines: &Vec<String>) -> (r: Vec<(String, i64)>)
    ensures
        rows_view(r@) == scanned_entries(pattern@, strings_view(lines@)),
{
    let ghost lv = strings_view(lines@);
    let mut out: Vec<(String, i64)> = Vec::new();
    let mut i: usize = 0;
    while i < lines.len()
        invariant
            i <= lines@.len(),
            lv == strings_view(lines@),
            rows_view(out@) == scanned_entries(pattern@, lv.subrange(0, i as int)),
        decreases lines@.len() - i,
    {
        let caps = regex_captures(pattern, lines[i].as_str());
        let e = entry_from_captures(&caps);
        let ghost before = out@;
        assert(lv.subrange(0, i + 1).drop_last() =~= lv.subrange(0, i as int));
        assert(lv.subrange(0, i + 1).last() == lines@[i as int]@);
        match e {
            Some(x) => {
                out.push(x);
                assert(rows_view(out@) =~= rows_view(before).push(entry_view(e).unwrap()));
            },
            None => {},
        }
        i = i + 1;
    }
    assert(lv.subrange(0, lines@.len() as int) =~= lv);
    out
}

/// The largest pid listed under `key`.
pub open spec fn newest_pid(entries: Seq<(Seq<char>, i64)>, key: Seq<char>) -> Option<i64>
    decreases entries.len(),
{
    if entries.len() == 0 {
        None
    } else {
        let prev = newest_pid(entries.drop_last(), key);
        let e = entries.last();
        if e.0 == key {
            match prev {
                Some(p) => Some(if e.1 > p { e.1 } else { p }),
                None => Some(e.1),
            }
        } else {
            prev
        }
    }
}

/// An entry survives when its key is kept and it has the newest pid of that
/// key.
pub open spec fn spared(entries: Seq<(Seq<char>, i64)>, keep: Seq<Seq<char>>, e: (Seq<char>, i64)) -> bool {
    keep.contains(e.0) && newest_pid(entries, e.0) == Some(e.1)
}

/// The pids to kill among the first `n` entries, in entry order.
pub open spec fn doomed_pids(entries: Seq<(Seq<char>, i64)>, keep: Seq<Seq<char>>, n: int) -> Seq<i64>
    decreases n,
{
    if n <= 0 || n > entries.len() {
        Seq::empty()
    } else {
        let prev = doomed_pids(entries, keep, n - 1);
        let e = entries[n - 1];
        if spared(entries, keep, e) {
            prev
        } else {
            prev.push(e.1)
        }
    }
}

/// Whether an entry before `i` has the same key as entry `i`.
pub open spec fn key_seen_before(entries: Seq<(Seq<char>, i64)>, i: int) -> bool {
    exists|j: int| 0 <= j < i && #[trigger] entries[j].0 == entries[i].0
}

/// The keys, not kept, of the first `n` entries, each once, in order of
/// first appearance.
pub open spec fn orphan_keys(entries: Seq<(Seq<char>, i64)>, keep: Seq<Seq<char>>, n: int) -> Seq<Seq<char>>
    decreases n,
{
    if n <= 0 || n > entries.len() {
        Seq::empty()
    } else {
        let prev = orphan_keys(entries, keep, n - 1);
        let e = entries[n - 1];
        if keep.contains(e.0) || key_seen_before(entries, n - 1) {
            prev
        } else {
            prev.push(e.0)
        }
    }
}

/// The newest pid listed under `key`.
pub fn find_newest_pid(entries: &Vec<(String, i64)>, key: &str) -> (r: Option<i64>)
    ensures
        r == newest_pid(rows_view(entries@), key@),
{
    let ghost ev = rows_view(entries@);
    let mut best: Option<i64> = None;
    let mut i: usize = 0;
    while i < entries.len()
        invariant
            i <= entries@.len(),
            ev == rows_view(entries@),
            best == newest_pid(ev.subrange(0, i as int), key@),
        decreases entries@.len() - i,
    {
        assert(ev.subrange(0, i + 1).drop_last() =~= ev.subrange(0, i as int));
        assert(ev.subrange(0, i + 1).last() == ev[i as int]);
        if crate::text::str_equal(entries[i].0.as_str(), key) {
            let p = entries[i].1;
            best = match best {
                Some(b) => Some(if p > b { p } else { b }),
                None => Some(p),
            };
        }
        i = i + 1;
    }
    assert(ev.subrange(0, entries@.len() as int) =~= ev);
    best
}

/// The pids among `entries` that are not spared for `keep`.
pub fn doomed_pid_list(entries: &Vec<(String, i64)>, keep: &Vec<String>) -> (r: Vec<i64>)
    ensures
        r@ == doomed_pids(rows_view(entries@), strings_view(keep@), entries@.len() as int),
{
    let ghost ev = rows_view(entries@);
    let ghost kv = strings_view(keep@);
    let mut out: Vec<i64> = Vec::new();
    let mut i: usize = 0;
    while i < entries.len()
        invariant
            i <= entries@.len(),
            ev == rows_view(entries@),
            kv == strings_view(keep@),
            out@ == doomed_pids(ev, kv, i as int),
        decreases entries@.len() - i,
    {
        let key = entries[i].0.as_str();
        let kept = contains_text(keep, key);
        let newest = find_newest_pid(entries, key);
        let is_spared = kept && match newest {
            Some(p) => p == entries[i].1,
            None => false,
        };
        assert(ev[i as int] == (entries@[i as int].0@, entries@[i as int].1));
        if !is_spared {
            out.push(entries[i].1);
        }
        i = i + 1;
    }
    out
}

/// The keys of `entries` that are not kept, each once.
pub fn orphan_key_list(entries: &Vec<(String, i64)>, keep: &Vec<String>) -> (r: Vec<String>)
    ensures
        strings_view(r@) == orphan_keys(rows_view(entries@), strings_view(keep@), entries@.len() as int),
{
    let ghost ev = rows_view(entries@);
    let ghost kv = strings_view(keep@);
    let mut out: Vec<String> = Vec::new();
    let mut i: usize = 0;
    while i < entries.len()
        invariant
            i <= entries@.len(),
            ev == rows_view(entries@),
            kv == strings_view(keep@),
            strings_view(out@) == orphan_keys(ev, kv, i as int),
        decreases entries@.len() - i,
    {
        let key = entries[i].0.as_str();
        assert(ev[i as int] == (entries@[i as int].0@, entries@[i as int].1));
        let mut seen = false;
        let mut j: usize = 0;
        while j < i
            invariant
                j <= i < entries@.len(),
                ev == rows_view(entries@),
                key@ == ev[i as int].0,
                seen <==> exists|k: int| 0 <= k < j && #[trigger] ev[k].0 == ev[i as int].0,
            decreases i - j,
        {
            assert(ev[j as int] == (entries@[j as int].0@, entries@[j as int].1));
            let same = crate::text::str_equal(entries[j].0.as_str(), key);
            if same {
                seen = true;
                assert(ev[j as int].0 == ev[i as int].0);
            }
            proof {
                if !same {
                    assert(ev[j as int].0 != ev[i as int].0);
                    assert forall|k: int| 0 <= k < j + 1 && #[trigger] ev[k].0 == ev[i as int].0 implies k < j by {}
                }
            }
            j = j + 1;
        }
        let kept = contains_text(keep, key);
        if !kept && !seen {
            let ghost before = out@;
            out.push(entries[i].0.clone());
            assert(strings_view(out@) =~= strings_view(before).push(key@));
        }
        i = i + 1;
    }
    out
}

/// What to do with leftover processes: kill the session pids, then remove
/// the socket files, then kill the terminal pids.
pub struct CleanupPlan {
    pub session_kills: Vec<i64>,
    pub socket_removals: Vec<String>,
    pub terminal_kills: Vec<i64>,
}

/// Plans the cleanup of leftover processes from the `pgrep` lines of sessions
/// and terminals: within each socket (session) and each task id (terminal),
/// the newest process is kept when that socket or id is kept, and every
/// other listed process is killed; the socket files of sockets not kept are
/// removed.
pub fn plan_orphan_cleanup(
    dtach_lines: &Vec<String>,
    ttyd_lines: &Vec<String>,
    keep_ids: &Vec<String>,
    keep_socks: &Vec<String>,
) -> (r: CleanupPlan)
    ensures
        ({
            let d = scanned_entries(dtach_line_pattern(), strings_view(dtach_lines@));
            let t = scanned_entries(ttyd_line_pattern(), strings_view(ttyd_lines@));
            &&& r.session_kills@ == doomed_pids(d, strings_view(keep_socks@), d.len() as int)
            &&& strings_view(r.socket_removals@) == orphan_keys(d, strings_view(keep_socks@), d.len() as int)
            &&& r.terminal_kills@ == doomed_pids(t, strings_view(keep_ids@), t.len() as int)
        }),
{
    let dtach_pattern = "^\\s*(\\d+)\\s+.*\\bdtach\\b.*\\s-n\\s+(\\S+)";
    let ttyd_pattern = "^\\s*(\\d+)\\s+.*\\bttyd\\b.*-b\\s+/term/([A-Za-z0-9._-]{1,64})";
    let sessions = scan_entries(dtach_pattern, dtach_lines);
    let terminals = scan_entries(ttyd_pattern, ttyd_lines);
    CleanupPlan {
        session_kills: doomed_pid_list(&sessions, keep_socks),
        socket_removals: orphan_key_list(&sessions, keep_socks),
        terminal_kills: doomed_pid_list(&terminals, keep_ids),
    }
}

} // verus!

verus! {

/// `newest_pid` is the largest pid listed under the key, and `None` exactly
/// when the key is not listed.
pub proof fn lemma_newest_pid_is_max(entries: Seq<(Seq<char>, i64)>, key: Seq<char>)
    ensures
        match newest_pid(entries, key) {
            Some(p) => (exists|i: int| 0 <= i < entries.len() && #[trigger] entries[i] == (key, p))
                && forall|i: int|
                0 <= i < entries.len() && #[trigger] entries[i].0 == key ==> entries[i].1 <= p,
            None => forall|i: int| 0 <= i < entries.len() ==> #[trigger] entries[i].0 != key,
        },
    decreases entries.len(),
{
    if entries.len() > 0 {
        let prev = entries.drop_last();
        lemma_newest_pid_is_max(prev, key);
        let n = entries.len() - 1;
        assert forall|i: int| 0 <= i < n implies #[trigger] entries[i] == prev[i] by {}
        match newest_pid(prev, key) {
            Some(q) => {
                let w = choose|i: int| 0 <= i < prev.len() && #[trigger] prev[i] == (key, q);
                assert(entries[w] == prev[w]);
            },
            None => {},
        }
    }
}

/// Every pid of scanned entries is above 1 and every key is non-empty.
pub proof fn lemma_scanned_entries_valid(pattern: Seq<char>, lines: Seq<Seq<char>>)
    ensures
        forall|i: int|
            0 <= i < scanned_entries(pattern, lines).len() ==> #[trigger] scanned_entries(pattern, lines)[i].1 > 1
                && scanned_entries(pattern, lines)[i].0.len() > 0,
    decreases lines.len(),
{
    if lines.len() > 0 {
        lemma_scanned_entries_valid(pattern, lines.drop_last());
        let prev = scanned_entries(pattern, lines.drop_last());
        let cur = scanned_entries(pattern, lines);
        let caps = regex_captures_of(pattern, lines.last());
        match entry_of_captures(caps) {
            Some(x) => {
                assert(x.1 > 1 && x.0.len() > 0);
                assert forall|i: int| 0 <= i < cur.len() implies #[trigger] cur[i].1 > 1 && cur[i].0.len() > 0 by {
                    if i < prev.len() {
                        assert(cur[i] == prev[i]);
                    }
                }
            },
            None => {},
        }
    }
}

/// A pid is killed exactly when some entry with that pid is not spared.
pub proof fn lemma_doomed_pids_members(entries: Seq<(Seq<char>, i64)>, keep: Seq<Seq<char>>, n: int)
    requires
        0 <= n <= entries.len(),
    ensures
        forall|p: i64|
            doomed_pids(entries, keep, n).contains(p) <==> exists|i: int|
                0 <= i < n && #[trigger] entries[i].1 == p && !spared(entries, keep, entries[i]),
    decreases n,
{
    if n > 0 {
        lemma_doomed_pids_members(entries, keep, n - 1);
        let prev = doomed_pids(entries, keep, n - 1);
        let e = entries[n - 1];
        assert forall|p: i64|
            doomed_pids(entries, keep, n).contains(p) implies exists|i: int|
                0 <= i < n && #[trigger] entries[i].1 == p && !spared(entries, keep, entries[i]) by {
            if prev.contains(p) {
                let i = choose|i: int|
                    0 <= i < n - 1 && #[trigger] entries[i].1 == p && !spared(entries, keep, entries[i]);
            } else {
                let cur = doomed_pids(entries, keep, n);
                let k = choose|k: int| 0 <= k < cur.len() && cur[k] == p;
                assert(k == prev.len());
                assert(entries[n - 1].1 == p);
            }
        }
        assert forall|p: i64|
            (exists|i: int| 0 <= i < n && #[trigger] entries[i].1 == p && !spared(entries, keep, entries[i]))
            implies doomed_pids(entries, keep, n).contains(p) by {
            let i = choose|i: int| 0 <= i < n && #[trigger] entries[i].1 == p && !spared(entries, keep, entries[i]);
            let cur = doomed_pids(entries, keep, n);
            if i < n - 1 {
                assert(prev.contains(p));
                let k = choose|k: int| 0 <= k < prev.len() && prev[k] == p;
                assert(cur[k] == p);
            } else {
                assert(cur[cur.len() - 1] == p);
            }
        }
    }
}

/// A key's socket is removed exactly when the key is listed and not kept,
/// and no key is removed twice.
pub proof fn lemma_orphan_keys_members(entries: Seq<(Seq<char>, i64)>, keep: Seq<Seq<char>>, n: int)
    requires
        0 <= n <= entries.len(),
    ensures
        forall|k: Seq<char>|
            orphan_keys(entries, keep, n).contains(k) <==> !keep.contains(k) && exists|i: int|
                0 <= i < n && #[trigger] entries[i].0 == k,
        orphan_keys(entries, keep, n).no_duplicates(),
    decreases n,
{
    if n > 0 {
        lemma_orphan_keys_members(entries, keep, n - 1);
        let prev = orphan_keys(entries, keep, n - 1);
        let cur = orphan_keys(entries, keep, n);
        let e = entries[n - 1];
        assert forall|k: Seq<char>|
            cur.contains(k) <==> !keep.contains(k) && exists|i: int| 0 <= i < n && #[trigger] entries[i].0 == k by {
            if cur.contains(k) {
                if prev.contains(k) {
                } else {
                    let j = choose|j: int| 0 <= j < cur.len() && cur[j] == k;
                    assert(j == prev.len());
                    assert(entries[n - 1].0 == k);
                }
            }
            if !keep.contains(k) && exists|i: int| 0 <= i < n && #[trigger] entries[i].0 == k {
                let i = choose|i: int| 0 <= i < n && #[trigger] entries[i].0 == k;
                if i < n - 1 {
                    assert(prev.contains(k));
                    let j = choose|j: int| 0 <= j < prev.len() && prev[j] == k;
                    assert(cur[j] == k);
                } else if key_seen_before(entries, n - 1) {
                    let j0 = choose|j: int| 0 <= j < n - 1 && #[trigger] entries[j].0 == entries[n - 1].0;
                    assert(prev.contains(k));
                    let j = choose|j: int| 0 <= j < prev.len() && prev[j] == k;
                    assert(cur[j] == k);
                } else {
                    assert(cur[cur.len() - 1] == k);
                }
            }
        }
        if !keep.contains(e.0) && !key_seen_before(entries, n - 1) {
            assert(!prev.contains(e.0));
            assert forall|a: int, b: int| 0 <= a < cur.len() && 0 <= b < cur.len() && a != b implies cur[a] != cur[b] by {
                if a < prev.len() && b < prev.len() {
                } else if a < prev.len() {
                    assert(cur[b] == e.0);
                    assert(prev[a] == cur[a]);
                } else if b < prev.len() {
                    assert(cur[a] == e.0);
                    assert(prev[b] == cur[b]);
                }
            }
        }
    }
}

/// What the cleanup plan promises, for the entries of either kind: a pid is
/// killed exactly when one of its entries is not the newest of a kept key;
/// within a kept key the newest pid is spared and every listed pid is at most
/// it; killed pids are above 1; a socket is removed exactly when it is listed
/// and not kept, and at most once.
pub proof fn lemma_cleanup_plan(
    pattern: Seq<char>,
    lines: Seq<Seq<char>>,
    keep: Seq<Seq<char>>,
)
    ensures
        ({
            let e = scanned_entries(pattern, lines);
            let kills = doomed_pids(e, keep, e.len() as int);
            let removals = orphan_keys(e, keep, e.len() as int);
            &&& forall|p: i64|
                kills.contains(p) <==> exists|i: int|
                    0 <= i < e.len() && #[trigger] e[i].1 == p && !(keep.contains(e[i].0) && newest_pid(e, e[i].0) == Some(p))
            &&& forall|p: i64| kills.contains(p) ==> p > 1
            &&& forall|i: int, j: int|
                0 <= i < e.len() && 0 <= j < e.len() && #[trigger] e[i].0 == #[trigger] e[j].0 && keep.contains(e[i].0)
                    && newest_pid(e, e[i].0) == Some(e[j].1) ==> e[i].1 <= e[j].1
            &&& forall|k: Seq<char>|
                removals.contains(k) <==> !keep.contains(k) && exists|i: int| 0 <= i < e.len() && #[trigger] e[i].0 == k
            &&& removals.no_duplicates()
        }),
{
    let e = scanned_entries(pattern, lines);
    lemma_doomed_pids_members(e, keep, e.len() as int);
    lemma_orphan_keys_members(e, keep, e.len() as int);
    lemma_scanned_entries_valid(pattern, lines);
    assert forall|i: int, j: int|
        0 <= i < e.len() && 0 <= j < e.len() && #[trigger] e[i].0 == #[trigger] e[j].0 && keep.contains(e[i].0)
            && newest_pid(e, e[i].0) == Some(e[j].1) implies e[i].1 <= e[j].1 by {
        lemma_newest_pid_is_max(e, e[i].0);
    }
    let kills = doomed_pids(e, keep, e.len() as int);
    assert forall|p: i64| kills.contains(p) implies p > 1 by {
        let i = choose|i: int| 0 <= i < e.len() && #[trigger] e[i].1 == p && !spared(e, keep, e[i]);
    }
}

} // verus!

verus! {

/// The terminal scan reads a line's task id with the pattern that project
/// names are accepted by: the line pattern ends in `/term/(` and `)` around
/// that pattern without its `^` and `$` anchors. Task ids are project names,
/// so the ids the scan can capture are the same characters, in the same
/// lengths, as the names a task can have. Both scans read a line's pid the
/// same way: their patterns agree up to the process name.
pub proof fn lemma_terminal_scan_reads_project_names()
    ensures
        ({
            let p = crate::external::project_name_pattern();
            let class = p.subrange(1, p.len() - 1);
            &&& p == "^"@ + class + "$"@
            &&& ("/term/("@ + class + ")"@).is_suffix_of(ttyd_line_pattern())
            &&& dtach_line_pattern().subrange(0, 16) == ttyd_line_pattern().subrange(0, 16)
        }),
{
    reveal_strlit("^[A-Za-z0-9._-]{1,64}$");
    reveal_strlit("^\\s*(\\d+)\\s+.*\\bttyd\\b.*-b\\s+/term/([A-Za-z0-9._-]{1,64})");
    reveal_strlit("^\\s*(\\d+)\\s+.*\\bdtach\\b.*\\s-n\\s+(\\S+)");
    reveal_strlit("^");
    reveal_strlit("$");
    reveal_strlit("/term/(");
    reveal_strlit(")");
    let p = crate::external::project_name_pattern();
    let class = p.subrange(1, p.len() - 1);
    let t = ttyd_line_pattern();
    let suffix = "/term/("@ + class + ")"@;
    assert(p =~= "^"@ + class + "$"@);
    assert(t.subrange(t.len() - suffix.len(), t.len() as int) =~= suffix);
    assert(dtach_line_pattern().subrange(0, 16) =~= t.subrange(0, 16));
}

} // verus!
