//! The audit log: what is recorded for each action, and how it is queried.
use vstd::prelude::*;
use crate::models::LogEntry;
use crate::text::{trim, trim_str};

verus! {

/// How many entries a query returns at most: the asked limit kept within
/// `1..=500`.
pub open spec fn spec_log_limit(limit: i64) -> i64 {
    if limit < 1 {
        1
    } else if limit > 500 {
        500
    } else {
        limit
    }
}

pub fn clamp_log_limit(limit: i64) -> (r: i64)
    ensures
        r == spec_log_limit(limit),
{
    if limit < 1 {
        1
    } else if limit > 500 {
        500
    } else {
        limit
    }
}

/// A log query as asked: the task filter is dropped when it is blank, and
/// the limit is 100 when not given.
pub fn normalize_log_query(task_id: Option<String>, limit: Option<i64>) -> (r: (Option<String>, i64))
    ensures
        match task_id {
            Some(t) => if trim(t@).len() > 0 {
                r.0 is Some && r.0->0@ == t@
            } else {
                r.0 is None
            },
            None => r.0 is None,
        },
        r.1 == match limit {
            Some(l) => l,
            None => 100,
        },
{
    let task = match task_id {
        Some(t) => if trim_str(t.as_str()).unicode_len() > 0 {
            Some(t)
        } else {
            None
        },
        None => None,
    };
    let l = match limit {
        Some(l) => l,
        None => 100,
    };
    (task, l)
}

fn entry(task_id: &str, action: &str, detail: String) -> (r: LogEntry)
    ensures
        r.task_id is Some,
        r.task_id->0@ == task_id@,
        r.action@ == action@,
        r.detail@ == detail@,
{
    LogEntry { task_id: Some(String::from_str(task_id)), action: String::from_str(action), detail }
}

impl LogEntry {
    pub open spec fn is_entry(self, task_id: Seq<char>, action: Seq<char>, detail: Seq<char>) -> bool {
        &&& self.task_id is Some
        &&& self.task_id->0@ == task_id
        &&& self.action@ == action
        &&& self.detail@ == detail
    }

    /// A task was created for a project.
    pub fn created(task_id: &str, project: &str) -> (r: LogEntry)
        ensures
            r.is_entry(task_id@, "create"@, "created task for project="@ + project@),
    {
        let mut d = String::from_str("created task for project=");
        d.append(project);
        entry(task_id, "create", d)
    }

    /// A create request found the project's task and reused it.
    pub fn create_reused(task_id: &str, project: &str) -> (r: LogEntry)
        ensures
            r.is_entry(task_id@, "create_reuse"@, "reuse existing task for project="@ + project@),
    {
        let mut d = String::from_str("reuse existing task for project=");
        d.append(project);
        entry(task_id, "create_reuse", d)
    }

    /// A task's runtime was started.
    pub fn started(task_id: &str) -> (r: LogEntry)
        ensures
            r.is_entry(task_id@, "start"@, "task started"@),
    {
        entry(task_id, "start", String::from_str("task started"))
    }

    /// A task was stopped.
    pub fn stopped(task_id: &str) -> (r: LogEntry)
        ensures
            r.is_entry(task_id@, "stop"@, "task stopped"@),
    {
        entry(task_id, "stop", String::from_str("task stopped"))
    }

    /// A task was deleted.
    pub fn deleted(task_id: &str) -> (r: LogEntry)
        ensures
            r.is_entry(task_id@, "delete"@, "task deleted"@),
    {
        entry(task_id, "delete", String::from_str("task deleted"))
    }

    /// A task's terminal was restarted on its session.
    pub fn ttyd_restarted(task_id: &str) -> (r: LogEntry)
        ensures
            r.is_entry(task_id@, "ttyd_restart"@, "ttyd restarted and reattached"@),
    {
        entry(task_id, "ttyd_restart", String::from_str("ttyd restarted and reattached"))
    }

    /// A task's terminal URL was handed out.
    pub fn terminal_url(task_id: &str, url: &str) -> (r: LogEntry)
        ensures
            r.is_entry(task_id@, "terminal_url"@, url@),
    {
        entry(task_id, "terminal_url", String::from_str(url))
    }

    /// Reconciliation found a task's session gone (whether it is then
    /// recorded as stopped or as failed).
    pub fn reconcile_failed(task_id: &str) -> (r: LogEntry)
        ensures
            r.is_entry(task_id@, "reconcile_mark_error"@, "dtach session down, marked error"@),
    {
        entry(task_id, "reconcile_mark_error", String::from_str("dtach session down, marked error"))
    }

    /// A project directory was found and given a task.
    pub fn discovered(task_id: &str, project: &str) -> (r: LogEntry)
        ensures
            r.is_entry(task_id@, "discover"@, "discovered project directory="@ + project@),
    {
        let mut d = String::from_str("discovered project directory=");
        d.append(project);
        entry(task_id, "discover", d)
    }

    /// A terminal request reached a task: `{method} {path}`.
    pub fn terminal_access(task_id: &str, method: &str, path: &str) -> (r: LogEntry)
        ensures
            r.is_entry(task_id@, "terminal_access"@, method@ + " "@ + path@),
    {
        let mut d = String::from_str(method);
        d.append(" ");
        d.append(path);
        entry(task_id, "terminal_access", d)
    }
}

} // verus!

verus! {

/// A query never asks for fewer than 1 or more than 500 entries, and a
/// limit within that range is taken as it is.
pub proof fn lemma_log_limit_bounds(limit: i64)
    ensures
        1 <= spec_log_limit(limit) <= 500,
        1 <= limit <= 500 ==> spec_log_limit(limit) == limit,
        spec_log_limit(spec_log_limit(limit)) == spec_log_limit(limit),
{
}

} // verus!

verus! {

/// Newest first: each id is larger than every later one.
pub open spec fn newest_first(s: Seq<i64>) -> bool {
    forall|i: int, j: int| 0 <= i < j < s.len() ==> #[trigger] s[i] > #[trigger] s[j]
}

/// The ids of the audit log rows that are kept: the newest (largest) 100
/// ids, newest first. Every other id is older than all of them, and when
/// fewer than 100 are kept, every id is kept.
pub fn retained_log_ids(ids: &Vec<i64>) -> (kept: Vec<i64>)
    ensures
        kept@.len() <= 100,
        newest_first(kept@),
        forall|i: int| 0 <= i < kept@.len() ==> ids@.contains(#[trigger] kept@[i]),
        forall|x: i64|
            #[trigger] ids@.contains(x) ==> kept@.contains(x) || (kept@.len() == 100 && x < kept@.last()),
{
    let mut kept: Vec<i64> = Vec::new();
    let mut done = false;
    while kept.len() < 100 && !done
        invariant
            kept@.len() <= 100,
            newest_first(kept@),
            forall|i: int| 0 <= i < kept@.len() ==> ids@.contains(#[trigger] kept@[i]),
            forall|x: i64|
                #[trigger] ids@.contains(x) && kept@.len() > 0 && x >= kept@.last() ==> kept@.contains(x),
            done ==> forall|x: i64| #[trigger] ids@.contains(x) ==> kept@.contains(x),
        decreases 100 - kept@.len() + if done { 0int } else { 1int },
    {
        let has_last = kept.len() > 0;
        let last: i64 = if has_last { kept[kept.len() - 1] } else { 0 };
        let mut best: Option<i64> = None;
        let mut i: usize = 0;
        while i < ids.len()
            invariant
                i <= ids@.len(),
                has_last == (kept@.len() > 0),
                has_last ==> last == kept@.last(),
                match best {
                    Some(b) => ids@.contains(b) && (!has_last || b < last),
                    None => true,
                },
                forall|j: int|
                    0 <= j < i && (!has_last || #[trigger] ids@[j] < last) ==> match best {
                        Some(b) => ids@[j] <= b,
                        None => false,
                    },
            decreases ids@.len() - i,
        {
            let x = ids[i];
            if !has_last || x < last {
                let better = match best {
                    Some(b) => x > b,
                    None => true,
                };
                if better {
                    best = Some(x);
                }
            }
            i = i + 1;
        }
        match best {
            None => {
                proof {
                    assert forall|x: i64| #[trigger] ids@.contains(x) implies kept@.contains(x) by {
                        let j = choose|j: int| 0 <= j < ids@.len() && ids@[j] == x;
                        assert(!( !has_last || ids@[j] < last));
                    }
                }
                done = true;
            },
            Some(b) => {
                let ghost old_kept = kept@;
                kept.push(b);
                proof {
                    assert forall|p: int, q: int| 0 <= p < q < kept@.len() implies #[trigger] kept@[p] > #[trigger] kept@[q] by {
                        if q == kept@.len() - 1 {
                            if p < old_kept.len() - 1 {
                                assert(old_kept[p] > old_kept[old_kept.len() - 1]);
                            }
                        } else {
                            assert(old_kept[p] > old_kept[q]);
                        }
                    }
                    assert forall|x: i64|
                        #[trigger] ids@.contains(x) && kept@.len() > 0 && x >= kept@.last() implies kept@.contains(x) by {
                        if has_last && x >= last {
                            assert(old_kept.contains(x));
                            let k = choose|k: int| 0 <= k < old_kept.len() && old_kept[k] == x;
                            assert(kept@[k] == x);
                        } else {
                            let j = choose|j: int| 0 <= j < ids@.len() && ids@[j] == x;
                            assert(ids@[j] <= b);
                            assert(kept@[kept@.len() - 1] == x);
                        }
                    }
                    assert forall|k: int| 0 <= k < kept@.len() implies ids@.contains(#[trigger] kept@[k]) by {
                        if k < old_kept.len() {
                            assert(kept@[k] == old_kept[k]);
                        }
                    }
                }
            },
        }
    }
    kept
}

/// Which audit log rows stay and which are deleted.
pub struct LogRetention {
    pub keep: Vec<i64>,
    pub delete: Vec<i64>,
}

/// Only the newest 100 audit log rows are kept: `keep` holds the 100 newest
/// ids (all of them when there are fewer), and `delete` every other listed
/// id, each older than all kept ones.
pub fn plan_log_retention(ids: &Vec<i64>) -> (r: LogRetention)
    ensures
        r.keep@.len() <= 100,
        newest_first(r.keep@),
        forall|x: i64| #[trigger] r.keep@.contains(x) ==> ids@.contains(x),
        forall|x: i64| #[trigger] r.delete@.contains(x) <==> ids@.contains(x) && !r.keep@.contains(x),
        forall|x: i64| #[trigger] r.delete@.contains(x) ==> r.keep@.len() == 100 && x < r.keep@.last(),
{
    let keep = retained_log_ids(ids);
    let mut delete: Vec<i64> = Vec::new();
    let mut i: usize = 0;
    while i < ids.len()
        invariant
            i <= ids@.len(),
            forall|x: i64|
                #[trigger] delete@.contains(x) <==> (exists|j: int| 0 <= j < i && ids@[j] == x) && !keep@.contains(x),
        decreases ids@.len() - i,
    {
        let x = ids[i];
        let mut found = false;
        let mut k: usize = 0;
        while k < keep.len()
            invariant
                k <= keep@.len(),
                found <==> exists|m: int| 0 <= m < k && keep@[m] == x,
            decreases keep@.len() - k,
        {
            if keep[k] == x {
                found = true;
            }
            k = k + 1;
        }
        let ghost before = delete@;
        if !found {
            delete.push(x);
        }
        proof {
            assert forall|y: i64|
                #[trigger] delete@.contains(y) <==> (exists|j: int| 0 <= j < i + 1 && ids@[j] == y) && !keep@.contains(y) by {
                if delete@.contains(y) {
                    let m = choose|m: int| 0 <= m < delete@.len() && delete@[m] == y;
                    if m < before.len() {
                        assert(before[m] == y);
                        assert(before.contains(y));
                    } else {
                        assert(ids@[i as int] == y);
                    }
                }
                if (exists|j: int| 0 <= j < i + 1 && ids@[j] == y) && !keep@.contains(y) {
                    let j = choose|j: int| 0 <= j < i + 1 && ids@[j] == y;
                    if j < i {
                        assert(before.contains(y));
                        let m = choose|m: int| 0 <= m < before.len() && before[m] == y;
                        assert(delete@[m] == y);
                    } else {
                        assert(!found);
                        assert(delete@[delete@.len() - 1] == y);
                    }
                }
            }
        }
        i = i + 1;
    }
    proof {
        assert forall|x: i64| #[trigger] keep@.contains(x) implies ids@.contains(x) by {
            let m = choose|m: int| 0 <= m < keep@.len() && keep@[m] == x;
        }
        assert forall|x: i64| #[trigger] delete@.contains(x) <==> ids@.contains(x) && !keep@.contains(x) by {
            if ids@.contains(x) {
                let j = choose|j: int| 0 <= j < ids@.len() && ids@[j] == x;
            }
        }
    }
    LogRetention { keep, delete }
}

} // verus!
