//! Which names are projects, and which project directories become tasks.
use vstd::prelude::*;
use crate::error::AppError;
use crate::external::{is_project_char, is_project_charset_name, regex_captures};
use crate::text::{
    chars_of, is_text_less, is_ws, join_path, join_paths, lemma_text_less_irreflexive,
    lemma_text_less_total,
    lemma_text_less_transitive,
    lemma_trim_shape, strings_view, text_less, trim, trim_str,
};

verus! {

/// A project name is accepted when, with surrounding whitespace removed, it
/// is 1 to 64 ASCII letters, digits, `.`, `_` or `-`, and is not `.` or `..`.
pub open spec fn project_accepted(p: Seq<char>) -> bool {
    let t = trim(p);
    &&& is_project_charset_name(t)
    &&& t != seq!['.']
    &&& t != seq!['.', '.']
}

pub open spec fn charset_message() -> Seq<char> {
    "project 仅允许 1-64 位字母、数字、点、下划线、短横线"@
}

pub open spec fn dot_name_message() -> Seq<char> {
    "project 名称非法"@
}

/// Checks a project name and returns it trimmed.
pub fn validate_project(project: &str) -> (r: Result<String, AppError>)
    ensures
        match r {
            Ok(name) => project_accepted(project@) && name@ == trim(project@),
            Err(e) => {
                &&& !project_accepted(project@)
                &&& e is BadRequest
                &&& e.spec_message() == if !is_project_charset_name(trim(project@)) {
                    charset_message()
                } else {
                    dot_name_message()
                }
            },
        },
{
    let trimmed = trim_str(project);
    let caps = regex_captures("^[A-Za-z0-9._-]{1,64}$", trimmed);
    let matched = match caps {
        Some(Some(_)) => true,
        _ => false,
    };
    if !matched {
        return Err(
            AppError::BadRequest(
                String::from_str("project 仅允许 1-64 位字母、数字、点、下划线、短横线"),
            ),
        );
    }
    let v = chars_of(trimmed);
    if (v.len() == 1 && v[0] == '.') || (v.len() == 2 && v[0] == '.' && v[1] == '.') {
        proof {
            if v@.len() == 1 {
                assert(v@ =~= seq!['.']);
            } else {
                assert(v@ =~= seq!['.', '.']);
            }
        }
        return Err(AppError::BadRequest(String::from_str("project 名称非法")));
    }
    proof {
        if v@ == seq!['.'] {
            assert(v@.len() == 1 && v@[0] == '.');
        }
        if v@ == seq!['.', '.'] {
            assert(v@.len() == 2 && v@[0] == '.' && v@[1] == '.');
        }
    }
    Ok(String::from_str(trimmed))
}

/// An accepted project name is one path segment: it holds no `/` and no
/// whitespace, and is neither `.` nor `..`; validating it again gives it back.
pub proof fn lemma_accepted_project_is_plain_segment(p: Seq<char>)
    requires
        project_accepted(p),
    ensures
        !trim(p).contains('/'),
        forall|i: int| 0 <= i < trim(p).len() ==> !is_ws(#[trigger] trim(p)[i]),
        trim(trim(p)) == trim(p),
        project_accepted(trim(p)),
{
    let t = trim(p);
    assert forall|i: int| 0 <= i < t.len() implies !is_ws(#[trigger] t[i]) by {
        assert(is_project_char(t[i]));
    }
    if t.contains('/') {
        let i = choose|i: int| 0 <= i < t.len() && t[i] == '/';
        assert(is_project_char(t[i]));
    }
    lemma_trim_shape(t);
}

/// The working directory of a project: the project joined to the root.
pub fn project_workdir(allowed_root: &str, project: &str) -> (r: String)
    ensures
        r@ == join_path(allowed_root@, project@),
{
    join_paths(allowed_root, project)
}

/// Strictly increasing in `text_less`, hence without repeats.
pub open spec fn strictly_sorted(s: Seq<Seq<char>>) -> bool {
    forall|i: int, j: int| 0 <= i < j < s.len() ==> text_less(#[trigger] s[i], #[trigger] s[j])
}

/// `t` is the accepted, trimmed form of one of `names`.
pub open spec fn names_yield(names: Seq<Seq<char>>, t: Seq<char>) -> bool {
    exists|k: int| 0 <= k < names.len() && project_accepted(#[trigger] names[k]) && trim(names[k]) == t
}

/// The projects found among directory names: the accepted ones, trimmed,
/// sorted and without repeats.
pub fn discoverable_projects(names: &Vec<String>) -> (r: Vec<String>)
    ensures
        strictly_sorted(strings_view(r@)),
        forall|t: Seq<char>| strings_view(r@).contains(t) <==> names_yield(strings_view(names@), t),
{
    let ghost nv = strings_view(names@);
    let mut out: Vec<String> = Vec::new();
    let mut keys: Vec<Vec<char>> = Vec::new();
    let mut i: usize = 0;
    while i < names.len()
        invariant
            i <= names@.len(),
            nv == strings_view(names@),
            out@.len() == keys@.len(),
            forall|j: int| 0 <= j < keys@.len() ==> #[trigger] keys@[j]@ == out@[j]@,
            strictly_sorted(strings_view(out@)),
            forall|t: Seq<char>|
                strings_view(out@).contains(t) <==> names_yield(nv.subrange(0, i as int), t),
        decreases names@.len() - i,
    {
        let ghost before = strings_view(out@);
        let ghost sub_old = nv.subrange(0, i as int);
        let ghost sub_new = nv.subrange(0, i + 1);
        assert(forall|t: Seq<char>| #[trigger] before.contains(t) <==> names_yield(sub_old, t));
        assert forall|t: Seq<char>| names_yield(sub_old, t) implies names_yield(sub_new, t) by {
            let k = choose|k: int|
                0 <= k < sub_old.len() && project_accepted(#[trigger] sub_old[k]) && trim(sub_old[k]) == t;
            assert(sub_new[k] == sub_old[k]);
        }
        match validate_project(names[i].as_str()) {
            Ok(name) => {
                let key = chars_of(name.as_str());
                let mut k: usize = 0;
                while k < keys.len() && is_text_less(&keys[k], &key)
                    invariant
                        k <= keys@.len(),
                        forall|j: int| 0 <= j < k ==> text_less(#[trigger] keys@[j]@, key@),
                    decreases keys@.len() - k,
                {
                    k = k + 1;
                }
                let present = k < keys.len() && !is_text_less(&key, &keys[k]);
                if !present {
                    proof {
                        if k < keys@.len() {
                            assert(text_less(key@, keys@[k as int]@));
                        }
                    }
                    let ghost keys_before = keys@;
                    let ghost out_before = out@;
                    keys.insert(k, key);
                    out.insert(k, name);
                    proof {
                        let after = strings_view(out@);
                        assert(after =~= before.insert(k as int, name@));
                        assert forall|a: int, b: int| 0 <= a < b < after.len() implies text_less(
                            #[trigger] after[a],
                            #[trigger] after[b],
                        ) by {
                            if a < k && b == k {
                                assert(keys@[a]@ == before[a]);
                            } else if a == k && b > k {
                                assert(before[b - 1] == after[b]);
                                if b - 1 > k {
                                    assert(text_less(before[k as int], before[b - 1]));
                                    lemma_text_less_transitive(key@, before[k as int], before[b - 1]);
                                }
                            } else if a < k && b > k {
                                assert(before[b - 1] == after[b]);
                            } else if a > k {
                                assert(before[a - 1] == after[a]);
                                assert(before[b - 1] == after[b]);
                            }
                        }
                        assert forall|j: int| 0 <= j < keys@.len() implies #[trigger] keys@[j]@ == out@[j]@ by {
                            if j < k {
                                assert(keys@[j] == keys_before[j]);
                                assert(out@[j] == out_before[j]);
                            } else if j > k {
                                assert(keys@[j] == keys_before[j - 1]);
                                assert(out@[j] == out_before[j - 1]);
                            }
                        }
                    }
                } else {
                    proof {
                        lemma_text_less_total(key@, keys@[k as int]@);
                    }
                }
                proof {
                    assert(sub_new[i as int] == nv[i as int]);
                    assert(names_yield(sub_new, name@));
                    let after = strings_view(out@);
                    if present {
                        lemma_text_less_total(key@, keys@[k as int]@);
                        assert(before[k as int] == name@);
                    } else {
                        assert(after =~= before.insert(k as int, name@));
                    }
                    assert forall|t: Seq<char>| after.contains(t) implies names_yield(sub_new, t) by {
                        let j = choose|j: int| 0 <= j < after.len() && after[j] == t;
                        if t != name@ {
                            if present {
                                assert(before.contains(t));
                            } else if j < k {
                                assert(before[j] == t);
                                assert(before.contains(t));
                            } else {
                                assert(before[j - 1] == t);
                                assert(before.contains(t));
                            }
                            assert(names_yield(sub_old, t));
                        }
                    }
                    assert forall|t: Seq<char>| names_yield(sub_new, t) implies after.contains(t) by {
                        let kk = choose|kk: int|
                            0 <= kk < sub_new.len() && project_accepted(#[trigger] sub_new[kk]) && trim(sub_new[kk]) == t;
                        if kk < i {
                            assert(sub_old[kk] == sub_new[kk]);
                            assert(names_yield(sub_old, t));
                            assert(before.contains(t));
                            let j = choose|j: int| 0 <= j < before.len() && before[j] == t;
                            if !present {
                                if j < k {
                                    assert(after[j] == t);
                                } else {
                                    assert(after[j + 1] == t);
                                }
                            }
                        } else {
                            assert(after[k as int] == t);
                        }
                    }
                }
            },
            Err(_) => {
                proof {
                    assert forall|t: Seq<char>| names_yield(sub_new, t) implies names_yield(sub_old, t) by {
                        let kk = choose|kk: int|
                            0 <= kk < sub_new.len() && project_accepted(#[trigger] sub_new[kk]) && trim(sub_new[kk]) == t;
                        assert(sub_old[kk] == sub_new[kk]);
                    }
                }
            },
        }
        i = i + 1;
    }
    assert(nv.subrange(0, names@.len() as int) =~= nv);
    out
}

/// Discovered projects come without repeats: a strictly sorted list holds
/// each name once.
pub proof fn lemma_sorted_projects_are_unique(s: Seq<Seq<char>>)
    requires
        strictly_sorted(s),
    ensures
        s.no_duplicates(),
{
    assert forall|i: int, j: int| 0 <= i < s.len() && 0 <= j < s.len() && i != j implies s[i] != s[j] by {
        if i < j {
            assert(text_less(s[i], s[j]));
        } else {
            assert(text_less(s[j], s[i]));
        }
        lemma_text_less_irreflexive(s[i]);
    }
}

} // verus!

verus! {

/// Whether a task of `project` is among `tasks`.
pub open spec fn has_project(tasks: Seq<crate::models::Task>, project: Seq<char>) -> bool {
    exists|k: int| 0 <= k < tasks.len() && #[trigger] tasks[k].project@ == project
}

/// The listed tasks: in order, the first task of each project that is one
/// of the given directories.
pub open spec fn tasks_in(tasks: Seq<crate::models::Task>, dirs: Seq<Seq<char>>) -> Seq<crate::models::Task>
    decreases tasks.len(),
{
    if tasks.len() == 0 {
        Seq::empty()
    } else {
        let prev = tasks_in(tasks.drop_last(), dirs);
        let p = tasks.last().project@;
        if dirs.contains(p) && !has_project(prev, p) {
            prev.push(tasks.last())
        } else {
            prev
        }
    }
}

/// The task list follows the project directories: one task per directory
/// that has any, the first of its tasks in the given order.
pub fn tasks_of_directories(tasks: Vec<crate::models::Task>, dirs: &Vec<String>) -> (r: Vec<crate::models::Task>)
    ensures
        r@ == tasks_in(tasks@, strings_view(dirs@)),
{
    let ghost tv = tasks@;
    let ghost dv = strings_view(dirs@);
    let mut out: Vec<crate::models::Task> = Vec::new();
    let mut rest = tasks;
    let n = rest.len();
    let mut i: usize = 0;
    while i < n
        invariant
            i <= n,
            n == tv.len(),
            rest@ == tv.subrange(i as int, n as int),
            out@ == tasks_in(tv.subrange(0, i as int), dv),
            dv == strings_view(dirs@),
        decreases n - i,
    {
        let t = rest.remove(0);
        assert(t == tv[i as int]);
        assert(rest@ =~= tv.subrange(i + 1, n as int));
        assert(tv.subrange(0, i + 1).drop_last() =~= tv.subrange(0, i as int));
        assert(tv.subrange(0, i + 1).last() == t);
        let mut seen = false;
        let mut k: usize = 0;
        while k < out.len()
            invariant
                k <= out@.len(),
                seen <==> exists|m: int| 0 <= m < k && #[trigger] out@[m].project@ == t.project@,
            decreases out@.len() - k,
        {
            if crate::text::str_equal(out[k].project.as_str(), t.project.as_str()) {
                seen = true;
            }
            k = k + 1;
        }
        if crate::text::contains_text(dirs, t.project.as_str()) && !seen {
            out.push(t);
        }
        i = i + 1;
    }
    assert(tv.subrange(0, n as int) =~= tv);
    out
}

/// The listing holds only tasks of found directories, at most one per
/// project, and one for every found directory that has a task.
pub proof fn lemma_tasks_in_members(tasks: Seq<crate::models::Task>, dirs: Seq<Seq<char>>)
    ensures
        forall|t: crate::models::Task|
            #[trigger] tasks_in(tasks, dirs).contains(t) ==> tasks.contains(t) && dirs.contains(t.project@),
        forall|i: int, j: int|
            0 <= i < j < tasks_in(tasks, dirs).len() ==> #[trigger] tasks_in(tasks, dirs)[i].project@
                != #[trigger] tasks_in(tasks, dirs)[j].project@,
        forall|p: Seq<char>| dirs.contains(p) && #[trigger] has_project(tasks, p) ==> has_project(tasks_in(tasks, dirs), p),
    decreases tasks.len(),
{
    if tasks.len() > 0 {
        let prev = tasks.drop_last();
        lemma_tasks_in_members(prev, dirs);
        let cur = tasks_in(tasks, dirs);
        let pr = tasks_in(prev, dirs);
        let last = tasks.last();
        let added = dirs.contains(last.project@) && !has_project(pr, last.project@);
        assert(cur == if added { pr.push(last) } else { pr });
        assert forall|t: crate::models::Task| #[trigger] cur.contains(t) implies tasks.contains(t) && dirs.contains(t.project@) by {
            let j = choose|j: int| 0 <= j < cur.len() && cur[j] == t;
            if j < pr.len() {
                assert(pr[j] == t);
                assert(pr.contains(t));
                let k = choose|k: int| 0 <= k < prev.len() && prev[k] == t;
                assert(tasks[k] == t);
            } else {
                assert(tasks[tasks.len() - 1] == t);
            }
        }
        assert forall|i: int, j: int| 0 <= i < j < cur.len() implies #[trigger] cur[i].project@ != #[trigger] cur[j].project@ by {
            if j < pr.len() {
                assert(cur[i] == pr[i] && cur[j] == pr[j]);
            } else {
                assert(cur[i] == pr[i]);
                if cur[i].project@ == cur[j].project@ {
                    assert(has_project(pr, last.project@));
                }
            }
        }
        assert forall|p: Seq<char>| dirs.contains(p) && #[trigger] has_project(tasks, p) implies has_project(cur, p) by {
            let k = choose|k: int| 0 <= k < tasks.len() && #[trigger] tasks[k].project@ == p;
            if k < tasks.len() - 1 {
                assert(prev[k].project@ == p);
                assert(has_project(prev, p));
                assert(has_project(pr, p));
                let m = choose|m: int| 0 <= m < pr.len() && #[trigger] pr[m].project@ == p;
                assert(cur[m] == pr[m]);
            } else if added {
                assert(cur[cur.len() - 1].project@ == p);
            } else {
                assert(has_project(pr, p));
                let m = choose|m: int| 0 <= m < pr.len() && #[trigger] pr[m].project@ == p;
                assert(cur[m] == pr[m]);
            }
        }
    }
}

/// The projects that discovery gives a task: the found projects that have
/// none yet, in order.
pub open spec fn projects_without_task(found: Seq<Seq<char>>, stored: Seq<Seq<char>>) -> Seq<Seq<char>>
    decreases found.len(),
{
    if found.len() == 0 {
        Seq::empty()
    } else {
        let prev = projects_without_task(found.drop_last(), stored);
        if stored.contains(found.last()) {
            prev
        } else {
            prev.push(found.last())
        }
    }
}

/// The found projects (as `discoverable_projects` gives them) that have no
/// stored task: the ones discovery creates a task for.
pub fn new_projects(found: &Vec<String>, stored: &Vec<String>) -> (r: Vec<String>)
    ensures
        strings_view(r@) == projects_without_task(strings_view(found@), strings_view(stored@)),
{
    let ghost fv = strings_view(found@);
    let mut out: Vec<String> = Vec::new();
    let mut i: usize = 0;
    while i < found.len()
        invariant
            i <= found@.len(),
            fv == strings_view(found@),
            strings_view(out@) == projects_without_task(fv.subrange(0, i as int), strings_view(stored@)),
        decreases found@.len() - i,
    {
        assert(fv.subrange(0, i + 1).drop_last() =~= fv.subrange(0, i as int));
        assert(fv.subrange(0, i + 1).last() == found@[i as int]@);
        if !crate::text::contains_text(stored, found[i].as_str()) {
            let ghost before = strings_view(out@);
            out.push(found[i].clone());
            assert(strings_view(out@) =~= before.push(found@[i as int]@));
        }
        i = i + 1;
    }
    assert(fv.subrange(0, found@.len() as int) =~= fv);
    out
}

proof fn lemma_projects_without_task_members(found: Seq<Seq<char>>, stored: Seq<Seq<char>>)
    ensures
        forall|p: Seq<char>|
            #[trigger] projects_without_task(found, stored).contains(p) <==> found.contains(p) && !stored.contains(p),
    decreases found.len(),
{
    if found.len() > 0 {
        let prev = found.drop_last();
        lemma_projects_without_task_members(prev, stored);
        let cur = projects_without_task(found, stored);
        let pr = projects_without_task(prev, stored);
        assert forall|p: Seq<char>| #[trigger] cur.contains(p) <==> found.contains(p) && !stored.contains(p) by {
            if cur.contains(p) {
                let j = choose|j: int| 0 <= j < cur.len() && cur[j] == p;
                if j < pr.len() {
                    assert(pr[j] == p);
                    assert(pr.contains(p));
                    let k = choose|k: int| 0 <= k < prev.len() && prev[k] == p;
                    assert(found[k] == p);
                } else {
                    assert(found[found.len() - 1] == p);
                }
            }
            if found.contains(p) && !stored.contains(p) {
                let k = choose|k: int| 0 <= k < found.len() && found[k] == p;
                if k < found.len() - 1 {
                    assert(prev[k] == p);
                    assert(pr.contains(p));
                    let j = choose|j: int| 0 <= j < pr.len() && pr[j] == p;
                    assert(cur[j] == p);
                } else {
                    assert(cur[cur.len() - 1] == p);
                }
            }
        }
    }
}

/// Discovery settles: once it has given every new project a task, a second
/// pass over the same directories finds nothing to add; and it adds only
/// found projects that had no task.
pub proof fn lemma_second_discovery_adds_nothing(found: Seq<Seq<char>>, stored: Seq<Seq<char>>)
    ensures
        forall|p: Seq<char>|
            #[trigger] projects_without_task(found, stored).contains(p) <==> found.contains(p) && !stored.contains(p),
        projects_without_task(found, stored + projects_without_task(found, stored)).len() == 0,
{
    lemma_projects_without_task_members(found, stored);
    let added = projects_without_task(found, stored);
    let after = stored + added;
    lemma_projects_without_task_members(found, after);
    let again = projects_without_task(found, after);
    if again.len() > 0 {
        let p = again[0];
        assert(again.contains(p));
        assert(found.contains(p) && !after.contains(p));
        assert(!stored.contains(p)) by {
            if stored.contains(p) {
                let k = choose|k: int| 0 <= k < stored.len() && stored[k] == p;
                assert(after[k] == p);
            }
        }
        assert(added.contains(p));
        let j = choose|j: int| 0 <= j < added.len() && added[j] == p;
        assert(after[stored.len() + j] == p);
    }
}

} // verus!
