//! Terminal paths, the route table from task ids to `ttyd` ports, and where a
//! terminal request is forwarded.
use vstd::prelude::*;
use vstd::hash_map::StringHashMap;
use crate::error::AppError;
use crate::models::{Task, TaskStatus, TerminalUrlResponse};
use crate::text::{
    chars_of, decimal, find_char_from, find_from, lemma_find_from_bounds, lemma_find_from_hit,
    push_decimal, str_equal, trim, trim_end_char, trim_end_matches_char,
    trim_start_char, trim_start_matches_char, trim_str,
};

verus! {

/// The task id named by a terminal path such as `/term/{id}/...`: split at
/// `/`, the segment after the first must be `term` and the one after it must
/// be non-empty.
pub open spec fn spec_task_id_of_term_path(p: Seq<char>) -> Option<Seq<char>> {
    let i1 = find_from(p, '/', 0);
    let i2 = find_from(p, '/', i1 + 1);
    let i3 = find_from(p, '/', i2 + 1);
    if i1 >= p.len() || p.subrange(i1 + 1, i2) != seq!['t', 'e', 'r', 'm'] || i2 >= p.len()
        || i3 == i2 + 1 {
        None
    } else {
        Some(p.subrange(i2 + 1, i3))
    }
}

/// Extracts the task id from a request path of the terminal proxy.
pub fn extract_task_id_from_term_path(path: &str) -> (r: Option<&str>)
    ensures
        match r {
            Some(id) => spec_task_id_of_term_path(path@) == Some(id@),
            None => spec_task_id_of_term_path(path@) is None,
        },
{
    let p = chars_of(path);
    let n = p.len();
    let i1 = find_char_from(&p, '/', 0);
    if i1 >= n {
        return None;
    }
    proof { lemma_find_from_bounds(p@, '/', i1 + 1); }
    let i2 = find_char_from(&p, '/', i1 + 1);
    if !(i2 - i1 == 5 && p[i1 + 1] == 't' && p[i1 + 2] == 'e' && p[i1 + 3] == 'r' && p[i1 + 4] == 'm') {
        assert(p@.subrange(i1 + 1, i2 as int) != seq!['t', 'e', 'r', 'm']) by {
            if p@.subrange(i1 + 1, i2 as int) == seq!['t', 'e', 'r', 'm'] {
                assert(p@.subrange(i1 + 1, i2 as int).len() == 4);
                assert(p@.subrange(i1 + 1, i2 as int)[0] == p@[i1 + 1]);
                assert(p@.subrange(i1 + 1, i2 as int)[1] == p@[i1 + 2]);
                assert(p@.subrange(i1 + 1, i2 as int)[2] == p@[i1 + 3]);
                assert(p@.subrange(i1 + 1, i2 as int)[3] == p@[i1 + 4]);
            }
        }
        return None;
    }
    assert(p@.subrange(i1 + 1, i2 as int) =~= seq!['t', 'e', 'r', 'm']);
    if i2 >= n {
        return None;
    }
    proof { lemma_find_from_bounds(p@, '/', i2 + 1); }
    let i3 = find_char_from(&p, '/', i2 + 1);
    if i3 == i2 + 1 {
        return None;
    }
    Some(path.substring_char(i2 + 1, i3))
}

/// `/term/{id}/`: the path under which the terminal of a task is served.
pub open spec fn spec_terminal_path(id: Seq<char>) -> Seq<char> {
    "/term/"@ + id + "/"@
}

pub fn terminal_path(id: &str) -> (r: String)
    ensures
        r@ == spec_terminal_path(id@),
{
    let mut r = String::from_str("/term/");
    r.append(id);
    r.append("/");
    r
}

/// The public URL of a terminal: the base URL without trailing `/`, then the
/// terminal path.
pub open spec fn spec_terminal_url(base: Seq<char>, id: Seq<char>) -> Seq<char> {
    trim_end_char(base, '/') + spec_terminal_path(id)
}

/// A task's terminal is only handed out while the task is running.
pub fn check_terminal_available(task: &Task) -> (r: Result<(), AppError>)
    ensures
        match r {
            Ok(()) => task.status == TaskStatus::Running,
            Err(e) => task.status != TaskStatus::Running && e is Conflict && e.spec_message()
                == "task "@ + task.id@ + " is not running"@,
        },
{
    if task.status != TaskStatus::Running {
        let mut m = String::from_str("task ");
        m.append(task.id.as_str());
        m.append(" is not running");
        return Err(AppError::Conflict(m));
    }
    Ok(())
}

impl TerminalUrlResponse {
    /// The terminal location of task `task_id` under `public_base_url`.
    pub fn for_task(public_base_url: &str, task_id: &str) -> (r: TerminalUrlResponse)
        ensures
            r.task_id@ == task_id@,
            r.path@ == spec_terminal_path(task_id@),
            r.url@ == spec_terminal_url(public_base_url@, task_id@),
    {
        let path = terminal_path(task_id);
        let mut url = String::from_str(trim_end_matches_char(public_base_url, '/'));
        url.append(path.as_str());
        TerminalUrlResponse { task_id: String::from_str(task_id), path, url }
    }
}

/// A path built by `terminal_path`, followed by anything, names its task
/// again: the terminal guard finds the task that the URL was made for.
pub proof fn lemma_terminal_path_names_task(id: Seq<char>, suffix: Seq<char>)
    requires
        id.len() > 0,
        !id.contains('/'),
    ensures
        spec_task_id_of_term_path(spec_terminal_path(id) + suffix) == Some(id),
{
    reveal_strlit("/term/");
    reveal_strlit("/");
    let p = spec_terminal_path(id) + suffix;
    let n = id.len() as int;
    assert(p[0] == '/');
    assert(p[5] == '/');
    assert(p[6 + n] == '/');
    lemma_find_from_hit(p, '/', 0, 0);
    assert forall|k: int| 1 <= k < 5 implies p[k] != '/' by {}
    lemma_find_from_hit(p, '/', 1, 5);
    assert forall|k: int| 6 <= k < 6 + n implies p[k] != '/' by {
        assert(p[k] == id[k - 6]);
    }
    lemma_find_from_hit(p, '/', 6, 6 + n);
    assert(p.subrange(1, 5) =~= seq!['t', 'e', 'r', 'm']);
    assert(p.subrange(6, 6 + n) =~= id);
}

} // verus!

verus! {

/// The views of route entries `(task id, port)`.
pub open spec fn entries_view(e: Seq<(String, u16)>) -> Seq<(Seq<char>, u16)> {
    e.map_values(|x: (String, u16)| (x.0@, x.1))
}

/// The views of stored route rows `(task id, port as stored)`.
pub open spec fn rows_view(e: Seq<(String, i64)>) -> Seq<(Seq<char>, i64)> {
    e.map_values(|x: (String, i64)| (x.0@, x.1))
}

/// The table built by inserting the entries in order (a later entry for the
/// same id wins).
pub open spec fn routes_of(entries: Seq<(Seq<char>, u16)>) -> Map<Seq<char>, u16>
    decreases entries.len(),
{
    if entries.len() == 0 {
        Map::empty()
    } else {
        routes_of(entries.drop_last()).insert(entries.last().0, entries.last().1)
    }
}

/// The table built from stored rows, skipping ports outside `0..=65535`.
pub open spec fn routes_of_rows(rows: Seq<(Seq<char>, i64)>) -> Map<Seq<char>, u16>
    decreases rows.len(),
{
    if rows.len() == 0 {
        Map::empty()
    } else {
        let prev = routes_of_rows(rows.drop_last());
        let (id, port) = rows.last();
        if 0 <= port <= 65535 {
            prev.insert(id, port as u16)
        } else {
            prev
        }
    }
}

/// The ports on which the terminals of tasks are reachable, by task id.
pub struct RouteMap {
    inner: StringHashMap<u16>,
}

impl View for RouteMap {
    type V = Map<Seq<char>, u16>;

    closed spec fn view(&self) -> Map<Seq<char>, u16> {
        self.inner@
    }
}

impl RouteMap {
    pub fn new() -> (r: RouteMap)
        ensures
            r@ == Map::<Seq<char>, u16>::empty(),
    {
        RouteMap { inner: StringHashMap::new() }
    }

    pub fn insert(&mut self, id: String, port: u16)
        ensures
            final(self)@ == old(self)@.insert(id@, port),
    {
        self.inner.insert(id, port);
    }

    pub fn remove(&mut self, id: &str)
        ensures
            final(self)@ == old(self)@.remove(id@),
    {
        self.inner.remove(id);
    }

    pub fn get(&self, id: &str) -> (r: Option<u16>)
        ensures
            match r {
                Some(p) => self@.contains_key(id@) && self@[id@] == p,
                None => !self@.contains_key(id@),
            },
    {
        match self.inner.get(id) {
            Some(p) => Some(*p),
            None => None,
        }
    }

    pub fn contains(&self, id: &str) -> (r: bool)
        ensures
            r == self@.contains_key(id@),
    {
        self.inner.contains_key(id)
    }

    pub fn len(&self) -> (r: usize)
        ensures
            r == self@.len(),
    {
        self.inner.len()
    }

    /// Replaces the whole table by the given entries.
    pub fn replace_with(&mut self, entries: &Vec<(String, u16)>)
        ensures
            final(self)@ == routes_of(entries_view(entries@)),
    {
        self.inner.clear();
        let mut i: usize = 0;
        while i < entries.len()
            invariant
                i <= entries@.len(),
                self.inner@ == routes_of(entries_view(entries@).subrange(0, i as int)),
            decreases entries@.len() - i,
        {
            let id = entries[i].0.clone();
            self.inner.insert(id, entries[i].1);
            proof {
                let ev = entries_view(entries@);
                assert(ev.subrange(0, i + 1).drop_last() =~= ev.subrange(0, i as int));
            }
            i = i + 1;
        }
        assert(entries_view(entries@).subrange(0, entries@.len() as int) =~= entries_view(entries@));
    }

    /// Replaces the whole table by the stored rows whose port is a valid
    /// port number.
    pub fn replace_from_rows(&mut self, rows: &Vec<(String, i64)>)
        ensures
            final(self)@ == routes_of_rows(rows_view(rows@)),
    {
        self.inner.clear();
        let mut i: usize = 0;
        while i < rows.len()
            invariant
                i <= rows@.len(),
                self.inner@ == routes_of_rows(rows_view(rows@).subrange(0, i as int)),
            decreases rows@.len() - i,
        {
            let port = rows[i].1;
            proof {
                let ev = rows_view(rows@);
                assert(ev.subrange(0, i + 1).drop_last() =~= ev.subrange(0, i as int));
            }
            if 0 <= port && port <= 65535 {
                let id = rows[i].0.clone();
                self.inner.insert(id, port as u16);
            }
            i = i + 1;
        }
        assert(rows_view(rows@).subrange(0, rows@.len() as int) =~= rows_view(rows@));
    }
}

/// The views of request path parameters `(name, value)`.
pub open spec fn params_view(p: Seq<(String, String)>) -> Seq<(Seq<char>, Seq<char>)> {
    p.map_values(|x: (String, String)| (x.0@, x.1@))
}

/// The value of the first parameter called `key`.
pub open spec fn param_value(params: Seq<(Seq<char>, Seq<char>)>, key: Seq<char>) -> Option<Seq<char>>
    decreases params.len(),
{
    if params.len() == 0 {
        None
    } else if params[0].0 == key {
        Some(params[0].1)
    } else {
        param_value(params.drop_first(), key)
    }
}

/// Executable `param_value`.
pub fn find_param<'a>(params: &'a Vec<(String, String)>, key: &str) -> (r: Option<&'a String>)
    ensures
        match r {
            Some(v) => param_value(params_view(params@), key@) == Some(v@),
            None => param_value(params_view(params@), key@) is None,
        },
{
    let ghost pv = params_view(params@);
    let mut i: usize = 0;
    assert(pv.subrange(0, pv.len() as int) =~= pv);
    while i < params.len()
        invariant
            i <= params@.len(),
            pv == params_view(params@),
            param_value(pv, key@) == param_value(pv.subrange(i as int, pv.len() as int), key@),
        decreases params@.len() - i,
    {
        let ghost rest = pv.subrange(i as int, pv.len() as int);
        assert(rest[0] == pv[i as int]);
        if str_equal(params[i].0.as_str(), key) {
            return Some(&params[i].1);
        }
        assert(rest.drop_first() =~= pv.subrange(i + 1, pv.len() as int));
        i = i + 1;
    }
    None
}

/// Where a proxied terminal request goes: the `ttyd` of the task named by
/// the `id` parameter, under `/term/{id}/`, followed by the `rest` parameter
/// without leading `/` and by the query; a fixed unreachable address when the
/// task has no route.
pub open spec fn proxy_target(
    routes: Map<Seq<char>, u16>,
    params: Seq<(Seq<char>, Seq<char>)>,
    query: Option<Seq<char>>,
) -> Seq<char> {
    let id = match param_value(params, "id"@) {
        Some(v) => v,
        None => Seq::empty(),
    };
    if !routes.contains_key(id) {
        "http://127.0.0.1:9/not-found"@
    } else {
        let rest = match param_value(params, "rest"@) {
            Some(v) => trim_start_char(v, '/'),
            None => Seq::empty(),
        };
        let q = match query {
            Some(q) => "?"@ + q,
            None => Seq::empty(),
        };
        "http://127.0.0.1:"@ + decimal(routes[id] as nat) + "/term/"@ + id + "/"@ + rest + q
    }
}

pub open spec fn opt_str_view(q: Option<&str>) -> Option<Seq<char>> {
    match q {
        Some(s) => Some(s@),
        None => None,
    }
}

/// The upstream URL of a proxied terminal request.
pub fn resolve_proxy_target(
    routes: &RouteMap,
    params: &Vec<(String, String)>,
    query: Option<&str>,
) -> (r: String)
    ensures
        r@ == proxy_target(routes@, params_view(params@), opt_str_view(query)),
{
    let id: &str = match find_param(params, "id") {
        Some(v) => v.as_str(),
        None => "",
    };
    proof {
        reveal_strlit("");
        assert(""@ =~= Seq::<char>::empty());
    }
    let port = match routes.get(id) {
        Some(p) => p,
        None => {
            return String::from_str("http://127.0.0.1:9/not-found");
        },
    };
    let rest: &str = match find_param(params, "rest") {
        Some(v) => trim_start_matches_char(v.as_str(), '/'),
        None => "",
    };
    let mut target = String::from_str("http://127.0.0.1:");
    push_decimal(&mut target, port as u64);
    target.append("/term/");
    target.append(id);
    target.append("/");
    target.append(rest);
    if let Some(q) = query {
        target.append("?");
        target.append(q);
    }
    proof {
        if query is None {
            assert(target@ =~= target@ + Seq::<char>::empty());
        }
    }
    target
}

/// The `ttyd` websocket address for a terminal of task `id` on `port`.
pub open spec fn spec_upstream_ws_url(port: u16, id: Seq<char>, query: Option<Seq<char>>) -> Seq<char> {
    let q = match query {
        Some(q) => "?"@ + q,
        None => Seq::empty(),
    };
    "ws://127.0.0.1:"@ + decimal(port as nat) + "/term/"@ + id + "/ws"@ + q
}

pub fn upstream_ws_url(port: u16, id: &str, query: Option<&str>) -> (r: String)
    ensures
        r@ == spec_upstream_ws_url(port, id@, opt_str_view(query)),
{
    let mut url = String::from_str("ws://127.0.0.1:");
    push_decimal(&mut url, port as u64);
    url.append("/term/");
    url.append(id);
    url.append("/ws");
    if let Some(q) = query {
        url.append("?");
        url.append(q);
    }
    proof {
        if query is None {
            assert(url@ =~= url@ + Seq::<char>::empty());
        }
    }
    url
}

/// The websocket port of task `id`, or `NotFound` when it has no route.
pub fn websocket_port(routes: &RouteMap, id: &str) -> (r: Result<u16, AppError>)
    ensures
        match r {
            Ok(p) => routes@.contains_key(id@) && routes@[id@] == p,
            Err(e) => !routes@.contains_key(id@) && e is NotFound && e.spec_message() == "task "@
                + id@ + " not found"@,
        },
{
    match routes.get(id) {
        Some(p) => Ok(p),
        None => Err(AppError::task_not_found(id)),
    }
}

/// The subprotocol offered first in a `Sec-WebSocket-Protocol` header: the
/// text before the first `,`, trimmed, if that is not empty.
pub open spec fn spec_first_subprotocol(header: Option<Seq<char>>) -> Option<Seq<char>> {
    match header {
        None => None,
        Some(h) => {
            let t = trim(h.subrange(0, find_from(h, ',', 0)));
            if t.len() > 0 {
                Some(t)
            } else {
                None
            }
        },
    }
}

pub fn select_subprotocol(header: Option<&str>) -> (r: Option<String>)
    ensures
        match r {
            Some(s) => spec_first_subprotocol(opt_str_view(header)) == Some(s@),
            None => spec_first_subprotocol(opt_str_view(header)) is None,
        },
{
    match header {
        None => None,
        Some(h) => {
            let v = chars_of(h);
            proof { lemma_find_from_bounds(v@, ',', 0); }
            let end = find_char_from(&v, ',', 0);
            let first = h.substring_char(0, end);
            let t = trim_str(first);
            if t.unicode_len() > 0 {
                Some(String::from_str(t))
            } else {
                None
            }
        },
    }
}

/// The task whose terminal a request path reaches: named by the path and
/// present in the route table. Other requests are answered `404`.
pub fn terminal_access_target<'a>(routes: &RouteMap, path: &'a str) -> (r: Option<&'a str>)
    ensures
        match r {
            Some(id) => spec_task_id_of_term_path(path@) == Some(id@) && routes@.contains_key(id@),
            None => match spec_task_id_of_term_path(path@) {
                Some(id) => !routes@.contains_key(id),
                None => true,
            },
        },
{
    match extract_task_id_from_term_path(path) {
        Some(id) => if routes.contains(id) {
            Some(id)
        } else {
            None
        },
        None => None,
    }
}

/// The proxy reaches the port recorded for a task: after a route for `id` is
/// recorded, a request for `/term/{id}/` with no rest and no query goes to
/// that port under the same path.
pub proof fn lemma_recorded_route_is_proxied(
    routes: Map<Seq<char>, u16>,
    id: Seq<char>,
    port: u16,
)
    ensures
        proxy_target(routes.insert(id, port), seq![("id"@, id)], None) == "http://127.0.0.1:"@
            + decimal(port as nat) + spec_terminal_path(id),
{
    let params = seq![("id"@, id)];
    assert(param_value(params, "id"@) == Some(id));
    reveal_strlit("id");
    reveal_strlit("rest");
    assert("id"@.len() == 2);
    assert("rest"@.len() == 4);
    assert(params[0].0 != "rest"@);
    assert(params.drop_first() =~= Seq::<(Seq<char>, Seq<char>)>::empty());
    assert(param_value(params.drop_first(), "rest"@) is None);
    assert(param_value(params, "rest"@) is None);
    let t = proxy_target(routes.insert(id, port), params, None);
    assert(t =~= "http://127.0.0.1:"@ + decimal(port as nat) + "/term/"@ + id + "/"@);
}

} // verus!

verus! {

/// A table built from entries routes exactly the ids that occur in them,
/// each to the port of its last entry.
pub proof fn lemma_routes_of_domain(entries: Seq<(Seq<char>, u16)>)
    ensures
        forall|k: Seq<char>|
            routes_of(entries).contains_key(k) <==> exists|i: int| 0 <= i < entries.len() && #[trigger] entries[i].0 == k,
        forall|i: int|
            0 <= i < entries.len() && (forall|j: int| i < j < entries.len() ==> #[trigger] entries[j].0 != entries[i].0)
                ==> routes_of(entries)[#[trigger] entries[i].0] == entries[i].1,
    decreases entries.len(),
{
    if entries.len() > 0 {
        let prev = entries.drop_last();
        lemma_routes_of_domain(prev);
        let n = entries.len() - 1;
        assert(entries.last() == entries[n]);
        assert forall|k: Seq<char>|
            routes_of(entries).contains_key(k) <==> exists|i: int| 0 <= i < entries.len() && #[trigger] entries[i].0 == k by {
            assert(routes_of(entries) == routes_of(prev).insert(entries[n].0, entries[n].1));
            if routes_of(entries).contains_key(k) && k != entries[n].0 {
                assert(routes_of(prev).contains_key(k));
                let i = choose|i: int| 0 <= i < prev.len() && #[trigger] prev[i].0 == k;
                assert(entries[i] == prev[i]);
            }
            if exists|i: int| 0 <= i < entries.len() && #[trigger] entries[i].0 == k {
                let i = choose|i: int| 0 <= i < entries.len() && #[trigger] entries[i].0 == k;
                if i < n {
                    assert(prev[i] == entries[i]);
                }
            }
        }
        assert forall|i: int|
            0 <= i < entries.len() && (forall|j: int| i < j < entries.len() ==> #[trigger] entries[j].0 != entries[i].0)
                implies routes_of(entries)[#[trigger] entries[i].0] == entries[i].1 by {
            if i < n {
                assert(prev[i] == entries[i]);
                assert(entries[n].0 != entries[i].0);
                assert forall|j: int| i < j < prev.len() implies #[trigger] prev[j].0 != prev[i].0 by {
                    assert(prev[j] == entries[j]);
                }
            }
        }
    }
}

/// Hydration routes exactly the stored rows whose port is a port number.
pub proof fn lemma_routes_of_rows_domain(rows: Seq<(Seq<char>, i64)>)
    ensures
        forall|k: Seq<char>|
            routes_of_rows(rows).contains_key(k) <==> exists|i: int|
                0 <= i < rows.len() && #[trigger] rows[i].0 == k && 0 <= rows[i].1 <= 65535,
    decreases rows.len(),
{
    if rows.len() > 0 {
        let prev = rows.drop_last();
        lemma_routes_of_rows_domain(prev);
        let n = rows.len() - 1;
        assert forall|k: Seq<char>|
            routes_of_rows(rows).contains_key(k) <==> exists|i: int|
                0 <= i < rows.len() && #[trigger] rows[i].0 == k && 0 <= rows[i].1 <= 65535 by {
            assert(rows.last() == rows[n]);
            assert(routes_of_rows(rows) == if 0 <= rows[n].1 <= 65535 {
                routes_of_rows(prev).insert(rows[n].0, rows[n].1 as u16)
            } else {
                routes_of_rows(prev)
            });
            if routes_of_rows(rows).contains_key(k) && !(k == rows[n].0 && 0 <= rows[n].1 <= 65535) {
                assert(routes_of_rows(prev).contains_key(k));
                let i = choose|i: int| 0 <= i < prev.len() && #[trigger] prev[i].0 == k && 0 <= prev[i].1 <= 65535;
                assert(rows[i] == prev[i]);
            }
            if exists|i: int| 0 <= i < rows.len() && #[trigger] rows[i].0 == k && 0 <= rows[i].1 <= 65535 {
                let i = choose|i: int| 0 <= i < rows.len() && #[trigger] rows[i].0 == k && 0 <= rows[i].1 <= 65535;
                if i < n {
                    assert(prev[i] == rows[i]);
                }
            }
        }
    }
}

} // verus!

verus! {

/// The public terminal URL is the base URL without its trailing `/`
/// characters, then `/term/{id}/`: a base that does not end in `/` is kept
/// whole and followed by exactly one `/`, and a trailing `/` on the base
/// changes nothing.
pub proof fn lemma_terminal_url_joins_base(base: Seq<char>, id: Seq<char>)
    ensures
        !(base.len() > 0 && base.last() == '/') ==> spec_terminal_url(base, id) == base + "/term/"@ + id
            + "/"@,
        spec_terminal_url(base.push('/'), id) == spec_terminal_url(base, id),
{
    assert(base.push('/').drop_last() =~= base);
    assert(base.push('/').last() == '/');
    if !(base.len() > 0 && base.last() == '/') {
        assert(trim_end_char(base, '/') == base);
        assert(spec_terminal_url(base, id) =~= base + "/term/"@ + id + "/"@);
    }
}

/// A proxied request keeps the rest of its path: for a routed task, the
/// target is the task's `/term/{id}/` location on its port followed by the
/// `rest` parameter without its leading `/` characters, whether or not a
/// query follows; a query is only appended after it, as `?query`.
pub proof fn lemma_proxy_target_keeps_rest(
    routes: Map<Seq<char>, u16>,
    params: Seq<(Seq<char>, Seq<char>)>,
    id: Seq<char>,
    rest: Seq<char>,
    q: Seq<char>,
)
    requires
        param_value(params, "id"@) == Some(id),
        param_value(params, "rest"@) == Some(rest),
        routes.contains_key(id),
    ensures
        proxy_target(routes, params, None) == "http://127.0.0.1:"@ + decimal(routes[id] as nat) + "/term/"@
            + id + "/"@ + trim_start_char(rest, '/'),
        proxy_target(routes, params, Some(q)) == proxy_target(routes, params, None) + "?"@ + q,
        proxy_target(routes, params, None) == proxy_target(routes, seq![("id"@, id)], None) + trim_start_char(
            rest,
            '/',
        ),
{
    lemma_recorded_route_is_proxied(routes, id, routes[id]);
    assert(routes.insert(id, routes[id]) =~= routes);
    let base = "http://127.0.0.1:"@ + decimal(routes[id] as nat) + "/term/"@ + id + "/"@;
    let r = trim_start_char(rest, '/');
    assert(proxy_target(routes, params, None) =~= base + r + Seq::<char>::empty());
    assert(base + r + Seq::<char>::empty() =~= base + r);
    assert(proxy_target(routes, params, Some(q)) =~= base + r + ("?"@ + q));
    assert(base + r + ("?"@ + q) =~= (base + r) + "?"@ + q);
    assert(proxy_target(routes, seq![("id"@, id)], None) =~= base);
}

/// The subprotocol taken from a `Sec-WebSocket-Protocol` header is the
/// trimmed text before its first `,` (the whole header when it has none),
/// when that text is not empty; otherwise, and without a header, none is
/// taken.
pub proof fn lemma_first_subprotocol_is_first_offer(h: Seq<char>, k: int)
    requires
        0 <= k <= h.len(),
        forall|i: int| 0 <= i < k ==> h[i] != ',',
        k == h.len() || h[k] == ',',
    ensures
        trim(h.subrange(0, k)).len() > 0 ==> spec_first_subprotocol(Some(h)) == Some(trim(h.subrange(0, k))),
        trim(h.subrange(0, k)).len() == 0 ==> spec_first_subprotocol(Some(h)) is None,
        spec_first_subprotocol(None) is None,
{
    lemma_find_from_bounds(h, ',', 0);
    if k < h.len() {
        lemma_find_from_hit(h, ',', 0, k);
    } else {
        if find_from(h, ',', 0) < h.len() {
            assert(h[find_from(h, ',', 0)] == ',');
        }
    }
    assert(find_from(h, ',', 0) == k);
}

/// A header that offers one protocol, with no `,`, selects that protocol
/// trimmed; and what follows the first `,` never changes the selection.
pub proof fn lemma_single_subprotocol_selected(h: Seq<char>, more: Seq<char>)
    requires
        forall|i: int| 0 <= i < h.len() ==> h[i] != ',',
    ensures
        trim(h).len() > 0 ==> spec_first_subprotocol(Some(h)) == Some(trim(h)),
        spec_first_subprotocol(Some(h + seq![','] + more)) == spec_first_subprotocol(Some(h)),
{
    lemma_first_subprotocol_is_first_offer(h, h.len() as int);
    assert(h.subrange(0, h.len() as int) =~= h);
    let g = h + seq![','] + more;
    assert forall|i: int| 0 <= i < h.len() implies g[i] != ',' by {
        assert(g[i] == h[i]);
    }
    assert(g[h.len() as int] == ',');
    lemma_first_subprotocol_is_first_offer(g, h.len() as int);
    assert(g.subrange(0, h.len() as int) =~= h);
}

} // verus!
