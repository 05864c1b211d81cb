//! The service's settings, from the values of its environment variables.
use vstd::prelude::*;
use crate::text::{join_path, join_paths, parse_u16, parse_u16_spec};

verus! {

/// Where the service listens, where it keeps its data, which directory
/// holds the projects, how its pages are reached, and the terminal ports.
#[derive(Debug, Clone)]
pub struct AppConfig {
    pub bind_addr: String,
    pub db_url: String,
    pub allowed_root: String,
    pub public_base_url: String,
    pub frontend_dist: String,
    pub min_port: u16,
    pub max_port: u16,
}

/// The values of the environment variables the settings are read from:
/// `BIND_ADDR`, `DATA_DIR`, `ALLOWED_ROOT`, `HOME`, `PUBLIC_BASE_URL`,
/// `FRONTEND_DIST`, `TTYD_PORT_MIN`, `TTYD_PORT_MAX`.
#[derive(Debug, Clone)]
pub struct EnvSnapshot {
    pub bind_addr: Option<String>,
    pub data_dir: Option<String>,
    pub allowed_root: Option<String>,
    pub home: Option<String>,
    pub public_base_url: Option<String>,
    pub frontend_dist: Option<String>,
    pub ttyd_port_min: Option<String>,
    pub ttyd_port_max: Option<String>,
}

pub open spec fn value_or(v: Option<String>, default: Seq<char>) -> Seq<char> {
    match v {
        Some(s) => s@,
        None => default,
    }
}

pub open spec fn port_or(v: Option<String>, default: u16) -> u16 {
    match v {
        Some(s) => match parse_u16_spec(s@) {
            Some(p) => p,
            None => default,
        },
        None => default,
    }
}

fn string_or(v: &Option<String>, default: &str) -> (r: String)
    ensures
        r@ == value_or(*v, default@),
{
    match v {
        Some(s) => s.clone(),
        None => String::from_str(default),
    }
}

fn read_port(v: &Option<String>, default: u16) -> (r: u16)
    ensures
        r == port_or(*v, default),
{
    match v {
        Some(s) => match parse_u16(s.as_str()) {
            Some(p) => p,
            None => default,
        },
        None => default,
    }
}

impl EnvSnapshot {
    pub open spec fn spec_data_dir(self) -> Seq<char> {
        value_or(self.data_dir, "./data"@)
    }

    /// The data directory: `DATA_DIR`, else `./data`.
    pub fn data_dir(&self) -> (r: String)
        ensures
            r@ == self.spec_data_dir(),
    {
        string_or(&self.data_dir, "./data")
    }

    pub open spec fn spec_allowed_root(self) -> Seq<char> {
        match self.allowed_root {
            Some(r) => r@,
            None => match self.home {
                Some(h) => h@ + "/code"@,
                None => "/tmp/code"@,
            },
        }
    }

    pub open spec fn spec_db_path(self, current_dir: Seq<char>) -> Seq<char> {
        let d = self.spec_data_dir();
        if d.len() > 0 && d[0] == '/' {
            join_path(d, "tasks.db"@)
        } else {
            join_path(join_path(current_dir, d), "tasks.db"@)
        }
    }
}

impl AppConfig {
    /// The settings for the given environment, with `current_dir` the
    /// directory a relative data directory is taken from.
    pub fn from_env_snapshot(env: &EnvSnapshot, current_dir: &str) -> (r: AppConfig)
        ensures
            r.bind_addr@ == value_or(env.bind_addr, "0.0.0.0:8080"@),
            r.db_url@ == "sqlite://"@ + env.spec_db_path(current_dir@),
            r.allowed_root@ == env.spec_allowed_root(),
            r.public_base_url@ == value_or(env.public_base_url, "http://localhost:8080"@),
            r.frontend_dist@ == value_or(env.frontend_dist, "../frontend/dist"@),
            r.min_port == port_or(env.ttyd_port_min, 10000),
            r.max_port == port_or(env.ttyd_port_max, 10999),
    {
        let bind_addr = string_or(&env.bind_addr, "0.0.0.0:8080");
        let data_dir = env.data_dir();
        let allowed_root = match &env.allowed_root {
            Some(r) => r.clone(),
            None => match &env.home {
                Some(h) => {
                    let mut s = h.clone();
                    s.append("/code");
                    s
                },
                None => String::from_str("/tmp/code"),
            },
        };
        let public_base_url = string_or(&env.public_base_url, "http://localhost:8080");
        let frontend_dist = string_or(&env.frontend_dist, "../frontend/dist");
        let min_port = read_port(&env.ttyd_port_min, 10000);
        let max_port = read_port(&env.ttyd_port_max, 10999);
        let absolute = data_dir.as_str().unicode_len() > 0 && data_dir.as_str().get_char(0) == '/';
        let db_path = if absolute {
            join_paths(data_dir.as_str(), "tasks.db")
        } else {
            let dir = join_paths(current_dir, data_dir.as_str());
            join_paths(dir.as_str(), "tasks.db")
        };
        let mut db_url = String::from_str("sqlite://");
        db_url.append(db_path.as_str());
        AppConfig { bind_addr, db_url, allowed_root, public_base_url, frontend_dist, min_port, max_port }
    }
}


/// The database is the file `tasks.db` inside the data directory: for an
/// absolute data directory, the directory itself followed by `/tasks.db`
/// (just `tasks.db` when it already ends in `/`); for a relative one, the
/// same inside that directory taken under the current directory.
pub proof fn lemma_db_path_inside_data_dir(env: EnvSnapshot, current_dir: Seq<char>)
    ensures
        ({
            let d = env.spec_data_dir();
            &&& d.len() > 0 && d[0] == '/' && d.last() != '/' ==> env.spec_db_path(current_dir) == d
                + "/tasks.db"@
            &&& d.len() > 0 && d[0] == '/' && d.last() == '/' ==> env.spec_db_path(current_dir) == d
                + "tasks.db"@
            &&& d.len() > 0 && d[0] != '/' && d.last() != '/' && current_dir.len() > 0
                && current_dir.last() != '/' ==> env.spec_db_path(current_dir) == current_dir + "/"@ + d
                + "/tasks.db"@
        }),
{
    let d = env.spec_data_dir();
    reveal_strlit("tasks.db");
    reveal_strlit("/tasks.db");
    reveal_strlit("/");
    assert("tasks.db"@[0] == 't');
    if d.len() > 0 && d[0] == '/' && d.last() != '/' {
        assert(env.spec_db_path(current_dir) =~= d + "/tasks.db"@);
    }
    if d.len() > 0 && d[0] != '/' && d.last() != '/' && current_dir.len() > 0 && current_dir.last() != '/' {
        let j = current_dir + seq!['/'] + d;
        assert(join_path(current_dir, d) == j);
        assert(j.last() == d.last());
        assert(env.spec_db_path(current_dir) =~= current_dir + "/"@ + d + "/tasks.db"@);
    }
}

} // verus!
