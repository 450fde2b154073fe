//! Where the clipboard manager keeps its files, from the environment.
use vstd::prelude::*;
use crate::text::{concat, owned};

verus! {

/// The parts of the environment that decide where files go.
#[derive(Debug, Clone)]
pub struct Environment {
    /// `XDG_DATA_HOME`, when set.
    pub xdg_data_home: Option<String>,
    /// `XDG_CACHE_HOME`, when set.
    pub xdg_cache_home: Option<String>,
    /// `XDG_CONFIG_HOME`, when set.
    pub xdg_config_home: Option<String>,
    /// `XDG_RUNTIME_DIR`, when set.
    pub xdg_runtime_dir: Option<String>,
    /// `MACCY_KDE_SOCKET_PATH`, when set.
    pub socket_override: Option<String>,
    /// `HOME`, when set.
    pub home: Option<String>,
    /// The system's temporary directory.
    pub temp_dir: String,
}

/// `part` appended to path `base`, as `PathBuf::push` does on Unix: an
/// absolute `part` replaces `base`; otherwise a separator is put between
/// them unless `base` is empty or already ends with one.
pub open spec fn path_join(base: Seq<char>, part: Seq<char>) -> Seq<char> {
    if part.len() > 0 && part[0] == '/' {
        part
    } else if base.len() == 0 {
        part
    } else if base.last() == '/' {
        base + part
    } else {
        base + "/"@ + part
    }
}

pub open spec fn opt_or(o: Option<String>, d: Seq<char>) -> Seq<char> {
    match o {
        Some(s) => s@,
        None => d,
    }
}

/// `part` appended to path `base`.
pub fn join_path(base: &str, part: &str) -> (r: String)
    ensures
        r@ == path_join(base@, part@),
{
    if is_absolute(part) {
        return owned(part);
    }
    let b = crate::text::chars_of(base);
    if b.len() == 0 {
        owned(part)
    } else if b[b.len() - 1] == '/' {
        concat(base, part)
    } else {
        let with_sep = concat(base, "/");
        proof {
            assert(with_sep@ + part@ =~= base@ + "/"@ + part@);
        }
        concat(with_sep.as_str(), part)
    }
}

fn is_absolute(s: &str) -> (r: bool)
    ensures
        r == (s@.len() > 0 && s@[0] == '/'),
{
    let v = crate::text::chars_of(s);
    v.len() > 0 && v[0] == '/'
}

fn opt_or_exec(o: &Option<String>, d: &str) -> (r: String)
    ensures
        r@ == opt_or(*o, d@),
{
    match o {
        Some(s) => s.clone(),
        None => owned(d),
    }
}

pub open spec fn data_dir_of(env: Environment) -> Seq<char> {
    let base = match env.xdg_data_home {
        Some(s) => s@,
        None => path_join(path_join(opt_or(env.home, env.temp_dir@), ".local"@), "share"@),
    };
    path_join(base, "maccy-kde"@)
}

pub open spec fn cache_dir_of(env: Environment) -> Seq<char> {
    let base = match env.xdg_cache_home {
        Some(s) => s@,
        None => path_join(opt_or(env.home, env.temp_dir@), ".cache"@),
    };
    path_join(base, "maccy-kde"@)
}

pub open spec fn socket_path_of(env: Environment) -> Seq<char> {
    match env.xdg_runtime_dir {
        Some(d) => path_join(d@, "maccy-kde.socket"@),
        None => path_join(env.temp_dir@, "maccy-kde.socket"@),
    }
}

pub open spec fn autostart_dir_of(env: Environment) -> Seq<char> {
    let base = match env.xdg_config_home {
        Some(s) => s@,
        None => path_join(opt_or(env.home, "/tmp"@), ".config"@),
    };
    path_join(base, "autostart"@)
}

/// The application's directories and files.
pub struct AppPaths;

impl AppPaths {
    /// `XDG_DATA_HOME/maccy-kde`, by default under `~/.local/share`.
    pub fn data_dir(env: &Environment) -> (r: String)
        ensures
            r@ == data_dir_of(*env),
    {
        let base = match &env.xdg_data_home {
            Some(s) => s.clone(),
            None => {
                let home = opt_or_exec(&env.home, env.temp_dir.as_str());
                let local = join_path(home.as_str(), ".local");
                join_path(local.as_str(), "share")
            },
        };
        join_path(base.as_str(), "maccy-kde")
    }

    /// `XDG_CACHE_HOME/maccy-kde`, by default under `~/.cache`.
    pub fn cache_dir(env: &Environment) -> (r: String)
        ensures
            r@ == cache_dir_of(*env),
    {
        let base = match &env.xdg_cache_home {
            Some(s) => s.clone(),
            None => {
                let home = opt_or_exec(&env.home, env.temp_dir.as_str());
                join_path(home.as_str(), ".cache")
            },
        };
        join_path(base.as_str(), "maccy-kde")
    }

    /// The history database file.
    pub fn database_path(env: &Environment) -> (r: String)
        ensures
            r@ == path_join(data_dir_of(*env), "history.db"@),
    {
        let d = Self::data_dir(env);
        join_path(d.as_str(), "history.db")
    }

    /// The directory of saved images.
    pub fn images_cache_path(env: &Environment) -> (r: String)
        ensures
            r@ == path_join(cache_dir_of(*env), "images"@),
    {
        let d = Self::cache_dir(env);
        join_path(d.as_str(), "images")
    }

    /// The daemon's socket, in `XDG_RUNTIME_DIR` or the temporary directory.
    pub fn socket_path(env: &Environment) -> (r: String)
        ensures
            r@ == socket_path_of(*env),
    {
        match &env.xdg_runtime_dir {
            Some(d) => join_path(d.as_str(), "maccy-kde.socket"),
            None => join_path(env.temp_dir.as_str(), "maccy-kde.socket"),
        }
    }

    /// `XDG_CONFIG_HOME/autostart`, by default under `~/.config`.
    pub fn autostart_dir(env: &Environment) -> (r: String)
        ensures
            r@ == autostart_dir_of(*env),
    {
        let base = match &env.xdg_config_home {
            Some(s) => s.clone(),
            None => {
                let home = opt_or_exec(&env.home, "/tmp");
                join_path(home.as_str(), ".config")
            },
        };
        join_path(base.as_str(), "autostart")
    }
}

/// The socket the popup and the daemon talk through: the path that
/// `MACCY_KDE_SOCKET_PATH` names, else the application's socket.
pub fn get_socket_path(env: &Environment) -> (r: String)
    ensures
        r@ == match env.socket_override {
            Some(p) => p@,
            None => socket_path_of(*env),
        },
{
    match &env.socket_override {
        Some(p) => p.clone(),
        None => AppPaths::socket_path(env),
    }
}

} // verus!
