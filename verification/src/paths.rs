//! Where lonk keeps its files: `$LONK_CONFIG_DIR`, else `$XDG_CONFIG_HOME/lonk`,
//! else `~/.config/lonk`.
use vstd::prelude::*;

verus! {

/// `base` extended by the relative path `comp`, with one `/` between them
/// unless `base` is empty or already ends in `/` (how `PathBuf::join` extends
/// a path by a relative one on Unix).
pub open spec fn spec_join(base: Seq<char>, comp: Seq<char>) -> Seq<char> {
    if base.len() == 0 || base.last() == '/' {
        base + comp
    } else {
        base + "/"@ + comp
    }
}

/// Extend `base` by the relative path `comp`.
pub fn join_path(base: &str, comp: &str) -> (r: String)
    ensures
        r@ == spec_join(base@, comp@),
{
    let n = base.unicode_len();
    if n == 0 || base.get_char(n - 1) == '/' {
        String::from_str(base).concat(comp)
    } else {
        String::from_str(base).concat("/").concat(comp)
    }
}

/// The configuration directory for the given values of `LONK_CONFIG_DIR`,
/// `XDG_CONFIG_HOME` and `HOME`, in that order of precedence.
pub open spec fn spec_config_dir(
    explicit: Option<Seq<char>>,
    xdg: Option<Seq<char>>,
    home: Seq<char>,
) -> Seq<char> {
    match explicit {
        Some(dir) => dir,
        None => match xdg {
            Some(x) => spec_join(x, "lonk"@),
            None => spec_join(spec_join(home, ".config"@), "lonk"@),
        },
    }
}

/// Resolve the configuration directory from the environment's values.
pub fn config_dir(explicit: Option<&str>, xdg: Option<&str>, home: &str) -> (r: String)
    ensures
        r@ == spec_config_dir(
            match explicit {
                Some(d) => Some(d@),
                None => None,
            },
            match xdg {
                Some(x) => Some(x@),
                None => None,
            },
            home@,
        ),
{
    match explicit {
        Some(dir) => String::from_str(dir),
        None => match xdg {
            Some(x) => join_path(x, "lonk"),
            None => {
                let dot = join_path(home, ".config");
                join_path(dot.as_str(), "lonk")
            },
        },
    }
}

/// The server's default database file inside the configuration directory.
pub fn default_db_path(config_dir: &str) -> (r: String)
    ensures
        r@ == spec_join(config_dir@, "lonk.db"@),
{
    join_path(config_dir, "lonk.db")
}

} // verus!
