//! Paths as text: joining a relative component, and the XDG state and data
//! directories of the application.
use vstd::prelude::*;
use crate::constants::APP_NAME;
use crate::text::{append_str, chars_of, string_of};

verus! {

/// `base` joined with the relative component `comp`, as `Path::join` does:
/// a separator is added unless `base` is empty or already ends with one.
pub open spec fn path_join(base: Seq<char>, comp: Seq<char>) -> Seq<char> {
    if base.len() == 0 {
        comp
    } else if base.last() == '/' {
        base + comp
    } else {
        base + seq!['/'] + comp
    }
}

/// `base` joined with the relative component `comp`.
pub fn join(base: &str, comp: &str) -> (r: String)
    ensures
        r@ == path_join(base@, comp@),
{
    let b = chars_of(base);
    let mut out = chars_of(base);
    if b.len() > 0 && b[b.len() - 1] != '/' {
        out.push('/');
    }
    append_str(&mut out, comp);
    string_of(out.as_slice())
}

/// The optional text's view.
pub open spec fn opt_text_view(s: Option<&str>) -> Option<Seq<char>> {
    match s {
        Some(x) => Some(x@),
        None => None,
    }
}

/// The state directory: `$XDG_STATE_HOME` when set, else the platform's
/// state directory, else `~/.local/state` under the home directory, else the
/// literal `~/.local/state`; then the application's name.
pub open spec fn state_dir_of(xdg_state_home: Option<Seq<char>>, state_dir: Option<Seq<char>>, home_dir: Option<Seq<char>>) -> Seq<char> {
    match xdg_state_home {
        Some(x) => path_join(x, APP_NAME@),
        None => path_join(
            match state_dir {
                Some(s) => s,
                None => match home_dir {
                    Some(h) => path_join(path_join(h, ".local"@), "state"@),
                    None => "~/.local/state"@,
                },
            },
            APP_NAME@,
        ),
    }
}

/// The XDG state directory of the application, from the value of
/// `XDG_STATE_HOME`, the platform's state directory and the home directory.
pub fn get_xdg_state_path(xdg_state_home: Option<&str>, state_dir: Option<&str>, home_dir: Option<&str>) -> (r: String)
    ensures
        r@ == state_dir_of(opt_text_view(xdg_state_home), opt_text_view(state_dir), opt_text_view(home_dir)),
{
    match xdg_state_home {
        Some(x) => join(x, APP_NAME),
        None => {
            let base = match state_dir {
                Some(s) => s.to_owned(),
                None => match home_dir {
                    Some(h) => {
                        let local = join(h, ".local");
                        join(local.as_str(), "state")
                    },
                    None => "~/.local/state".to_owned(),
                },
            };
            join(base.as_str(), APP_NAME)
        },
    }
}

/// The data directory: `$XDG_DATA_HOME` when set, else the platform's data
/// directory, else the literal `~/.local/share`; then the application's name.
pub open spec fn data_dir_of(xdg_data_home: Option<Seq<char>>, data_dir: Option<Seq<char>>) -> Seq<char> {
    match xdg_data_home {
        Some(x) => path_join(x, APP_NAME@),
        None => path_join(
            match data_dir {
                Some(d) => d,
                None => "~/.local/share"@,
            },
            APP_NAME@,
        ),
    }
}

/// The XDG data directory of the application, from the value of
/// `XDG_DATA_HOME` and the platform's data directory.
pub fn get_xdg_data_path(xdg_data_home: Option<&str>, data_dir: Option<&str>) -> (r: String)
    ensures
        r@ == data_dir_of(opt_text_view(xdg_data_home), opt_text_view(data_dir)),
{
    match xdg_data_home {
        Some(x) => join(x, APP_NAME),
        None => match data_dir {
            Some(d) => join(d, APP_NAME),
            None => join("~/.local/share", APP_NAME),
        },
    }
}

/// A joined path ends with the component joined to it.
pub proof fn lemma_join_ends_with(base: Seq<char>, comp: Seq<char>)
    ensures
        crate::text::ends_with(path_join(base, comp), comp),
{
    let p = path_join(base, comp);
    assert(p.subrange(p.len() - comp.len(), p.len() as int) =~= comp);
}

} // verus!
