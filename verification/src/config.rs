//! Where the project files live: the configured directory, with `~/` expanded,
//! made absolute against the working directory, or `~/.donut` by default.
//! Paths are the bytes that the OS holds for them.

use vstd::prelude::*;
use crate::paths::{extend_bytes, is_absolute, is_absolute_path, join, join_path};

verus! {

/// The settings read from `~/.donut.yml`.
#[derive(Debug)]
pub struct Config {
    /// The directory that holds the project files, if one is configured, as
    /// the bytes of its path.
    pub donut_dir: Option<Vec<u8>>,
}

/// The bytes of an optional path.
pub open spec fn opt_bytes(o: Option<Vec<u8>>) -> Option<Seq<u8>> {
    match o {
        Some(s) => Some(s@),
        None => None,
    }
}

/// The bytes of `.donut`.
pub open spec fn dot_donut() -> Seq<u8> {
    seq![46u8, 100u8, 111u8, 110u8, 117u8, 116u8]
}

/// `~/rest` with a known home directory `h` stands for `rest` joined onto `h`;
/// any other path stands for itself.
pub open spec fn expand_tilde_spec(path: Seq<u8>, home: Option<Seq<u8>>) -> Seq<u8> {
    if path.len() >= 2 && path[0] == 126u8 && path[1] == 47u8 && home is Some {
        join_path(home->0, path.skip(2))
    } else {
        path
    }
}

/// The directory of the project files: the configured one after `~/` expansion,
/// joined onto the working directory `cwd` when it is relative; without a
/// configured one, `.donut` in the home directory, or `.donut` itself when the
/// home directory is unknown.
pub open spec fn donut_dir_spec(
    configured: Option<Seq<u8>>,
    home: Option<Seq<u8>>,
    cwd: Seq<u8>,
) -> Seq<u8> {
    match configured {
        Some(dir) => {
            let expanded = expand_tilde_spec(dir, home);
            if is_absolute_path(expanded) {
                expanded
            } else {
                join_path(cwd, expanded)
            }
        },
        None => match home {
            Some(h) => join_path(h, dot_donut()),
            None => dot_donut(),
        },
    }
}

/// `dirs::home_dir`: the home directory of the user, from `$HOME` or else from
/// the password database, as the bytes of its path (`OsString::into_encoded_bytes`,
/// the bytes themselves on Unix). It depends on the environment, so which
/// directory comes back is not stated; the source returns `None` rather than
/// an empty path.
#[verifier::external_body]
fn home_dir() -> (h: Option<Vec<u8>>)
    ensures
        h matches Some(s) ==> s@.len() > 0,
{
    match dirs::home_dir() {
        Some(p) => Some(p.into_os_string().into_encoded_bytes()),
        None => None,
    }
}

impl Default for Config {
    fn default() -> (c: Self)
        ensures
            c.donut_dir is None,
    {
        Config { donut_dir: None }
    }
}

/// The bytes of a copy of `s`.
fn copy_bytes(s: &[u8]) -> (v: Vec<u8>)
    ensures
        v@ == s@,
{
    let mut v: Vec<u8> = Vec::new();
    extend_bytes(&mut v, s);
    assert(v@ =~= s@);
    v
}

impl Config {
    /// Expands a leading `~/` of `path` against the home directory `home`.
    pub fn expand_tilde(path: &[u8], home: Option<&[u8]>) -> (r: Vec<u8>)
        ensures
            r@ == expand_tilde_spec(
                path@,
                match home {
                    Some(h) => Some(h@),
                    None => None,
                },
            ),
    {
        if path.len() >= 2 && path[0] == 126u8 && path[1] == 47u8 {
            match home {
                Some(h) => {
                    let mut rest: Vec<u8> = Vec::new();
                    let mut i: usize = 2;
                    while i < path.len()
                        invariant
                            2 <= i <= path@.len(),
                            rest@ == path@.subrange(2, i as int),
                        decreases path@.len() - i,
                    {
                        rest.push(path[i]);
                        assert(path@.subrange(2, i + 1) =~= path@.subrange(2, i as int).push(path@[i as int]));
                        i = i + 1;
                    }
                    assert(rest@ =~= path@.skip(2));
                    return join(h, rest.as_slice());
                },
                None => {},
            }
        }
        copy_bytes(path)
    }

    /// The directory of the project files, given the home directory `home` and
    /// the working directory `cwd` (empty when it is unknown).
    pub fn resolve_donut_dir(&self, home: Option<&[u8]>, cwd: &[u8]) -> (d: Vec<u8>)
        ensures
            d@ == donut_dir_spec(
                opt_bytes(self.donut_dir),
                match home {
                    Some(h) => Some(h@),
                    None => None,
                },
                cwd@,
            ),
    {
        let dot: Vec<u8> = vec![46u8, 100u8, 111u8, 110u8, 117u8, 116u8];
        assert(dot@ =~= dot_donut());
        match &self.donut_dir {
            Some(dir) => {
                let expanded = Config::expand_tilde(dir.as_slice(), home);
                if is_absolute(expanded.as_slice()) {
                    expanded
                } else {
                    join(cwd, expanded.as_slice())
                }
            },
            None => match home {
                Some(h) => join(h, dot.as_slice()),
                None => dot,
            },
        }
    }

    /// The directory of the project files, with the home directory looked up
    /// through `dirs` and the working directory `cwd` given (empty when it is
    /// unknown).
    pub fn get_donut_dir(&self, cwd: &[u8]) -> (d: Vec<u8>)
        ensures
            exists|home: Option<Seq<u8>>|
                (home matches Some(h) ==> h.len() > 0) && d@ == donut_dir_spec(
                    opt_bytes(self.donut_dir),
                    home,
                    cwd@,
                ),
    {
        let home = home_dir();
        let d = match &home {
            Some(h) => self.resolve_donut_dir(Some(h.as_slice()), cwd),
            None => self.resolve_donut_dir(None, cwd),
        };
        proof {
            let hv = opt_bytes(home);
            assert(d@ == donut_dir_spec(opt_bytes(self.donut_dir), hv, cwd@));
        }
        d
    }
}

} // verus!
