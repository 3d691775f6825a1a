//! Locating the configuration file that governs a working directory.
//!
//! Every directory maps to a stable, filesystem-safe file name under the
//! configuration root (its absolute path rendered in base64, plus the
//! document suffix).  The search starts at the working directory and walks
//! upward through its ancestors; the first directory whose encoded file
//! exists wins.  When no ancestor has one, a single well-known global file
//! is the fallback.
//!
//! Nothing here touches the filesystem: the caller checks which candidate
//! files exist and hands the answers in, so the search itself performs no
//! reads and certainly no writes.

use vstd::prelude::*;
use vstd::string::StringExecFns;

use base64::Engine;

use crate::error::ConfigError;
use crate::paths::{ancestor_at, path_string_of, DirPath};
use crate::paths::lemma_path_chars_prefix;
use crate::paths::lemma_path_chars_len;

verus! {

/// The standard base64 rendering (with padding) of a string's UTF-8 bytes.
pub uninterp spec fn base64_of(s: Seq<char>) -> Seq<char>;

/// Relies on base64's `Engine::encode` with the standard alphabet and
/// padding: the result is a function of the input bytes alone.  The length
/// bound keeps the output-size computation inside the crate from
/// overflowing.
#[verifier::external_body]
fn encode_base64(s: &str) -> (r: String)
    requires
        16 * s@.len() + 16 <= usize::MAX as int,
    ensures
        r@ == base64_of(s@),
{
    base64::engine::general_purpose::STANDARD.encode(s.as_bytes())
}

/// The path's text is short enough for its encoding to be computed.
pub open spec fn fits_encoding(p: Seq<Seq<char>>) -> bool {
    16 * path_string_of(p).len() + 16 <= usize::MAX as int
}

/// The file name a directory's configuration lives under.
pub open spec fn encoded_name_of(p: Seq<Seq<char>>) -> Seq<char> {
    base64_of(path_string_of(p)) + ".toml"@
}

/// Every ancestor of a path that fits the encoding bound fits it too.
pub proof fn lemma_ancestor_fits(p: Seq<Seq<char>>, k: int)
    requires
        fits_encoding(p),
        0 <= k <= p.len(),
    ensures
        fits_encoding(ancestor_at(p, k)),
{
    let a = ancestor_at(p, k);
    if p.len() == 0 {
        assert(a =~= p);
    } else {
        lemma_path_chars_prefix(p, p.len() - k);
        lemma_path_chars_len(p);
        if a.len() == 0 {
        }
    }
}

/// The encoded file name for a directory.
pub fn encoded_config_name(dir: &DirPath) -> (r: String)
    requires
        fits_encoding(dir@),
    ensures
        r@ == encoded_name_of(dir@),
{
    let ps = dir.to_path_string();
    let encoded = encode_base64(ps.as_str());
    encoded.concat(".toml")
}

/// The full path of the configuration file for `dir`: its encoded name
/// under the configuration root.
pub fn get_encoded_config_path(config_root: &DirPath, dir: &DirPath) -> (r: DirPath)
    requires
        fits_encoding(dir@),
    ensures
        r@ == config_root@.push(encoded_name_of(dir@)),
{
    let name = encoded_config_name(dir);
    let mut components = config_root.clone_dir().components;
    let ghost before = components.deep_view();
    components.push(name);
    proof {
        assert(components.deep_view() =~= before.push(encoded_name_of(dir@)));
    }
    DirPath { components }
}

/// The configuration file path for the working directory itself, computed
/// without any existence check; used when a fresh file is created.
pub fn get_config_path_for_current_dir(config_root: &DirPath, cwd: &DirPath) -> (r: DirPath)
    requires
        fits_encoding(cwd@),
    ensures
        r@ == config_root@.push(encoded_name_of(cwd@)),
{
    get_encoded_config_path(config_root, cwd)
}

/// The name of the single global fallback configuration file.
pub fn global_config_file_name() -> (r: String)
    ensures
        r@ == "global.toml"@,
{
    String::from_str("global.toml")
}

/// The encoded file names of the working directory and each of its
/// ancestors, nearest first: the names whose existence decides the search.
pub fn config_candidates(cwd: &DirPath) -> (r: Vec<String>)
    requires
        fits_encoding(cwd@),
    ensures
        r@.len() == cwd@.len() + 1,
        forall|k: int| 0 <= k <= cwd@.len() ==> r.deep_view()[k] == encoded_name_of(
            ancestor_at(cwd@, k),
        ),
{
    let depth = cwd.components.len();
    let mut out: Vec<String> = Vec::new();
    let mut cur = cwd.clone_dir();
    let mut k: usize = 0;
    proof {
        assert(ancestor_at(cwd@, 0) =~= cwd@);
    }
    while k < depth
        invariant
            k <= depth,
            depth == cwd@.len(),
            fits_encoding(cwd@),
            out@.len() == k,
            cur@ == ancestor_at(cwd@, k as int),
            forall|j: int| 0 <= j < k ==> out.deep_view()[j] == encoded_name_of(
                ancestor_at(cwd@, j),
            ),
        decreases depth - k,
    {
        proof {
            lemma_ancestor_fits(cwd@, k as int);
        }
        let ghost before = out.deep_view();
        let name = encoded_config_name(&cur);
        out.push(name);
        proof {
            assert(out.deep_view() =~= before.push(encoded_name_of(ancestor_at(cwd@, k as int))));
        }
        let p = match cur.parent() {
            Some(p) => p,
            None => {
                proof {
                    assert(cur@.len() == depth - k);
                    assert(false);
                }
                cur
            },
        };
        cur = p;
        proof {
            assert(ancestor_at(cwd@, k as int).drop_last() =~= ancestor_at(cwd@, k + 1));
        }
        k = k + 1;
    }
    proof {
        lemma_ancestor_fits(cwd@, depth as int);
    }
    let ghost before = out.deep_view();
    let name = encoded_config_name(&cur);
    out.push(name);
    proof {
        assert(out.deep_view() =~= before.push(encoded_name_of(ancestor_at(cwd@, depth as int))));
    }
    out
}

/// The first index at which a candidate file exists, or `None` when none
/// does.
pub open spec fn first_true(s: Seq<bool>) -> Option<int>
    decreases s.len(),
{
    if s.len() == 0 {
        None
    } else if s[0] {
        Some(0int)
    } else {
        match first_true(s.drop_first()) {
            None => None,
            Some(i) => Some(i + 1),
        }
    }
}

/// What [`first_true`] returns: the least index holding `true`, and `None`
/// exactly when every entry is `false`.
pub proof fn lemma_first_true(s: Seq<bool>)
    ensures
        match first_true(s) {
            Some(k) => 0 <= k < s.len() && s[k] && forall|j: int| 0 <= j < k ==> !s[j],
            None => forall|j: int| 0 <= j < s.len() ==> !s[j],
        },
    decreases s.len(),
{
    if s.len() > 0 && !s[0] {
        lemma_first_true(s.drop_first());
        let d = s.drop_first();
        match first_true(d) {
            None => {
                assert forall|j: int| 0 <= j < s.len() implies !s[j] by {
                    if j > 0 {
                        assert(d[j - 1] == s[j]);
                    }
                }
            },
            Some(i) => {
                assert(d[i] == s[i + 1]);
                assert forall|j: int| 0 <= j < i + 1 implies !s[j] by {
                    if j > 0 {
                        assert(d[j - 1] == s[j]);
                    }
                }
            },
        }
    }
}

/// An index known to hold `true`, with everything before it `false`, is
/// what [`first_true`] returns.
pub proof fn lemma_first_true_is(s: Seq<bool>, k: int)
    requires
        0 <= k < s.len(),
        s[k],
        forall|j: int| 0 <= j < k ==> !s[j],
    ensures
        first_true(s) == Some(k),
{
    lemma_first_true(s);
    match first_true(s) {
        None => {
            assert(false);
        },
        Some(i) => {
            if i < k {
                assert(!s[i]);
            }
            if k < i {
                assert(!s[k]);
            }
        },
    }
}

/// The result of the search: the file found, and the ancestor directory it
/// was found for (absent when only the global fallback existed).
pub struct Located {
    /// The configuration file's full path under the configuration root.
    pub file: DirPath,
    /// The ancestor directory whose encoded file won — the tracked_root root.
    pub tracked_root: Option<DirPath>,
}

/// Finds the configuration file for `cwd`.  `present[k]` says whether the
/// encoded candidate file of the ancestor `k` levels up exists (the order
/// [`config_candidates`] produces); `global_present` whether the global
/// fallback file exists.
///
/// The nearest ancestor whose file exists wins; the global file is used
/// only when no ancestor file exists; otherwise the search fails with
/// `FileNotFound`.  A returned file is always one whose presence flag was
/// set — never a path nothing was found at — and the search itself reads
/// and writes nothing.
pub fn locate_config_path(
    config_root: &DirPath,
    cwd: &DirPath,
    present: &Vec<bool>,
    global_present: bool,
) -> (r: Result<Located, ConfigError>)
    requires
        present@.len() == cwd@.len() + 1,
        fits_encoding(cwd@),
    ensures
        match first_true(present@) {
            Some(k) => r matches Ok(l) && l.file@ == config_root@.push(
                encoded_name_of(ancestor_at(cwd@, k)),
            ) && (l.tracked_root matches Some(t) && t@ == ancestor_at(cwd@, k)),
            None => {
                if global_present {
                    r matches Ok(l) && l.file@ == config_root@.push("global.toml"@)
                        && l.tracked_root is None
                } else {
                    r matches Err(e) && e is FileNotFound
                }
            },
        },
{
    let depth = cwd.components.len();
    let mut cur = cwd.clone_dir();
    let mut k: usize = 0;
    proof {
        assert(ancestor_at(cwd@, 0) =~= cwd@);
    }
    while k < depth
        invariant
            k <= depth,
            depth == cwd@.len(),
            present@.len() == depth + 1,
            fits_encoding(cwd@),
            cur@ == ancestor_at(cwd@, k as int),
            forall|j: int| 0 <= j < k ==> !present@[j],
        decreases depth - k,
    {
        if present[k] {
            proof {
                lemma_first_true_is(present@, k as int);
                lemma_ancestor_fits(cwd@, k as int);
            }
            let file = get_encoded_config_path(config_root, &cur);
            return Ok(Located { file, tracked_root: Some(cur) });
        }
        let p = match cur.parent() {
            Some(p) => p,
            None => {
                proof {
                    assert(cur@.len() == depth - k);
                    assert(false);
                }
                cur
            },
        };
        cur = p;
        proof {
            assert(ancestor_at(cwd@, k as int).drop_last() =~= ancestor_at(cwd@, k + 1));
        }
        k = k + 1;
    }
    if present[depth] {
        proof {
            lemma_first_true_is(present@, depth as int);
            lemma_ancestor_fits(cwd@, depth as int);
        }
        let file = get_encoded_config_path(config_root, &cur);
        return Ok(Located { file, tracked_root: Some(cur) });
    }
    proof {
        lemma_first_true(present@);
        match first_true(present@) {
            Some(i) => {
                assert(!present@[i]);
            },
            None => {},
        }
    }
    if global_present {
        let name = global_config_file_name();
        let mut components = config_root.clone_dir().components;
        let ghost before = components.deep_view();
        components.push(name);
        proof {
            assert(components.deep_view() =~= before.push("global.toml"@));
        }
        Ok(Located { file: DirPath { components }, tracked_root: None })
    } else {
        Err(ConfigError::FileNotFound)
    }
}

/// The tracked_root root alone: the ancestor directory the winning file was
/// found for.  Fails with `FileNotFound` when no ancestor file exists; the
/// global fallback names no directory.
pub fn locate_tracked_path(cwd: &DirPath, present: &Vec<bool>) -> (r: Result<
    DirPath,
    ConfigError,
>)
    requires
        present@.len() == cwd@.len() + 1,
    ensures
        match first_true(present@) {
            Some(k) => r matches Ok(t) && t@ == ancestor_at(cwd@, k),
            None => r matches Err(e) && e is FileNotFound,
        },
{
    let depth = cwd.components.len();
    let mut cur = cwd.clone_dir();
    let mut k: usize = 0;
    proof {
        assert(ancestor_at(cwd@, 0) =~= cwd@);
    }
    while k < depth
        invariant
            k <= depth,
            depth == cwd@.len(),
            present@.len() == depth + 1,
            cur@ == ancestor_at(cwd@, k as int),
            forall|j: int| 0 <= j < k ==> !present@[j],
        decreases depth - k,
    {
        if present[k] {
            proof {
                lemma_first_true_is(present@, k as int);
            }
            return Ok(cur);
        }
        let p = match cur.parent() {
            Some(p) => p,
            None => {
                proof {
                    assert(cur@.len() == depth - k);
                    assert(false);
                }
                cur
            },
        };
        cur = p;
        proof {
            assert(ancestor_at(cwd@, k as int).drop_last() =~= ancestor_at(cwd@, k + 1));
        }
        k = k + 1;
    }
    if present[depth] {
        proof {
            lemma_first_true_is(present@, depth as int);
        }
        return Ok(cur);
    }
    proof {
        lemma_first_true(present@);
        match first_true(present@) {
            Some(i) => {
                assert(!present@[i]);
            },
            None => {},
        }
    }
    Err(ConfigError::FileNotFound)
}

/// With a configuration present at the ancestor `a` levels up and absent
/// at every directory between the working directory and that ancestor, the
/// search finds exactly the ancestor's file: started from any descendant,
/// it returns the file at the nearest ancestor that has one.
pub proof fn lemma_locate_finds_nearest_ancestor(present: Seq<bool>, a: int)
    requires
        0 <= a < present.len(),
        present[a],
        forall|j: int| 0 <= j < a ==> !present[j],
    ensures
        first_true(present) == Some(a),
{
    lemma_first_true_is(present, a);
}

/// The search never names an index whose candidate file was absent: a
/// returned position always holds `true`.
pub proof fn lemma_locate_only_present(present: Seq<bool>)
    ensures
        match first_true(present) {
            Some(k) => 0 <= k < present.len() && present[k],
            None => true,
        },
{
    lemma_first_true(present);
}

} // verus!
