//! Directory paths, modelled as the ordered list of their components below
//! the filesystem root.

use vstd::prelude::*;
use vstd::string::StrSliceExecFns;
use vstd::string::StringExecFns;

use crate::strings;

verus! {

broadcast use vstd::std_specs::vec::vec_clone_deep_view_proof;

/// An absolute directory path: its components below the filesystem root.
pub struct DirPath {
    pub components: Vec<String>,
}

/// The ancestor of `p` that lies `k` levels up (`k == 0` is `p` itself).
pub open spec fn ancestor_at(p: Seq<Seq<char>>, k: int) -> Seq<Seq<char>> {
    p.take(p.len() - k)
}

/// The characters of `p` written with a `/` before each component.
pub open spec fn path_chars(p: Seq<Seq<char>>) -> Seq<char>
    decreases p.len(),
{
    if p.len() == 0 {
        Seq::<char>::empty()
    } else {
        seq!['/'] + p[0] + path_chars(p.drop_first())
    }
}

/// The textual form of a path; the empty path is the root `/`.
pub open spec fn path_string_of(p: Seq<Seq<char>>) -> Seq<char> {
    if p.len() == 0 {
        seq!['/']
    } else {
        path_chars(p)
    }
}

/// A path's text never gets longer when components are dropped from its end.
pub proof fn lemma_path_chars_prefix(p: Seq<Seq<char>>, m: int)
    requires
        0 <= m <= p.len(),
    ensures
        path_chars(p.take(m)).len() <= path_chars(p).len(),
    decreases p.len(),
{
    if m == 0 {
        assert(p.take(0) =~= Seq::<Seq<char>>::empty());
        lemma_path_chars_len(p);
    } else {
        let t = p.take(m);
        assert(t[0] == p[0]);
        assert(t.drop_first() =~= p.drop_first().take(m - 1));
        lemma_path_chars_prefix(p.drop_first(), m - 1);
    }
}

/// A path's text is never shorter than one character per component.
pub proof fn lemma_path_chars_len(p: Seq<Seq<char>>)
    ensures
        path_chars(p).len() >= p.len(),
    decreases p.len(),
{
    if p.len() > 0 {
        lemma_path_chars_len(p.drop_first());
    }
}

impl DirPath {
    /// The mathematical view: one sequence of characters per component.
    pub open spec fn view(&self) -> Seq<Seq<char>> {
        self.components.deep_view()
    }

    /// A copy of the path.
    pub fn clone_dir(&self) -> (r: DirPath)
        ensures
            r@ == self@,
    {
        DirPath { components: self.components.clone() }
    }

    /// The parent directory, or `None` at the filesystem root.
    pub fn parent(&self) -> (r: Option<DirPath>)
        ensures
            self@.len() == 0 ==> r is None,
            self@.len() > 0 ==> (r matches Some(p) && p@ == self@.drop_last()),
    {
        if self.components.len() == 0 {
            None
        } else {
            let mut c: Vec<String> = Vec::new();
            let mut i: usize = 0;
            while i < self.components.len() - 1
                invariant
                    i <= self.components.len() - 1,
                    self.components.len() >= 1,
                    c.deep_view() == self@.subrange(0, i as int),
                decreases self.components.len() - 1 - i,
            {
                let ghost prev = c.deep_view();
                c.push(self.components[i].clone());
                proof {
                    assert(c.deep_view() =~= prev.push(self@[i as int]));
                    assert(c.deep_view() =~= self@.subrange(0, i + 1));
                }
                i = i + 1;
            }
            proof {
                assert(c.deep_view() =~= self@.drop_last());
            }
            Some(DirPath { components: c })
        }
    }

    /// The final path segment (the directory's own name), or `None` at the
    /// filesystem root.
    pub fn name(&self) -> (r: Option<String>)
        ensures
            self@.len() == 0 ==> r is None,
            self@.len() > 0 ==> (r matches Some(n) && n@ == self@.last()),
    {
        if self.components.len() == 0 {
            None
        } else {
            let n = self.components[self.components.len() - 1].clone();
            Some(n)
        }
    }

    /// The textual form, one `/` before each component; `/` for the root.
    pub fn to_path_string(&self) -> (r: String)
        ensures
            r@ == path_string_of(self@),
    {
        proof {
            reveal_strlit("/");
        }
        if self.components.len() == 0 {
            let r = String::from_str("/");
            proof {
                assert(r@ =~= seq!['/']);
            }
            return r;
        }
        let mut out = String::new();
        let mut i: usize = 0;
        proof {
            assert(self@.skip(0) =~= self@);
            assert(out@ + path_chars(self@) =~= path_chars(self@));
        }
        while i < self.components.len()
            invariant
                i <= self.components@.len(),
                self@.len() == self.components@.len(),
                path_chars(self@) == out@ + path_chars(self@.skip(i as int)),
            decreases self.components@.len() - i,
        {
            let ghost old_out = out@;
            let ghost rem = self@.skip(i as int);
            out.append("/");
            out.append(self.components[i].as_str());
            proof {
                reveal_strlit("/");
                assert("/"@ =~= seq!['/']);
                assert(rem[0] == self@[i as int]);
                assert(rem.drop_first() =~= self@.skip(i + 1));
                assert(old_out + (seq!['/'] + self@[i as int] + path_chars(self@.skip(i + 1)))
                    =~= out@ + path_chars(self@.skip(i + 1)));
            }
            i = i + 1;
        }
        proof {
            assert(path_chars(self@.skip(self@.len() as int)).len() == 0);
            assert(out@ + path_chars(self@.skip(self@.len() as int)) =~= out@);
        }
        out
    }
}

/// The target named in a version-control worktree pointer file: the text
/// after the first `:`, trimmed; `None` when the content has no `:`.
pub fn worktree_gitdir_target(content: &str) -> (r: Option<String>)
    ensures
        match r {
            Option::None => forall|i: int| 0 <= i < content@.len() ==> content@[i] != ':',
            Option::Some(t) => exists|i: int|
                0 <= i < content@.len() && #[trigger] content@[i] == ':' && (forall|j: int|
                    0 <= j < i ==> content@[j] != ':') && t@ == strings::trim_spec(
                    gitdir_rest(content@, i),
                ),
        },
{
    let n = content.unicode_len();
    let mut i: usize = 0;
    while i < n
        invariant
            i <= n,
            n == content@.len(),
            forall|j: int| 0 <= j < i ==> content@[j] != ':',
        decreases n - i,
    {
        if content.get_char(i) == ':' {
            let rest = content.substring_char(i + 1, n);
            let t = strings::trim(rest);
            proof {
                assert(rest@ =~= gitdir_rest(content@, i as int));
            }
            return Some(t);
        }
        i = i + 1;
    }
    None
}

/// The text of a worktree pointer after the `:` at position `i`: the part
/// between the following segment separator and the end.
pub open spec fn gitdir_rest(s: Seq<char>, i: int) -> Seq<char> {
    s.subrange(i + 1, s.len() as int)
}

/// The name of the main repository a worktree administrative directory
/// belongs to.  Such a directory lies at
/// `<main>/.git/worktrees/<worktree>`, so the name is found three levels
/// up; `None` when the path is too shallow for that.
pub fn main_repo_name(gitdir: &DirPath) -> (r: Option<String>)
    ensures
        gitdir@.len() < 4 ==> r is None,
        gitdir@.len() >= 4 ==> (r matches Some(n) && n@ == gitdir@[gitdir@.len() - 4]),
{
    if gitdir.components.len() < 4 {
        None
    } else {
        let n = gitdir.components[gitdir.components.len() - 4].clone();
        Some(n)
    }
}


/// The name to substitute for the version-control root: the root
/// directory's own name, trimmed; `None` at the filesystem root.
pub fn git_root_name(root: &DirPath) -> (r: Option<String>)
    ensures
        root@.len() == 0 ==> r is None,
        root@.len() > 0 ==> (r matches Some(n) && n@ == strings::trim_spec(root@.last())),
{
    match root.name() {
        None => None,
        Some(n) => Some(strings::trim(n.as_str())),
    }
}

/// The name to substitute for the version-control root's parent: that
/// directory's name, trimmed; `None` when the root has no named parent.
pub fn parent_git_root_name(root: &DirPath) -> (r: Option<String>)
    ensures
        root@.len() <= 1 ==> r is None,
        root@.len() > 1 ==> (r matches Some(n) && n@ == strings::trim_spec(
            root@[root@.len() - 2],
        )),
{
    match root.parent() {
        None => None,
        Some(p) => match p.name() {
            None => None,
            Some(n) => Some(strings::trim(n.as_str())),
        },
    }
}

} // verus!
