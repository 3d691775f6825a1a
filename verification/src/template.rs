//! Expansion of `{{token}}` macro expressions inside configuration values.
//!
//! A value is scanned character by character.  On the two-character sequence
//! `{{` a token is captured up to the next `}}` (or to the end of the value
//! when it is unterminated) and resolved; every other character is copied
//! through verbatim.  Any resolution failure makes the whole value resolve
//! to absent rather than to a partially expanded string.

use vstd::assert_by_contradiction;
use vstd::prelude::*;
use vstd::string::StrSliceExecFns;
use vstd::string::StringExecFns;

use crate::paths::DirPath;
use crate::strings;

verus! {

/// A macro expression found between `{{` and `}}`.
pub enum Macro {
    /// The current branch name.
    Branch,
    /// The name of the directory the configuration file is registered for.
    BaseDir,
    /// The name of that directory's parent.
    ParentBaseDir,
    /// The name of the process's current working directory.
    CurrentDir,
    /// The name of the current working directory's parent.
    ParentDir,
    /// The name of the version-control root directory.
    GitRoot,
    /// The name of the version-control root's parent.
    ParentGitRoot,
    /// A shell command whose trimmed standard output is substituted.
    Shell(String),
}

/// The environment-supplied values macros resolve to.  A field holding
/// `None` means that value could not be obtained; every token that needs it
/// then fails, which makes the containing value resolve to absent.
pub struct TemplateContext {
    pub branch: Option<String>,
    pub base_dir: Option<String>,
    pub parent_base_dir: Option<String>,
    pub current_dir: Option<String>,
    pub parent_dir: Option<String>,
    pub git_root: Option<String>,
    pub parent_git_root: Option<String>,
    /// Shell commands and their captured outputs; a `None` output records a
    /// command that failed.  The first entry for a command wins.
    pub shell_outputs: Vec<(String, Option<String>)>,
}

/// A token is a shell macro when it starts with `$`.
pub open spec fn is_shell_token(tok: Seq<char>) -> bool {
    tok.len() > 0 && tok[0] == '$'
}

/// The token with every leading `$` removed.
pub open spec fn strip_dollars(s: Seq<char>) -> Seq<char>
    decreases s.len(),
{
    if s.len() > 0 && s[0] == '$' {
        strip_dollars(s.drop_first())
    } else {
        s
    }
}

/// The command a shell token stands for: leading `$`s removed, then trimmed.
pub open spec fn shell_command_of(tok: Seq<char>) -> Seq<char> {
    strings::trim_spec(strip_dollars(tok))
}

/// The recorded output for `cmd`: the value of its first entry, or `None`
/// when no entry exists.
pub open spec fn shell_lookup(pairs: Seq<(String, Option<String>)>, cmd: Seq<char>) -> Option<
    String,
>
    decreases pairs.len(),
{
    if pairs.len() == 0 {
        None
    } else if pairs[0].0@ == cmd {
        pairs[0].1
    } else {
        shell_lookup(pairs.drop_first(), cmd)
    }
}

/// The view of an optional string.
pub open spec fn opt_str_view(o: Option<String>) -> Option<Seq<char>> {
    match o {
        Option::None => None,
        Option::Some(s) => Some(s@),
    }
}

/// What a single token resolves to, or `None` when it is unrecognized or
/// its value could not be obtained.
pub open spec fn resolve_token_spec(ctx: TemplateContext, tok: Seq<char>) -> Option<Seq<char>> {
    if tok == "branch"@ {
        opt_str_view(ctx.branch)
    } else if tok == "base_dir"@ {
        opt_str_view(ctx.base_dir)
    } else if tok == "parent_base_dir"@ {
        opt_str_view(ctx.parent_base_dir)
    } else if tok == "current_dir"@ {
        opt_str_view(ctx.current_dir)
    } else if tok == "parent_dir"@ {
        opt_str_view(ctx.parent_dir)
    } else if tok == "git_root"@ {
        opt_str_view(ctx.git_root)
    } else if tok == "parent_git_root"@ {
        opt_str_view(ctx.parent_git_root)
    } else if is_shell_token(tok) {
        opt_str_view(shell_lookup(ctx.shell_outputs@, shell_command_of(tok)))
    } else {
        None
    }
}

/// The index of the first `}}` pair in `s`, or `s.len()` when there is none.
pub open spec fn find_close(s: Seq<char>) -> int
    decreases s.len(),
{
    if s.len() < 2 {
        s.len() as int
    } else if s[0] == '}' && s[1] == '}' {
        0
    } else {
        1 + find_close(s.drop_first())
    }
}

pub proof fn lemma_find_close_bounds(s: Seq<char>)
    ensures
        0 <= find_close(s) <= s.len(),
        find_close(s) + 2 <= s.len() ==> s[find_close(s)] == '}' && s[find_close(s) + 1] == '}',
        find_close(s) < s.len() ==> find_close(s) + 2 <= s.len(),
    decreases s.len(),
{
    if s.len() < 2 {
    } else if s[0] == '}' && s[1] == '}' {
    } else {
        lemma_find_close_bounds(s.drop_first());
    }
}

/// The result of expanding every macro in `s` against `ctx`, or `None` when
/// some token failed to resolve.
pub open spec fn process_spec(ctx: TemplateContext, s: Seq<char>) -> Option<Seq<char>>
    decreases s.len(),
{
    if s.len() == 0 {
        Some(Seq::<char>::empty())
    } else if s.len() >= 2 && s[0] == '{' && s[1] == '{' {
        let body = s.skip(2);
        let fc = find_close_clipped(body);
        let tok = body.take(fc);
        let rest = body.skip(if fc + 2 <= body.len() as int { fc + 2 } else { body.len() as int });
        match resolve_token_spec(ctx, tok) {
            None => None,
            Some(v) => match process_spec(ctx, rest) {
                None => None,
                Some(r) => Some(v + r),
            },
        }
    } else {
        match process_spec(ctx, s.drop_first()) {
            None => None,
            Some(r) => Some(seq![s[0]] + r),
        }
    }
}

/// [`find_close`] clipped into `[0, s.len()]`, so that `take` and `skip`
/// stay in range without a side condition.
pub open spec fn find_close_clipped(s: Seq<char>) -> int {
    if 0 <= find_close(s) <= s.len() {
        find_close(s)
    } else {
        s.len() as int
    }
}

/// The raw tokens of `s`, in scan order.
pub open spec fn tokens_spec(s: Seq<char>) -> Seq<Seq<char>>
    decreases s.len(),
{
    if s.len() == 0 {
        Seq::<Seq<char>>::empty()
    } else if s.len() >= 2 && s[0] == '{' && s[1] == '{' {
        let body = s.skip(2);
        let fc = find_close_clipped(body);
        let tok = body.take(fc);
        let rest = body.skip(if fc + 2 <= body.len() as int { fc + 2 } else { body.len() as int });
        seq![tok] + tokens_spec(rest)
    } else {
        tokens_spec(s.drop_first())
    }
}

/// Classifies a raw token.  The named tokens form a closed, case-sensitive
/// set; anything starting with `$` is a shell command; everything else is
/// unrecognized.
pub fn resolve_token_to_macro(token: &str) -> (r: Option<Macro>)
    ensures
        match r {
            Option::None => !is_named_token(token@) && !is_shell_token(token@),
            Option::Some(m) => match m {
                Macro::Branch => token@ == "branch"@,
                Macro::BaseDir => token@ == "base_dir"@,
                Macro::ParentBaseDir => token@ == "parent_base_dir"@,
                Macro::CurrentDir => token@ == "current_dir"@,
                Macro::ParentDir => token@ == "parent_dir"@,
                Macro::GitRoot => token@ == "git_root"@,
                Macro::ParentGitRoot => token@ == "parent_git_root"@,
                Macro::Shell(cmd) => is_shell_token(token@) && cmd@ == shell_command_of(token@),
            },
        },
{
    if strings::str_eq(token, "branch") {
        return Some(Macro::Branch);
    }
    if strings::str_eq(token, "base_dir") {
        return Some(Macro::BaseDir);
    }
    if strings::str_eq(token, "parent_base_dir") {
        return Some(Macro::ParentBaseDir);
    }
    if strings::str_eq(token, "current_dir") {
        return Some(Macro::CurrentDir);
    }
    if strings::str_eq(token, "parent_dir") {
        return Some(Macro::ParentDir);
    }
    if strings::str_eq(token, "git_root") {
        return Some(Macro::GitRoot);
    }
    if strings::str_eq(token, "parent_git_root") {
        return Some(Macro::ParentGitRoot);
    }
    let n = token.unicode_len();
    if n > 0 && token.get_char(0) == '$' {
        let mut k: usize = 0;
        proof {
            assert(token@.skip(0) =~= token@);
        }
        while k < n && token.get_char(k) == '$'
            invariant
                k <= n,
                n == token@.len(),
                strip_dollars(token@) == strip_dollars(token@.skip(k as int)),
            decreases n - k,
        {
            proof {
                assert(token@.skip(k as int).drop_first() =~= token@.skip(k + 1));
            }
            k = k + 1;
        }
        proof {
            if k == n {
                assert(token@.skip(k as int).len() == 0);
            }
            assert(strip_dollars(token@.skip(k as int)) == token@.skip(k as int));
        }
        let stripped = token.substring_char(k, n);
        proof {
            assert(stripped@ =~= token@.skip(k as int));
        }
        let cmd = strings::trim(stripped);
        return Some(Macro::Shell(cmd));
    }
    None
}

/// The token is one of the seven macro names.
pub open spec fn is_named_token(tok: Seq<char>) -> bool {
    tok == "branch"@ || tok == "base_dir"@ || tok == "parent_base_dir"@ || tok == "current_dir"@
        || tok == "parent_dir"@ || tok == "git_root"@ || tok == "parent_git_root"@
}

proof fn lemma_shell_token_is_not_named(tok: Seq<char>)
    requires
        is_shell_token(tok),
    ensures
        !is_named_token(tok),
{
    reveal_strlit("branch");
    reveal_strlit("base_dir");
    reveal_strlit("parent_base_dir");
    reveal_strlit("current_dir");
    reveal_strlit("parent_dir");
    reveal_strlit("git_root");
    reveal_strlit("parent_git_root");
}

/// Resolves one raw token against the context.
pub fn resolve_token(ctx: &TemplateContext, token: &str) -> (r: Option<String>)
    ensures
        opt_str_view(r) == resolve_token_spec(*ctx, token@),
{
    match resolve_token_to_macro(token) {
        None => None,
        Some(m) => resolve_macro(ctx, &m, Ghost(token@)),
    }
}

/// Looks the value of an already classified macro up in the context.
fn resolve_macro(ctx: &TemplateContext, m: &Macro, token: Ghost<Seq<char>>) -> (r: Option<String>)
    requires
        match m {
            Macro::Branch => token@ == "branch"@,
            Macro::BaseDir => token@ == "base_dir"@,
            Macro::ParentBaseDir => token@ == "parent_base_dir"@,
            Macro::CurrentDir => token@ == "current_dir"@,
            Macro::ParentDir => token@ == "parent_dir"@,
            Macro::GitRoot => token@ == "git_root"@,
            Macro::ParentGitRoot => token@ == "parent_git_root"@,
            Macro::Shell(cmd) => is_shell_token(token@) && cmd@ == shell_command_of(token@),
        },
    ensures
        opt_str_view(r) == resolve_token_spec(*ctx, token@),
{
    proof {
        reveal_strlit("branch");
        reveal_strlit("base_dir");
        reveal_strlit("parent_base_dir");
        reveal_strlit("current_dir");
        reveal_strlit("parent_dir");
        reveal_strlit("git_root");
        reveal_strlit("parent_git_root");
    }
    match m {
        Macro::Branch => clone_opt(&ctx.branch),
        Macro::BaseDir => clone_opt(&ctx.base_dir),
        Macro::ParentBaseDir => clone_opt(&ctx.parent_base_dir),
        Macro::CurrentDir => clone_opt(&ctx.current_dir),
        Macro::ParentDir => clone_opt(&ctx.parent_dir),
        Macro::GitRoot => clone_opt(&ctx.git_root),
        Macro::ParentGitRoot => clone_opt(&ctx.parent_git_root),
        Macro::Shell(cmd) => {
            proof {
                lemma_shell_token_is_not_named(token@);
            }
            shell_output_for(&ctx.shell_outputs, cmd.as_str())
        },
    }
}

/// A copy of an optional string.
fn clone_opt(o: &Option<String>) -> (r: Option<String>)
    ensures
        opt_str_view(r) == opt_str_view(*o),
{
    match o {
        None => None,
        Some(s) => Some(s.clone()),
    }
}

/// The recorded output of `cmd`, per [`shell_lookup`].
fn shell_output_for(pairs: &Vec<(String, Option<String>)>, cmd: &str) -> (r: Option<String>)
    ensures
        opt_str_view(r) == opt_str_view(shell_lookup(pairs@, cmd@)),
{
    let n = pairs.len();
    let mut i: usize = 0;
    proof {
        assert(pairs@.skip(0) =~= pairs@);
    }
    while i < n
        invariant
            i <= n,
            n == pairs@.len(),
            shell_lookup(pairs@, cmd@) == shell_lookup(pairs@.skip(i as int), cmd@),
        decreases n - i,
    {
        proof {
            assert(pairs@.skip(i as int)[0] == pairs@[i as int]);
            assert(pairs@.skip(i as int).drop_first() =~= pairs@.skip(i + 1));
        }
        if strings::str_eq(pairs[i].0.as_str(), cmd) {
            return clone_opt(&pairs[i].1);
        }
        i = i + 1;
    }
    proof {
        assert(pairs@.skip(n as int).len() == 0);
    }
    None
}

/// `rest` with `o` put in front of its value.
pub open spec fn prepend_opt(o: Seq<char>, rest: Option<Seq<char>>) -> Option<Seq<char>> {
    match rest {
        None => None,
        Some(r) => Some(o + r),
    }
}

/// The position of the first `}}` pair at or after `start`, or the length
/// of `raw` when there is none.
fn find_close_from(raw: &str, start: usize) -> (j: usize)
    requires
        start <= raw@.len(),
    ensures
        start <= j <= raw@.len(),
        j - start == find_close(raw@.skip(start as int)),
{
    let n = raw.unicode_len();
    let mut j = start;
    proof {
        assert(raw@.skip(start as int).skip(0) =~= raw@.skip(start as int));
    }
    while n - j > 1
        invariant
            start <= j <= n,
            n == raw@.len(),
            find_close(raw@.skip(start as int)) == j - start + find_close(raw@.skip(j as int)),
        decreases n - j,
    {
        let a = raw.get_char(j);
        let b = raw.get_char(j + 1);
        proof {
            assert(raw@.skip(j as int)[0] == raw@[j as int]);
            assert(raw@.skip(j as int)[1] == raw@[j + 1]);
        }
        if a == '}' && b == '}' {
            proof {
                assert(find_close(raw@.skip(j as int)) == 0);
            }
            return j;
        }
        proof {
            assert(raw@.skip(j as int).drop_first() =~= raw@.skip(j + 1));
        }
        j = j + 1;
    }
    proof {
        assert(raw@.skip(j as int).len() < 2);
        lemma_find_close_bounds(raw@.skip(start as int));
    }
    n
}

/// Expands every `{{token}}` in `raw`, copying all other characters
/// through.  Returns `None` exactly when some token fails to resolve, so a
/// caller never sees a partially expanded value.
pub fn process_config_value(ctx: &TemplateContext, raw: &str) -> (r: Option<String>)
    ensures
        opt_str_view(r) == process_spec(*ctx, raw@),
{
    let n = raw.unicode_len();
    let mut out = String::new();
    let mut i: usize = 0;
    proof {
        assert(raw@.skip(0) =~= raw@);
    }
    while i < n
        invariant
            i <= n,
            n == raw@.len(),
            process_spec(*ctx, raw@) == prepend_opt(out@, process_spec(*ctx, raw@.skip(i as int))),
        decreases n - i,
    {
        let suffix = Ghost(raw@.skip(i as int));
        proof {
            assert(suffix@[0] == raw@[i as int]);
            if i + 1 < n {
                assert(suffix@[1] == raw@[i + 1]);
            }
        }
        let c = raw.get_char(i);
        if c == '{' && i + 1 < n && raw.get_char(i + 1) == '{' {
            let start = i + 2;
            let body = Ghost(raw@.skip(start as int));
            proof {
                assert(suffix@.skip(2) =~= body@);
                lemma_find_close_bounds(body@);
            }
            let tok_end = find_close_from(raw, start);
            let token = raw.substring_char(start, tok_end);
            proof {
                assert(token@ =~= body@.take(find_close_clipped(body@)));
            }
            let next = if n - tok_end >= 2 {
                tok_end + 2
            } else {
                n
            };
            proof {
                let fc = find_close_clipped(body@);
                let krest = if fc + 2 <= body@.len() as int {
                    fc + 2
                } else {
                    body@.len() as int
                };
                assert(body@.skip(krest) =~= raw@.skip(next as int));
            }
            match resolve_token(ctx, token) {
                None => {
                    return None;
                },
                Some(v) => {
                    let ghost old_out = out@;
                    out.append(v.as_str());
                    proof {
                        let rest = raw@.skip(next as int);
                        assert(process_spec(*ctx, suffix@) == prepend_opt(
                            v@,
                            process_spec(*ctx, rest),
                        ));
                        match process_spec(*ctx, rest) {
                            None => {},
                            Some(rr) => {
                                assert(old_out + (v@ + rr) =~= out@ + rr);
                            },
                        }
                    }
                    i = next;
                },
            }
        } else {
            let ghost old_out = out@;
            out.append(raw.substring_char(i, i + 1).to_owned().as_str());
            proof {
                assert(suffix@.drop_first() =~= raw@.skip(i + 1));
                assert(raw@.subrange(i as int, i + 1) =~= seq![raw@[i as int]]);
                match process_spec(*ctx, raw@.skip(i + 1)) {
                    None => {},
                    Some(rr) => {
                        assert(old_out + (seq![raw@[i as int]] + rr) =~= out@ + rr);
                    },
                }
            }
            i = i + 1;
        }
    }
    proof {
        assert(raw@.skip(n as int).len() == 0);
        assert(out@ + Seq::<char>::empty() =~= out@);
    }
    Some(out)
}

/// The raw tokens of `raw`, in scan order.  A caller resolves the outside
/// values these tokens need (branch queries, shell commands) before it asks
/// for expansion.
pub fn tokens_of(raw: &str) -> (r: Vec<String>)
    ensures
        r.deep_view() == tokens_spec(raw@),
{
    let n = raw.unicode_len();
    let mut out: Vec<String> = Vec::new();
    let mut i: usize = 0;
    proof {
        assert(raw@.skip(0) =~= raw@);
    }
    while i < n
        invariant
            i <= n,
            n == raw@.len(),
            tokens_spec(raw@) == out.deep_view() + tokens_spec(raw@.skip(i as int)),
        decreases n - i,
    {
        let suffix = Ghost(raw@.skip(i as int));
        proof {
            assert(suffix@[0] == raw@[i as int]);
            if i + 1 < n {
                assert(suffix@[1] == raw@[i + 1]);
            }
        }
        let c = raw.get_char(i);
        if c == '{' && i + 1 < n && raw.get_char(i + 1) == '{' {
            let start = i + 2;
            let body = Ghost(raw@.skip(start as int));
            proof {
                assert(suffix@.skip(2) =~= body@);
                lemma_find_close_bounds(body@);
            }
            let tok_end = find_close_from(raw, start);
            let token = raw.substring_char(start, tok_end).to_owned();
            proof {
                assert(token@ =~= body@.take(find_close_clipped(body@)));
            }
            let next = if n - tok_end >= 2 {
                tok_end + 2
            } else {
                n
            };
            proof {
                let fc = find_close_clipped(body@);
                let krest = if fc + 2 <= body@.len() as int {
                    fc + 2
                } else {
                    body@.len() as int
                };
                assert(body@.skip(krest) =~= raw@.skip(next as int));
            }
            let ghost old_out = out.deep_view();
            out.push(token);
            proof {
                assert(out.deep_view() =~= old_out.push(token@));
                assert(old_out + (seq![token@] + tokens_spec(raw@.skip(next as int))) =~= out.deep_view()
                    + tokens_spec(raw@.skip(next as int)));
            }
            i = next;
        } else {
            proof {
                assert(suffix@.drop_first() =~= raw@.skip(i + 1));
            }
            i = i + 1;
        }
    }
    proof {
        assert(raw@.skip(n as int).len() == 0);
        assert(out.deep_view() + Seq::<Seq<char>>::empty() =~= out.deep_view());
    }
    out
}

/// The tag list after expansion: each tag that resolves is kept, in order;
/// a tag that fails to resolve is dropped on its own, without discarding
/// the rest of the list.
pub open spec fn resolve_tags_spec(ctx: TemplateContext, tags: Seq<Seq<char>>) -> Seq<Seq<char>>
    decreases tags.len(),
{
    if tags.len() == 0 {
        Seq::<Seq<char>>::empty()
    } else {
        match process_spec(ctx, tags[0]) {
            None => resolve_tags_spec(ctx, tags.drop_first()),
            Some(v) => seq![v] + resolve_tags_spec(ctx, tags.drop_first()),
        }
    }
}

/// Expands each tag of a list, dropping exactly the tags that fail.
pub fn resolve_tags(ctx: &TemplateContext, tags: &Vec<String>) -> (r: Vec<String>)
    ensures
        r.deep_view() == resolve_tags_spec(*ctx, tags.deep_view()),
{
    let n = tags.len();
    let mut out: Vec<String> = Vec::new();
    let mut i: usize = 0;
    proof {
        assert(tags.deep_view().skip(0) =~= tags.deep_view());
    }
    while i < n
        invariant
            i <= n,
            n == tags@.len(),
            tags.deep_view().len() == n,
            resolve_tags_spec(*ctx, tags.deep_view()) == out.deep_view() + resolve_tags_spec(
                *ctx,
                tags.deep_view().skip(i as int),
            ),
        decreases n - i,
    {
        let ghost rem = tags.deep_view().skip(i as int);
        proof {
            assert(rem[0] == tags.deep_view()[i as int]);
            assert(tags.deep_view()[i as int] == tags@[i as int]@);
            assert(rem.drop_first() =~= tags.deep_view().skip(i + 1));
        }
        match process_config_value(ctx, tags[i].as_str()) {
            None => {},
            Some(v) => {
                let ghost old_out = out.deep_view();
                out.push(v);
                proof {
                    assert(out.deep_view() =~= old_out.push(v@));
                    assert(old_out + (seq![v@] + resolve_tags_spec(*ctx, rem.drop_first()))
                        =~= out.deep_view() + resolve_tags_spec(*ctx, rem.drop_first()));
                }
            },
        }
        i = i + 1;
    }
    proof {
        assert(tags.deep_view().skip(n as int).len() == 0);
        assert(out.deep_view() + Seq::<Seq<char>>::empty() =~= out.deep_view());
    }
    out
}


/// The two-character sequence `{{` occurs somewhere in `s`.
pub open spec fn has_open_marker(s: Seq<char>) -> bool {
    exists|i: int| 0 <= i && i + 1 < s.len() && #[trigger] s[i] == '{' && s[i + 1] == '{'
}

/// A value containing no `{{` marker is returned unchanged by expansion,
/// whatever the context holds.
pub proof fn lemma_no_marker_unchanged(ctx: TemplateContext, s: Seq<char>)
    requires
        !has_open_marker(s),
    ensures
        process_spec(ctx, s) == Some(s),
    decreases s.len(),
{
    if s.len() == 0 {
        assert(s =~= Seq::<char>::empty());
    } else {
        if s.len() >= 2 && s[0] == '{' && s[1] == '{' {
            assert(has_open_marker(s)) by {
                assert(s[0int] == '{' && s[1int] == '{');
            }
        }
        let d = s.drop_first();
        assert_by_contradiction!(!has_open_marker(d), {
            let i = choose|i: int| 0 <= i && i + 1 < d.len() && #[trigger] d[i] == '{' && d[i + 1] == '{';
            assert(s[i + 1] == d[i] && s[i + 2] == d[i + 1]);
            assert(0 <= i + 1 && (i + 1) + 1 < s.len() && s[i + 1] == '{' && s[(i + 1) + 1] == '{');
        });
        lemma_no_marker_unchanged(ctx, d);
        assert(seq![s[0]] + d =~= s);
    }
}

/// A value one of whose tokens fails to resolve expands to absent — never
/// to a string still holding the token's text.
pub proof fn lemma_unresolvable_token_absent(ctx: TemplateContext, s: Seq<char>, k: int)
    requires
        0 <= k < tokens_spec(s).len(),
        resolve_token_spec(ctx, tokens_spec(s)[k]) is None,
    ensures
        process_spec(ctx, s) is None,
    decreases s.len(),
{
    if s.len() == 0 {
    } else if s.len() >= 2 && s[0] == '{' && s[1] == '{' {
        let body = s.skip(2);
        let fc = find_close_clipped(body);
        let tok = body.take(fc);
        let rest = body.skip(if fc + 2 <= body.len() as int { fc + 2 } else { body.len() as int });
        if k == 0 {
            assert(tokens_spec(s)[0] == tok);
            if resolve_token_spec(ctx, tok) is Some {
                assert(false);
            }
        } else {
            assert(tokens_spec(s)[k] == tokens_spec(rest)[k - 1]);
            if resolve_token_spec(ctx, tok) is Some {
                lemma_unresolvable_token_absent(ctx, rest, k - 1);
            }
        }
    } else {
        lemma_unresolvable_token_absent(ctx, s.drop_first(), k);
    }
}

/// When every tag of a list resolves, the expanded list has the same
/// length and carries each tag's expansion at the same position: element
/// order is preserved and nothing unrelated is dropped.
pub proof fn lemma_all_tags_resolve(ctx: TemplateContext, tags: Seq<Seq<char>>)
    requires
        forall|i: int| 0 <= i < tags.len() ==> (#[trigger] process_spec(ctx, tags[i])) is Some,
    ensures
        resolve_tags_spec(ctx, tags).len() == tags.len(),
        forall|i: int| 0 <= i < tags.len() ==> #[trigger] resolve_tags_spec(ctx, tags)[i]
            == process_spec(ctx, tags[i])->Some_0,
    decreases tags.len(),
{
    if tags.len() > 0 {
        let d = tags.drop_first();
        assert forall|i: int| 0 <= i < d.len() implies (#[trigger] process_spec(ctx, d[i]))
            is Some by {
            assert(d[i] == tags[i + 1]);
        }
        lemma_all_tags_resolve(ctx, d);
        assert(process_spec(ctx, tags[0]) is Some);
        let v = process_spec(ctx, tags[0])->Some_0;
        assert forall|i: int| 0 <= i < tags.len() implies #[trigger] resolve_tags_spec(ctx, tags)[i]
            == process_spec(ctx, tags[i])->Some_0 by {
            if i == 0 {
                assert(resolve_tags_spec(ctx, tags)[0] == v);
            } else {
                assert(resolve_tags_spec(ctx, tags)[i] == resolve_tags_spec(ctx, d)[i - 1]);
                assert(d[i - 1] == tags[i]);
            }
        }
    }
}


impl TemplateContext {
    /// The context for expansion: the directory-derived names are computed
    /// from the tracked root and the working directory, the
    /// version-control names and the shell outputs are taken as the caller
    /// obtained them, and a name that does not exist (a directory without
    /// a parent, a query that failed) is absent.  The tracked root's own
    /// name is trimmed, as the substitution wants it.
    pub fn for_dirs(
        base_dir: &DirPath,
        current_dir: &DirPath,
        branch: Option<String>,
        git_root: Option<String>,
        parent_git_root: Option<String>,
        shell_outputs: Vec<(String, Option<String>)>,
    ) -> (r: TemplateContext)
        ensures
            r.branch == branch,
            r.git_root == git_root,
            r.parent_git_root == parent_git_root,
            r.shell_outputs == shell_outputs,
            opt_str_view(r.base_dir) == (if base_dir@.len() > 0 {
                Some(crate::strings::trim_spec(base_dir@.last()))
            } else {
                Option::<Seq<char>>::None
            }),
            opt_str_view(r.parent_base_dir) == (if base_dir@.len() > 1 {
                Some(base_dir@[base_dir@.len() - 2])
            } else {
                Option::<Seq<char>>::None
            }),
            opt_str_view(r.current_dir) == (if current_dir@.len() > 0 {
                Some(current_dir@.last())
            } else {
                Option::<Seq<char>>::None
            }),
            opt_str_view(r.parent_dir) == (if current_dir@.len() > 1 {
                Some(current_dir@[current_dir@.len() - 2])
            } else {
                Option::<Seq<char>>::None
            }),
    {
        let base_name = match base_dir.name() {
            None => None,
            Some(n) => Some(crate::strings::trim(n.as_str())),
        };
        let parent_base_name = match base_dir.parent() {
            None => None,
            Some(p) => p.name(),
        };
        let current_name = current_dir.name();
        let parent_name = match current_dir.parent() {
            None => None,
            Some(p) => p.name(),
        };
        TemplateContext {
            branch,
            base_dir: base_name,
            parent_base_dir: parent_base_name,
            current_dir: current_name,
            parent_dir: parent_name,
            git_root,
            parent_git_root,
            shell_outputs,
        }
    }
}

} // verus!
