//! The configuration data model and branch matching.
//!
//! A document yields one default rule and an ordered list of
//! (pattern, rule) pairs.  Matching walks the list in declaration order and
//! returns the rule of the first pattern whose regular expression matches
//! the branch name; with no branch, or no match, the default rule applies.

use vstd::prelude::*;

verus! {

/// One resolved rule: what a new time entry should look like.  Every
/// string field has been macro-expanded at parse time; no value here holds
/// an unresolved `{{...}}` token.
pub struct BranchConfig {
    pub workspace: Option<String>,
    pub description: Option<String>,
    pub project: Option<String>,
    pub task: Option<String>,
    pub tags: Option<Vec<String>>,
    pub billable: bool,
}

impl Default for BranchConfig {
    /// The empty rule: every field absent, not billable.
    fn default() -> (r: BranchConfig)
        ensures
            r.workspace is None,
            r.description is None,
            r.project is None,
            r.task is None,
            r.tags is None,
            r.billable == false,
    {
        BranchConfig {
            workspace: None,
            description: None,
            project: None,
            task: None,
            tags: None,
            billable: false,
        }
    }
}

/// A whole configuration document: the default rule and the pattern rules
/// in their order of appearance, which is the match-priority order.
pub struct TrackConfig {
    pub default: BranchConfig,
    pub configs: Vec<(String, BranchConfig)>,
}

/// Whether the regular expression `pattern` matches anywhere in `text`
/// (with the regex crate's default settings).
pub uninterp spec fn regex_match(pattern: Seq<char>, text: Seq<char>) -> bool;

/// Whether `pattern` compiles as a regular expression (with the regex
/// crate's default settings, its size limit included).
pub uninterp spec fn regex_valid(pattern: Seq<char>) -> bool;

/// Relies on regex's `Regex::new`: with fixed default settings, whether a
/// pattern compiles is a function of the pattern text alone.
#[verifier::external_body]
pub(crate) fn regex_pattern_valid(pattern: &str) -> (r: bool)
    ensures
        r == regex_valid(pattern@),
{
    regex::Regex::new(pattern).is_ok()
}

/// Relies on regex's `Regex::new` and `Regex::is_match`: compilation
/// succeeds exactly for valid patterns, and whether a compiled pattern
/// matches a haystack is a function of the two strings alone.
#[verifier::external_body]
fn regex_find_match(pattern: &str, text: &str) -> (r: Option<bool>)
    ensures
        r is Some <==> regex_valid(pattern@),
        r matches Some(b) ==> b == regex_match(pattern@, text@),
{
    match regex::Regex::new(pattern) {
        Ok(re) => Some(re.is_match(text)),
        Err(_) => None,
    }
}

/// A pattern block counts as matching when its pattern is a valid
/// expression and that expression matches the branch name.  A document the
/// parser produced holds valid patterns only.
pub open spec fn block_matches(configs: Seq<(String, BranchConfig)>, i: int, branch: Seq<char>) -> bool {
    regex_valid(configs[i].0@) && regex_match(configs[i].0@, branch)
}

/// The index of the first pattern block that matches `branch`, or `None`
/// when no block does.
pub open spec fn matching_index_spec(configs: Seq<(String, BranchConfig)>, branch: Seq<char>) -> Option<int>
    decreases configs.len(),
{
    if configs.len() == 0 {
        None
    } else if regex_valid(configs[0].0@) && regex_match(configs[0].0@, branch) {
        Some(0int)
    } else {
        match matching_index_spec(configs.drop_first(), branch) {
            None => None,
            Some(i) => Some(i + 1),
        }
    }
}

/// What [`matching_index_spec`] returns: the least matching index, and
/// `None` exactly when no block matches.
pub proof fn lemma_matching_index(configs: Seq<(String, BranchConfig)>, branch: Seq<char>)
    ensures
        match matching_index_spec(configs, branch) {
            Some(k) => 0 <= k < configs.len() && block_matches(configs, k, branch) && forall|j: int|
                0 <= j < k ==> !block_matches(configs, j, branch),
            None => forall|j: int| 0 <= j < configs.len() ==> !block_matches(configs, j, branch),
        },
    decreases configs.len(),
{
    if configs.len() > 0 && !block_matches(configs, 0, branch) {
        let d = configs.drop_first();
        lemma_matching_index(d, branch);
        match matching_index_spec(d, branch) {
            None => {
                assert forall|j: int| 0 <= j < configs.len() implies !block_matches(
                    configs,
                    j,
                    branch,
                ) by {
                    if j > 0 {
                        assert(d[j - 1] == configs[j]);
                        assert(!block_matches(d, j - 1, branch));
                    }
                }
            },
            Some(i) => {
                assert(d[i] == configs[i + 1]);
                assert forall|j: int| 0 <= j < i + 1 implies !block_matches(
                    configs,
                    j,
                    branch,
                ) by {
                    if j > 0 {
                        assert(d[j - 1] == configs[j]);
                        assert(!block_matches(d, j - 1, branch));
                    }
                }
            },
        }
    }
}

/// A matching index with no match before it is the selected one.
proof fn lemma_matching_index_is(
    configs: Seq<(String, BranchConfig)>,
    branch: Seq<char>,
    k: int,
)
    requires
        0 <= k < configs.len(),
        block_matches(configs, k, branch),
        forall|j: int| 0 <= j < k ==> !block_matches(configs, j, branch),
    ensures
        matching_index_spec(configs, branch) == Some(k),
{
    lemma_matching_index(configs, branch);
    match matching_index_spec(configs, branch) {
        None => {
            assert(false);
        },
        Some(i) => {
            if i < k {
                assert(!block_matches(configs, i, branch));
            }
            if k < i {
                assert(!block_matches(configs, k, branch));
            }
        },
    }
}

/// When an earlier-declared block matches the branch, no later block is
/// ever selected, whatever the patterns' complexity or length: the
/// selected index is at most the earlier block's.
pub proof fn lemma_earlier_declared_wins(
    configs: Seq<(String, BranchConfig)>,
    branch: Seq<char>,
    i: int,
    j: int,
)
    requires
        0 <= i < j < configs.len(),
        block_matches(configs, i, branch),
        block_matches(configs, j, branch),
    ensures
        matching_index_spec(configs, branch) matches Some(k) && 0 <= k <= i < j,
{
    lemma_matching_index(configs, branch);
    match matching_index_spec(configs, branch) {
        None => {
            assert(false);
        },
        Some(k) => {
            if k > i {
                assert(!block_matches(configs, i, branch));
            }
        },
    }
}

impl TrackConfig {
    /// The rule that applies to `branch`: the first matching pattern
    /// block's, or the default.
    pub open spec fn spec_selected(&self, branch: Option<Seq<char>>) -> BranchConfig {
        match branch {
            None => self.default,
            Some(b) => match matching_index_spec(self.configs@, b) {
                Some(i) => self.configs@[i].1,
                None => self.default,
            },
        }
    }

    /// The position of the first pattern block matching `branch`.
    pub fn matching_index(&self, branch: &str) -> (r: Option<usize>)
        ensures
            match r {
                Some(k) => k < self.configs@.len() && matching_index_spec(self.configs@, branch@)
                    == Some(k as int),
                None => matching_index_spec(self.configs@, branch@) is None,
            },
    {
        let n = self.configs.len();
        let mut i: usize = 0;
        while i < n
            invariant
                i <= n,
                n == self.configs@.len(),
                forall|j: int| 0 <= j < i ==> !block_matches(self.configs@, j, branch@),
            decreases n - i,
        {
            let matched = regex_find_match(self.configs[i].0.as_str(), branch);
            match matched {
                Some(true) => {
                    proof {
                        lemma_matching_index_is(self.configs@, branch@, i as int);
                    }
                    return Some(i);
                },
                _ => {},
            }
            i = i + 1;
        }
        proof {
            lemma_matching_index(self.configs@, branch@);
            match matching_index_spec(self.configs@, branch@) {
                Some(k) => {
                    assert(!block_matches(self.configs@, k, branch@));
                },
                None => {},
            }
        }
        None
    }

    /// The rule for the given branch name.  With no branch the default
    /// applies; otherwise the blocks are tried in declaration order and the
    /// first whose pattern matches wins, falling back to the default when
    /// none does.  A block whose pattern is not a valid expression never
    /// matches, so the selection is total; the parser rejects such a
    /// pattern up front.
    pub fn get_branch_config(&self, branch: Option<&str>) -> (r: &BranchConfig)
        ensures
            *r == self.spec_selected(match branch {
                Some(b) => Some(b@),
                None => None,
            }),
    {
        match branch {
            None => &self.default,
            Some(b) => match self.matching_index(b) {
                Some(i) => &self.configs[i].1,
                None => &self.default,
            },
        }
    }
}


/// The mathematical form of a rule: each field as a character sequence.
pub struct BranchConfigV {
    pub workspace: Option<Seq<char>>,
    pub description: Option<Seq<char>>,
    pub project: Option<Seq<char>>,
    pub task: Option<Seq<char>>,
    pub tags: Option<Seq<Seq<char>>>,
    pub billable: bool,
}

/// The rule with every field absent and the flag down.
pub open spec fn empty_config_v() -> BranchConfigV {
    BranchConfigV {
        workspace: None,
        description: None,
        project: None,
        task: None,
        tags: None,
        billable: false,
    }
}

impl BranchConfig {
    /// The mathematical view of the rule.
    pub open spec fn view(&self) -> BranchConfigV {
        BranchConfigV {
            workspace: crate::template::opt_str_view(self.workspace),
            description: crate::template::opt_str_view(self.description),
            project: crate::template::opt_str_view(self.project),
            task: crate::template::opt_str_view(self.task),
            tags: match self.tags {
                Option::None => None,
                Option::Some(t) => Some(t.deep_view()),
            },
            billable: self.billable,
        }
    }
}

/// The mathematical form of a whole document.
pub struct TrackConfigV {
    pub default: BranchConfigV,
    pub configs: Seq<(Seq<char>, BranchConfigV)>,
}

impl TrackConfig {
    /// The mathematical view of the document.
    pub open spec fn view(&self) -> TrackConfigV {
        TrackConfigV {
            default: self.default@,
            configs: self.configs@.map_values(|p: (String, BranchConfig)| (p.0@, p.1@)),
        }
    }
}

} // verus!
