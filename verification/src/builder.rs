//! Building the draft time entry: combining the matched rule with the
//! snapshot of remote entities.  Names degrade to absent references when
//! they resolve to nothing — building never fails.

use vstd::prelude::*;

use crate::model::{BranchConfig, TrackConfig};
use crate::models::{Entities, Project, Task, Workspace};
use crate::picker::{PickableItemId, PickableItemKind};
use crate::strings;

verus! {

broadcast use vstd::std_specs::vec::vec_clone_deep_view_proof;

/// The draft entry handed to the transport layer.
pub struct ResolvedEntry {
    pub workspace_id: i64,
    pub description: String,
    pub project: Option<Project>,
    pub task: Option<Task>,
    pub tags: Vec<String>,
    pub billable: bool,
}

/// The position of the first element satisfying `p`, or `None`.
pub open spec fn first_where<T>(s: Seq<T>, p: spec_fn(T) -> bool) -> Option<int>
    decreases s.len(),
{
    if s.len() == 0 {
        None
    } else if p(s[0]) {
        Some(0int)
    } else {
        match first_where(s.drop_first(), p) {
            None => None,
            Some(i) => Some(i + 1),
        }
    }
}

/// What [`first_where`] returns: the least satisfying index, and `None`
/// exactly when no element satisfies `p`.
pub proof fn lemma_first_where<T>(s: Seq<T>, p: spec_fn(T) -> bool)
    ensures
        match first_where(s, p) {
            Some(k) => 0 <= k < s.len() && p(s[k]) && forall|j: int| 0 <= j < k ==> !#[trigger] p(
                s[j],
            ),
            None => forall|j: int| 0 <= j < s.len() ==> !#[trigger] p(s[j]),
        },
    decreases s.len(),
{
    if s.len() > 0 && !p(s[0]) {
        let d = s.drop_first();
        lemma_first_where(d, p);
        match first_where(d, p) {
            None => {
                assert forall|j: int| 0 <= j < s.len() implies !#[trigger] p(s[j]) by {
                    if j > 0 {
                        assert(d[j - 1] == s[j]);
                        assert(!p(d[j - 1]));
                    }
                }
            },
            Some(i) => {
                assert(d[i] == s[i + 1]);
                assert forall|j: int| 0 <= j < i + 1 implies !#[trigger] p(s[j]) by {
                    if j > 0 {
                        assert(d[j - 1] == s[j]);
                        assert(!p(d[j - 1]));
                    }
                }
            },
        }
    }
}

/// An index satisfying `p` with nothing satisfying it before is the one
/// [`first_where`] returns.
pub proof fn lemma_first_where_is<T>(s: Seq<T>, p: spec_fn(T) -> bool, k: int)
    requires
        0 <= k < s.len(),
        p(s[k]),
        forall|j: int| 0 <= j < k ==> !#[trigger] p(s[j]),
    ensures
        first_where(s, p) == Some(k),
{
    lemma_first_where(s, p);
    match first_where(s, p) {
        None => {
            assert(false);
        },
        Some(i) => {
            if i < k {
                assert(!p(s[i]));
            }
            if k < i {
                assert(!p(s[k]));
            }
        },
    }
}

/// The first project with the given name, exactly.
pub open spec fn first_project_named(ps: Seq<Project>, name: Seq<char>) -> Option<int> {
    first_where(ps, |x: Project| x.name@ == name)
}

/// The first task with the given name that the given project owns.
pub open spec fn first_task_named(ts: Seq<Task>, name: Seq<char>, project_id: i64) -> Option<
    int,
> {
    first_where(ts, |x: Task| x.name@ == name && x.project.id == project_id)
}

/// The first workspace with the given name, exactly.
pub open spec fn first_workspace_named(ws: Seq<Workspace>, name: Seq<char>) -> Option<int> {
    first_where(ws, |x: Workspace| x.name@ == name)
}

fn find_project(ps: &Vec<Project>, name: &str) -> (r: Option<usize>)
    ensures
        match r {
            Some(i) => i < ps@.len() && first_project_named(ps@, name@) == Some(i as int),
            None => first_project_named(ps@, name@) is None,
        },
{
    let ghost p = |x: Project| x.name@ == name@;
    let n = ps.len();
    let mut i: usize = 0;
    while i < n
        invariant
            i <= n,
            n == ps@.len(),
            forall|j: int| 0 <= j < i ==> !#[trigger] p(ps@[j]),
            p == (|x: Project| x.name@ == name@),
        decreases n - i,
    {
        if strings::str_eq(ps[i].name.as_str(), name) {
            proof {
                lemma_first_where_is(ps@, p, i as int);
            }
            return Some(i);
        }
        proof {
            assert(!p(ps@[i as int]));
        }
        i = i + 1;
    }
    proof {
        lemma_first_where(ps@, p);
        match first_where(ps@, p) {
            Some(k) => {
                assert(!p(ps@[k]));
            },
            None => {},
        }
    }
    None
}

fn find_task(ts: &Vec<Task>, name: &str, project_id: i64) -> (r: Option<usize>)
    ensures
        match r {
            Some(i) => i < ts@.len() && first_task_named(ts@, name@, project_id) == Some(i as int),
            None => first_task_named(ts@, name@, project_id) is None,
        },
{
    let ghost p = |x: Task| x.name@ == name@ && x.project.id == project_id;
    let n = ts.len();
    let mut i: usize = 0;
    while i < n
        invariant
            i <= n,
            n == ts@.len(),
            forall|j: int| 0 <= j < i ==> !#[trigger] p(ts@[j]),
            p == (|x: Task| x.name@ == name@ && x.project.id == project_id),
        decreases n - i,
    {
        if strings::str_eq(ts[i].name.as_str(), name) && ts[i].project.id == project_id {
            proof {
                lemma_first_where_is(ts@, p, i as int);
            }
            return Some(i);
        }
        proof {
            assert(!p(ts@[i as int]));
        }
        i = i + 1;
    }
    proof {
        lemma_first_where(ts@, p);
        match first_where(ts@, p) {
            Some(k) => {
                assert(!p(ts@[k]));
            },
            None => {},
        }
    }
    None
}

fn find_workspace(ws: &Vec<Workspace>, name: &str) -> (r: Option<usize>)
    ensures
        match r {
            Some(i) => i < ws@.len() && first_workspace_named(ws@, name@) == Some(i as int),
            None => first_workspace_named(ws@, name@) is None,
        },
{
    let ghost p = |x: Workspace| x.name@ == name@;
    let n = ws.len();
    let mut i: usize = 0;
    while i < n
        invariant
            i <= n,
            n == ws@.len(),
            forall|j: int| 0 <= j < i ==> !#[trigger] p(ws@[j]),
            p == (|x: Workspace| x.name@ == name@),
        decreases n - i,
    {
        if strings::str_eq(ws[i].name.as_str(), name) {
            proof {
                lemma_first_where_is(ws@, p, i as int);
            }
            return Some(i);
        }
        proof {
            assert(!p(ws@[i as int]));
        }
        i = i + 1;
    }
    proof {
        lemma_first_where(ws@, p);
        match first_where(ws@, p) {
            Some(k) => {
                assert(!p(ws@[k]));
            },
            None => {},
        }
    }
    None
}

/// How a built entry relates to the rule and the snapshot it came from:
/// the named project resolves to the first project with that name (else
/// absent); the named task resolves to the first task with that name owned
/// by the resolved project (else absent, a task never rides on a
/// mismatched project); the named workspace resolves to the first
/// workspace with that name, and a missing or unknown one falls back to
/// the caller-supplied default; description, tags and the billable flag
/// are copied through, with the empty value where absent.
pub open spec fn built_from(
    config: BranchConfig,
    entities: Entities,
    default_workspace_id: i64,
    r: ResolvedEntry,
) -> bool {
    &&& r.description@ == match config.description {
        Some(d) => d@,
        None => Seq::<char>::empty(),
    }
    &&& r.billable == config.billable
    &&& r.tags.deep_view() == match config.tags {
        Some(t) => t.deep_view(),
        None => Seq::<Seq<char>>::empty(),
    }
    &&& match config.project {
        None => r.project is None,
        Some(name) => match first_project_named(entities.projects@, name@) {
            None => r.project is None,
            Some(i) => r.project == Some(entities.projects@[i]),
        },
    }
    &&& match config.task {
        None => r.task is None,
        Some(name) => match r.project {
            None => r.task is None,
            Some(p) => match first_task_named(entities.tasks@, name@, p.id) {
                None => r.task is None,
                Some(i) => r.task == Some(entities.tasks@[i]),
            },
        },
    }
    &&& match r.task {
        Some(t) => r.project matches Some(p) && t.project.id == p.id,
        None => true,
    }
    &&& r.workspace_id == match config.workspace {
        None => default_workspace_id,
        Some(w) => match first_workspace_named(entities.workspaces@, w@) {
            None => default_workspace_id,
            Some(i) => entities.workspaces@[i].id,
        },
    }
}

/// Combines a rule with the entity snapshot into a draft entry.  Performs
/// no call and cannot fail: a name that resolves to nothing leaves its
/// field absent rather than blocking entry creation.
pub fn build_default_entry(
    config: &BranchConfig,
    entities: &Entities,
    default_workspace_id: i64,
) -> (r: ResolvedEntry)
    ensures
        built_from(*config, *entities, default_workspace_id, r),
{
    let project: Option<Project> = match &config.project {
        None => None,
        Some(name) => match find_project(&entities.projects, name.as_str()) {
            None => None,
            Some(i) => Some(entities.projects[i].duplicate()),
        },
    };
    let task: Option<Task> = match &config.task {
        None => None,
        Some(name) => match &project {
            None => None,
            Some(p) => match find_task(&entities.tasks, name.as_str(), p.id) {
                None => None,
                Some(i) => {
                    proof {
                        lemma_first_where(
                            entities.tasks@,
                            |x: Task| x.name@ == name@ && x.project.id == p.id,
                        );
                    }
                    Some(entities.tasks[i].duplicate())
                },
            },
        },
    };
    let workspace_id: i64 = match &config.workspace {
        None => default_workspace_id,
        Some(w) => match find_workspace(&entities.workspaces, w.as_str()) {
            None => default_workspace_id,
            Some(i) => entities.workspaces[i].id,
        },
    };
    let description: String = match &config.description {
        None => String::new(),
        Some(d) => d.clone(),
    };
    let tags: Vec<String> = match &config.tags {
        None => Vec::new(),
        Some(t) => t.clone(),
    };
    proof {
        match config.tags {
            None => {
                assert(tags.deep_view() =~= Seq::<Seq<char>>::empty());
            },
            Some(_) => {},
        }
    }
    ResolvedEntry { workspace_id, description, project, task, tags, billable: config.billable }
}

impl TrackConfig {
    /// The draft entry for the given branch: the matched rule combined
    /// with the snapshot.
    pub fn get_default_entry(
        &self,
        branch: Option<&str>,
        entities: &Entities,
        default_workspace_id: i64,
    ) -> (r: ResolvedEntry)
        ensures
            built_from(
                self.spec_selected(
                    match branch {
                        Some(b) => Some(b@),
                        None => None,
                    },
                ),
                *entities,
                default_workspace_id,
                r,
            ),
    {
        let config = self.get_branch_config(branch);
        build_default_entry(config, entities, default_workspace_id)
    }
}


/// The first project carrying the given identifier.
pub open spec fn project_with_id(ps: Seq<Project>, id: i64) -> Option<int> {
    first_where(ps, |x: Project| x.id == id)
}

/// The first task carrying the given identifier.
pub open spec fn task_with_id(ts: Seq<Task>, id: i64) -> Option<int> {
    first_where(ts, |x: Task| x.id == id)
}

fn find_project_by_id(ps: &Vec<Project>, id: i64) -> (r: Option<usize>)
    ensures
        match r {
            Some(i) => i < ps@.len() && project_with_id(ps@, id) == Some(i as int),
            None => project_with_id(ps@, id) is None,
        },
{
    let ghost p = |x: Project| x.id == id;
    let n = ps.len();
    let mut i: usize = 0;
    while i < n
        invariant
            i <= n,
            n == ps@.len(),
            forall|j: int| 0 <= j < i ==> !#[trigger] p(ps@[j]),
            p == (|x: Project| x.id == id),
        decreases n - i,
    {
        if ps[i].id == id {
            proof {
                lemma_first_where_is(ps@, p, i as int);
            }
            return Some(i);
        }
        proof {
            assert(!p(ps@[i as int]));
        }
        i = i + 1;
    }
    proof {
        lemma_first_where(ps@, p);
        match first_where(ps@, p) {
            Some(k) => {
                assert(!p(ps@[k]));
            },
            None => {},
        }
    }
    None
}

fn find_task_by_id(ts: &Vec<Task>, id: i64) -> (r: Option<usize>)
    ensures
        match r {
            Some(i) => i < ts@.len() && task_with_id(ts@, id) == Some(i as int),
            None => task_with_id(ts@, id) is None,
        },
{
    let ghost p = |x: Task| x.id == id;
    let n = ts.len();
    let mut i: usize = 0;
    while i < n
        invariant
            i <= n,
            n == ts@.len(),
            forall|j: int| 0 <= j < i ==> !#[trigger] p(ts@[j]),
            p == (|x: Task| x.id == id),
        decreases n - i,
    {
        if ts[i].id == id {
            proof {
                lemma_first_where_is(ts@, p, i as int);
            }
            return Some(i);
        }
        proof {
            assert(!p(ts@[i as int]));
        }
        i = i + 1;
    }
    proof {
        lemma_first_where(ts@, p);
        match first_where(ts@, p) {
            Some(k) => {
                assert(!p(ts@[k]));
            },
            None => {},
        }
    }
    None
}

/// What an interactively picked identity selects: a picked project is the
/// entry's project; a picked task brings its owning project along, so the
/// pair can never mismatch; anything else — a time entry, or an identity
/// the snapshot does not know — selects nothing.
pub fn picked_project_and_task(entities: &Entities, picked: PickableItemId) -> (r: (
    Option<Project>,
    Option<Task>,
))
    ensures
        match picked.kind {
            PickableItemKind::TimeEntry => r.0 is None && r.1 is None,
            PickableItemKind::Project => r.1 is None && (match project_with_id(
                entities.projects@,
                picked.id,
            ) {
                Some(i) => r.0 == Some(entities.projects@[i]),
                None => r.0 is None,
            }),
            PickableItemKind::Task => match task_with_id(
                entities.tasks@,
                picked.id,
            ) {
                Some(i) => r.0 == Some(entities.tasks@[i].project) && r.1 == Some(
                    entities.tasks@[i],
                ),
                None => r.0 is None && r.1 is None,
            },
        },
        match r.1 {
            Some(t) => (match r.0 {
                Some(p) => t.project.id == p.id,
                None => false,
            }),
            None => true,
        },
{
    match picked.kind {
        PickableItemKind::TimeEntry => (None, None),
        PickableItemKind::Project => {
            match find_project_by_id(&entities.projects, picked.id) {
                None => (None, None),
                Some(i) => (Some(entities.projects[i].duplicate()), None),
            }
        },
        PickableItemKind::Task => {
            match find_task_by_id(&entities.tasks, picked.id) {
                None => (None, None),
                Some(i) => {
                    let task = entities.tasks[i].duplicate();
                    let project = task.project.duplicate();
                    (Some(project), Some(task))
                },
            }
        },
    }
}

} // verus!
