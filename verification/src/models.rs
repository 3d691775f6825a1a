//! The remote entities a draft time entry is resolved against.  The
//! snapshot arrives pre-fetched from the transport layer; nothing here
//! performs any call.

use vstd::prelude::*;

use crate::builder::{first_where, lemma_first_where, lemma_first_where_is};

verus! {

/// The authenticated user.
pub struct User {
    pub api_token: String,
    pub email: String,
    pub fullname: Option<String>,
    pub timezone: String,
    pub default_workspace_id: i64,
}

/// A workspace entries are created in.
pub struct Workspace {
    pub id: i64,
    pub name: String,
    pub admin: bool,
}

/// A client a project belongs to.
pub struct Client {
    pub id: i64,
    pub name: String,
    pub workspace_id: i64,
}

/// A project entries may be booked on.
pub struct Project {
    pub id: i64,
    pub name: String,
    pub workspace_id: i64,
    pub client: Option<Client>,
    pub is_private: bool,
    pub active: bool,
    pub color: String,
    pub billable: Option<bool>,
}

/// A task, owned by exactly one project.
pub struct Task {
    pub id: i64,
    pub name: String,
    pub workspace_id: i64,
    pub project: Project,
}

/// The pre-fetched snapshot of remote entities.
pub struct Entities {
    pub projects: Vec<Project>,
    pub tasks: Vec<Task>,
    pub clients: Vec<Client>,
    pub workspaces: Vec<Workspace>,
}

impl Client {
    /// A copy of the client.
    pub fn duplicate(&self) -> (r: Client)
        ensures
            r == *self,
    {
        Client { id: self.id, name: self.name.clone(), workspace_id: self.workspace_id }
    }
}

impl Workspace {
    /// A copy of the workspace.
    pub fn duplicate(&self) -> (r: Workspace)
        ensures
            r == *self,
    {
        Workspace { id: self.id, name: self.name.clone(), admin: self.admin }
    }
}

impl Project {
    /// A copy of the project.
    pub fn duplicate(&self) -> (r: Project)
        ensures
            r == *self,
    {
        Project {
            id: self.id,
            name: self.name.clone(),
            workspace_id: self.workspace_id,
            client: match &self.client {
                None => None,
                Some(c) => Some(c.duplicate()),
            },
            is_private: self.is_private,
            active: self.active,
            color: self.color.clone(),
            billable: self.billable,
        }
    }
}

impl Task {
    /// A copy of the task.
    pub fn duplicate(&self) -> (r: Task)
        ensures
            r == *self,
    {
        Task {
            id: self.id,
            name: self.name.clone(),
            workspace_id: self.workspace_id,
            project: self.project.duplicate(),
        }
    }
}


/// A client record as the remote service sends it.
pub struct NetworkClient {
    pub id: i64,
    pub name: String,
    pub wid: i64,
}

/// A task record as the remote service sends it.
pub struct NetworkTask {
    pub id: i64,
    pub name: String,
    pub workspace_id: i64,
    pub project_id: i64,
}

/// A workspace record as the remote service sends it.
pub struct NetworkWorkspace {
    pub id: i64,
    pub name: String,
    pub admin: bool,
}


/// A project record as the remote service sends it.
pub struct NetworkProject {
    pub id: i64,
    pub name: String,
    pub workspace_id: i64,
    pub client_id: Option<i64>,
    pub is_private: bool,
    pub active: bool,
    pub color: String,
    pub billable: Option<bool>,
}

/// The domain form of a client record.
pub open spec fn client_of(n: NetworkClient) -> Client {
    Client { id: n.id, name: n.name, workspace_id: n.wid }
}

/// The client a project refers to: the first client carrying the referenced
/// identifier, or none.
pub open spec fn client_for(ncs: Seq<NetworkClient>, id: Option<i64>) -> Option<Client> {
    match id {
        None => None,
        Some(i) => match first_where(ncs, |c: NetworkClient| c.id == i) {
            None => None,
            Some(k) => Some(client_of(ncs[k])),
        },
    }
}

/// The domain form of a project record, its client joined in.
pub open spec fn project_of(n: NetworkProject, ncs: Seq<NetworkClient>) -> Project {
    Project {
        id: n.id,
        name: n.name,
        workspace_id: n.workspace_id,
        client: client_for(ncs, n.client_id),
        is_private: n.is_private,
        active: n.active,
        color: n.color,
        billable: n.billable,
    }
}

/// The domain form of a workspace record.
pub open spec fn workspace_of(n: NetworkWorkspace) -> Workspace {
    Workspace { id: n.id, name: n.name, admin: n.admin }
}

/// A task's owning project is the first listed project carrying the
/// referenced identifier.
pub open spec fn owning_project(nps: Seq<NetworkProject>, project_id: i64) -> Option<int> {
    first_where(nps, |p: NetworkProject| p.id == project_id)
}

fn find_client(ncs: &Vec<NetworkClient>, id: i64) -> (r: Option<usize>)
    ensures
        match r {
            Some(k) => k < ncs@.len() && first_where(ncs@, |c: NetworkClient| c.id == id) == Some(
                k as int,
            ),
            None => first_where(ncs@, |c: NetworkClient| c.id == id) is None,
        },
{
    let ghost p = |c: NetworkClient| c.id == id;
    let n = ncs.len();
    let mut i: usize = 0;
    while i < n
        invariant
            i <= n,
            n == ncs@.len(),
            forall|j: int| 0 <= j < i ==> !#[trigger] p(ncs@[j]),
            p == (|c: NetworkClient| c.id == id),
        decreases n - i,
    {
        if ncs[i].id == id {
            proof {
                lemma_first_where_is(ncs@, p, i as int);
            }
            return Some(i);
        }
        proof {
            assert(!p(ncs@[i as int]));
        }
        i = i + 1;
    }
    proof {
        lemma_first_where(ncs@, p);
        match first_where(ncs@, p) {
            Some(k) => {
                assert(!p(ncs@[k]));
            },
            None => {},
        }
    }
    None
}

fn find_network_project(nps: &Vec<NetworkProject>, id: i64) -> (r: Option<usize>)
    ensures
        match r {
            Some(k) => k < nps@.len() && owning_project(nps@, id) == Some(k as int),
            None => owning_project(nps@, id) is None,
        },
{
    let ghost p = |q: NetworkProject| q.id == id;
    let n = nps.len();
    let mut i: usize = 0;
    while i < n
        invariant
            i <= n,
            n == nps@.len(),
            forall|j: int| 0 <= j < i ==> !#[trigger] p(nps@[j]),
            p == (|q: NetworkProject| q.id == id),
        decreases n - i,
    {
        if nps[i].id == id {
            proof {
                lemma_first_where_is(nps@, p, i as int);
            }
            return Some(i);
        }
        proof {
            assert(!p(nps@[i as int]));
        }
        i = i + 1;
    }
    proof {
        lemma_first_where(nps@, p);
        match first_where(nps@, p) {
            Some(k) => {
                assert(!p(nps@[k]));
            },
            None => {},
        }
    }
    None
}

impl NetworkProject {
    /// The domain project this record stands for, its client looked up in
    /// the given list.
    pub fn into_project(&self, ncs: &Vec<NetworkClient>) -> (r: Project)
        ensures
            r == project_of(*self, ncs@),
    {
        let client: Option<Client> = match self.client_id {
            None => None,
            Some(id) => match find_client(ncs, id) {
                None => None,
                Some(k) => Some(Client {
                    id: ncs[k].id,
                    name: ncs[k].name.clone(),
                    workspace_id: ncs[k].wid,
                }),
            },
        };
        Project {
            id: self.id,
            name: self.name.clone(),
            workspace_id: self.workspace_id,
            client,
            is_private: self.is_private,
            active: self.active,
            color: self.color.clone(),
            billable: self.billable,
        }
    }
}

/// Joins the records the remote service sends into the entity snapshot the
/// builder consumes: each project carries its client, each task its owning
/// project.  Every task must reference a listed project.
pub fn entities_from_network(
    network_clients: &Vec<NetworkClient>,
    network_projects: &Vec<NetworkProject>,
    network_tasks: &Vec<NetworkTask>,
    network_workspaces: &Vec<NetworkWorkspace>,
) -> (r: Entities)
    requires
        forall|i: int| 0 <= i < network_tasks@.len() ==> owning_project(
            network_projects@,
            #[trigger] network_tasks@[i].project_id,
        ) is Some,
    ensures
        r.clients@.len() == network_clients@.len(),
        forall|i: int| 0 <= i < network_clients@.len() ==> r.clients@[i] == client_of(
            #[trigger] network_clients@[i],
        ),
        r.projects@.len() == network_projects@.len(),
        forall|i: int| 0 <= i < network_projects@.len() ==> r.projects@[i] == project_of(
            #[trigger] network_projects@[i],
            network_clients@,
        ),
        r.tasks@.len() == network_tasks@.len(),
        forall|i: int| 0 <= i < network_tasks@.len() ==> #[trigger] r.tasks@[i] == (Task {
            id: network_tasks@[i].id,
            name: network_tasks@[i].name,
            workspace_id: network_tasks@[i].workspace_id,
            project: project_of(
                network_projects@[owning_project(
                    network_projects@,
                    network_tasks@[i].project_id,
                )->Some_0],
                network_clients@,
            ),
        }),
        r.workspaces@.len() == network_workspaces@.len(),
        forall|i: int| 0 <= i < network_workspaces@.len() ==> r.workspaces@[i] == workspace_of(
            #[trigger] network_workspaces@[i],
        ),
{
    let mut clients: Vec<Client> = Vec::new();
    let mut i: usize = 0;
    while i < network_clients.len()
        invariant
            i <= network_clients@.len(),
            clients@.len() == i,
            forall|j: int| 0 <= j < i ==> clients@[j] == client_of(#[trigger] network_clients@[j]),
        decreases network_clients@.len() - i,
    {
        clients.push(Client {
            id: network_clients[i].id,
            name: network_clients[i].name.clone(),
            workspace_id: network_clients[i].wid,
        });
        i = i + 1;
    }

    let mut projects: Vec<Project> = Vec::new();
    let mut i: usize = 0;
    while i < network_projects.len()
        invariant
            i <= network_projects@.len(),
            projects@.len() == i,
            forall|j: int| 0 <= j < i ==> projects@[j] == project_of(
                #[trigger] network_projects@[j],
                network_clients@,
            ),
        decreases network_projects@.len() - i,
    {
        let p = network_projects[i].into_project(network_clients);
        projects.push(p);
        i = i + 1;
    }

    let mut tasks: Vec<Task> = Vec::new();
    let mut i: usize = 0;
    while i < network_tasks.len()
        invariant
            i <= network_tasks@.len(),
            tasks@.len() == i,
            forall|j: int| 0 <= j < network_tasks@.len() ==> owning_project(
                network_projects@,
                #[trigger] network_tasks@[j].project_id,
            ) is Some,
            forall|j: int| 0 <= j < i ==> #[trigger] tasks@[j] == (Task {
                id: network_tasks@[j].id,
                name: network_tasks@[j].name,
                workspace_id: network_tasks@[j].workspace_id,
                project: project_of(
                    network_projects@[owning_project(
                        network_projects@,
                        network_tasks@[j].project_id,
                    )->Some_0],
                    network_clients@,
                ),
            }),
        decreases network_tasks@.len() - i,
    {
        let owner = match find_network_project(network_projects, network_tasks[i].project_id) {
            Some(k) => k,
            None => {
                proof {
                    assert(owning_project(
                        network_projects@,
                        network_tasks@[i as int].project_id,
                    ) is Some);
                    assert(false);
                }
                0
            },
        };
        let project = network_projects[owner].into_project(network_clients);
        tasks.push(Task {
            id: network_tasks[i].id,
            name: network_tasks[i].name.clone(),
            workspace_id: network_tasks[i].workspace_id,
            project,
        });
        i = i + 1;
    }

    let mut workspaces: Vec<Workspace> = Vec::new();
    let mut i: usize = 0;
    while i < network_workspaces.len()
        invariant
            i <= network_workspaces@.len(),
            workspaces@.len() == i,
            forall|j: int| 0 <= j < i ==> workspaces@[j] == workspace_of(
                #[trigger] network_workspaces@[j],
            ),
        decreases network_workspaces@.len() - i,
    {
        workspaces.push(Workspace {
            id: network_workspaces[i].id,
            name: network_workspaces[i].name.clone(),
            admin: network_workspaces[i].admin,
        });
        i = i + 1;
    }

    Entities { projects, tasks, clients, workspaces }
}

} // verus!
