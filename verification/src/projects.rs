use std::collections::HashMap;
use vstd::prelude::*;
use vstd::string::*;

verus! {

/// A project that can be started, stopped and deployed from the projects
/// view.
pub struct Project {
    pub id: String,
    pub name: String,
    pub path: String,
    pub port: u16,
    pub build_command: Option<String>,
    pub run_command: String,
    pub deploy_command: Option<String>,
    pub env_vars: HashMap<String, String>,
}

/// What a `Project` holds, with its texts as character sequences.
pub struct ProjectView {
    pub id: Seq<char>,
    pub name: Seq<char>,
    pub path: Seq<char>,
    pub port: u16,
    pub build_command: Option<Seq<char>>,
    pub run_command: Seq<char>,
    pub deploy_command: Option<Seq<char>>,
    pub env_vars: Map<String, String>,
}

pub open spec fn opt_view(o: Option<String>) -> Option<Seq<char>> {
    match o {
        Some(s) => Some(s@),
        None => None,
    }
}


impl View for Project {
    type V = ProjectView;

    open spec fn view(&self) -> ProjectView {
        ProjectView {
            id: self.id@,
            name: self.name@,
            path: self.path@,
            port: self.port,
            build_command: opt_view(self.build_command),
            run_command: self.run_command@,
            deploy_command: opt_view(self.deploy_command),
            env_vars: self.env_vars@,
        }
    }
}

pub open spec fn project_views(v: Seq<Project>) -> Seq<ProjectView> {
    v.map_values(|p: Project| p@)
}

/// A lower-case hexadecimal digit.
pub open spec fn is_lower_hex(c: char) -> bool {
    (48 <= (c as u32) && (c as u32) <= 57) || (97 <= (c as u32) && (c as u32) <= 102)
}

/// The hyphenated lower-case text of a version 4 (random) UUID: 36
/// characters, `-` at 8, 13, 18 and 23, hexadecimal digits elsewhere, the
/// version digit `4` at 14 and the variant digit (8, 9, a or b) at 19.
pub open spec fn is_uuid_v4_text(s: Seq<char>) -> bool {
    &&& s.len() == 36
    &&& forall|i: int|
        0 <= i < 36 ==> if i == 8 || i == 13 || i == 18 || i == 23 {
            s[i] == '-'
        } else {
            is_lower_hex(#[trigger] s[i])
        }
    &&& s[14] == '4'
    &&& s[19] == '8' || s[19] == '9' || s[19] == 'a' || s[19] == 'b'
}

/// Calls `uuid::Uuid::new_v4` and formats the result with `to_string`.
/// Claimed, as the crate's source shows (`new_v4` masks random bits with
/// the version and variant, `Display` writes the hyphenated lower-case
/// form): the text has the shape `is_uuid_v4_text`. The random digits are
/// not stated: two calls may give anything of that shape. The crate panics
/// when the operating system's random source fails, which no argument can
/// rule out.
#[verifier::external_body]
fn new_project_id() -> (s: String)
    ensures
        is_uuid_v4_text(s@),
{
    uuid::Uuid::new_v4().to_string()
}

impl Project {
    /// A new project with a fresh random id, no build or deploy command and
    /// no environment variables.
    pub fn new(name: String, path: String, port: u16, run_command: String) -> (p: Project)
        ensures
            is_uuid_v4_text(p@.id),
            p@.name == name@,
            p@.path == path@,
            p@.port == port,
            p@.build_command is None,
            p@.run_command == run_command@,
            p@.deploy_command is None,
            p@.env_vars == Map::<String, String>::empty(),
    {
        let id = new_project_id();
        Project {
            id,
            name,
            path,
            port,
            build_command: None,
            run_command,
            deploy_command: None,
            env_vars: HashMap::new(),
        }
    }
}

/// A running project: its id and the handle of its process.
pub struct Running<H> {
    pub id: String,
    pub handle: H,
}

/// What a `ProjectManager` holds: the saved projects in order, the ids of
/// the running ones in the order they were started, and their process
/// handles in the same order.
pub struct ManagerView<H> {
    pub projects: Seq<ProjectView>,
    pub running: Seq<Seq<char>>,
    pub handles: Seq<H>,
}

/// The saved projects and the handles of the running ones; `H` is the
/// handle of a started process.
pub struct ProjectManager<H> {
    projects: Vec<Project>,
    running: Vec<Running<H>>,
}

pub open spec fn running_ids<H>(r: Seq<Running<H>>) -> Seq<Seq<char>> {
    r.map_values(|e: Running<H>| e.id@)
}

pub open spec fn running_handles<H>(r: Seq<Running<H>>) -> Seq<H> {
    r.map_values(|e: Running<H>| e.handle)
}

impl<H> View for ProjectManager<H> {
    type V = ManagerView<H>;

    closed spec fn view(&self) -> ManagerView<H> {
        ManagerView {
            projects: project_views(self.projects@),
            running: running_ids(self.running@),
            handles: running_handles(self.running@),
        }
    }
}

/// `after` is `before` with project `id` recorded as running with
/// `handle`, as a map insert: a new id goes at the end with its handle, and
/// an id that runs already keeps its place and gets the new handle.
pub open spec fn marked_started<H>(before: ManagerView<H>, id: Seq<char>, handle: H, after: ManagerView<H>) -> bool {
    &&& after.projects == before.projects
    &&& if before.running.contains(id) {
        &&& after.running == before.running
        &&& exists|i: int|
            0 <= i < before.running.len() && before.running[i] == id && after.handles
                == before.handles.update(i, handle)
    } else {
        &&& after.running == before.running.push(id)
        &&& after.handles == before.handles.push(handle)
    }
}

/// `after` is `before` with the running project `id` at position `i` taken
/// out, id and handle.
pub open spec fn stopped_at<H>(before: ManagerView<H>, id: Seq<char>, i: int, after: ManagerView<H>) -> bool {
    &&& 0 <= i < before.running.len()
    &&& before.running[i] == id
    &&& after.projects == before.projects
    &&& after.running == before.running.remove(i)
    &&& after.handles == before.handles.remove(i)
}

/// The first saved project with id `id`.
pub open spec fn first_with_id(projects: Seq<ProjectView>, id: Seq<char>, i: int) -> bool {
    &&& 0 <= i < projects.len()
    &&& projects[i].id == id
    &&& forall|j: int| 0 <= j < i ==> #[trigger] projects[j].id != id
}

/// What starting or deploying a project runs, in the project's directory
/// with its environment variables: `build`, when there is one, and then
/// `command`.
pub struct LaunchPlan {
    pub build: Option<String>,
    pub command: String,
    pub dir: String,
    pub env_vars: HashMap<String, String>,
}

/// The message for a project id that no saved project has.
pub open spec fn not_found_message() -> Seq<char> {
    "Project not found"@
}

impl<H> ProjectManager<H> {
    #[verifier::type_invariant]
    closed spec fn ids_distinct(&self) -> bool {
        running_ids(self.running@).no_duplicates()
    }

    /// Each running project has its handle: the two lists are equally long.
    pub proof fn lemma_handles_match(&self)
        ensures
            self@.handles.len() == self@.running.len(),
    {
    }

    /// A manager of the given saved projects, with none running.
    pub fn new(projects: Vec<Project>) -> (m: Self)
        ensures
            m@.projects == project_views(projects@),
            m@.running.len() == 0,
            m@.handles.len() == 0,
    {
        let m = ProjectManager { projects, running: Vec::new() };
        assert(running_ids(m.running@) =~= Seq::<Seq<char>>::empty());
        assert(running_handles(m.running@) =~= Seq::<H>::empty());
        m
    }

    /// The saved projects.
    #[allow(non_snake_case)]
    pub fn getProjects(&self) -> (r: &Vec<Project>)
        ensures
            project_views(r@) == self@.projects,
    {
        &self.projects
    }

    /// Adds a project at the end of the list.
    #[allow(non_snake_case)]
    pub fn addProject(&mut self, project: Project)
        ensures
            final(self)@.projects == old(self)@.projects.push(project@),
            final(self)@.running == old(self)@.running,
            final(self)@.handles == old(self)@.handles,
    {
        proof {
            use_type_invariant(&*self);
        }
        let ghost p = project@;
        let mut projects: Vec<Project> = Vec::new();
        std::mem::swap(&mut projects, &mut self.projects);
        projects.push(project);
        self.projects = projects;
        assert(project_views(self.projects@) =~= old(self)@.projects.push(p));
    }

    /// Removes every project with id `id`.
    #[allow(non_snake_case)]
    pub fn removeProject(&mut self, id: &str)
        ensures
            final(self)@.projects == old(self)@.projects.filter(|p: ProjectView| p.id != id@),
            final(self)@.running == old(self)@.running,
            final(self)@.handles == old(self)@.handles,
    {
        proof {
            use_type_invariant(&*self);
        }
        let ghost orig = project_views(self.projects@);
        let ghost keep = |p: ProjectView| p.id != id@;
        let mut old_projects: Vec<Project> = Vec::new();
        std::mem::swap(&mut old_projects, &mut self.projects);
        let mut kept: Vec<Project> = Vec::new();
        let n = old_projects.len();
        let mut i: usize = 0;
        assert(orig.take(0).filter(keep) =~= Seq::<ProjectView>::empty()) by {
            reveal(Seq::filter);
        }
        while i < n
            invariant
                n == old_projects@.len(),
                i <= n,
                project_views(old_projects@) == orig,
                keep == (|p: ProjectView| p.id != id@),
                project_views(kept@) == orig.take(i as int).filter(keep),
            decreases n - i,
        {
            let ghost before = project_views(kept@);
            let same = string_eq(old_projects[i].id.as_str(), id);
            assert(orig[i as int] == old_projects@[i as int]@);
            assert(orig[i as int].id == old_projects@[i as int].id@);
            assert(same == (orig[i as int].id == id@));
            assert(keep(orig[i as int]) == !same);
            if !same {
                kept.push(clone_project(&old_projects[i]));
                assert(project_views(kept@) =~= before.push(orig[i as int]));
            }
            proof {
                orig.take(i as int).lemma_filter_push(orig[i as int], keep);
                assert(orig.take(i + 1) =~= orig.take(i as int).push(orig[i as int]));
            }
            i = i + 1;
        }
        assert(orig.take(n as int) =~= orig);
        self.projects = kept;
    }

    /// Whether a project with id `id` is running.
    #[allow(non_snake_case)]
    pub fn isRunning(&self, id: &str) -> (b: bool)
        ensures
            b == self@.running.contains(id@),
    {
        match self.running_index(id) {
            Some(_) => true,
            None => false,
        }
    }

    fn running_index(&self, id: &str) -> (r: Option<usize>)
        ensures
            match r {
                Some(i) => i < self.running@.len() && self@.running[i as int] == id@,
                None => !self@.running.contains(id@),
            },
    {
        let n = self.running.len();
        let mut i: usize = 0;
        while i < n
            invariant
                n == self.running@.len(),
                i <= n,
                forall|j: int| 0 <= j < i ==> #[trigger] self.running@[j].id@ != id@,
            decreases n - i,
        {
            if string_eq(self.running[i].id.as_str(), id) {
                assert(running_ids(self.running@)[i as int] == id@);
                return Some(i);
            }
            i = i + 1;
        }
        assert forall|j: int| 0 <= j < n implies running_ids(self.running@)[j] != id@ by {
            assert(running_ids(self.running@)[j] == self.running@[j].id@);
        }
        None
    }

    /// Takes the handle of the running project `id` out of the manager, for
    /// the caller to stop its process; "Project not running" when it is not
    /// running.
    #[allow(non_snake_case)]
    pub fn stopProject(&mut self, id: &str) -> (r: Result<H, String>)
        ensures
            old(self)@.running.contains(id@) ==> r is Ok && exists|i: int|
                stopped_at(old(self)@, id@, i, final(self)@) && r->Ok_0 == old(self)@.handles[i],
            !old(self)@.running.contains(id@) ==> r is Err && r->Err_0@ == "Project not running"@
                && final(self)@ == old(self)@,
            !final(self)@.running.contains(id@),
    {
        proof {
            use_type_invariant(&*self);
            reveal_strlit("Project not running");
        }
        match self.running_index(id) {
            Some(i) => {
                let ghost ids = running_ids(self.running@);
                let mut running: Vec<Running<H>> = Vec::new();
                std::mem::swap(&mut running, &mut self.running);
                let ghost hs = running_handles(running@);
                let e = running.remove(i);
                assert(e.handle == hs[i as int]);
                assert(running_ids(running@) =~= ids.remove(i as int));
                assert(running_handles(running@) =~= hs.remove(i as int));
                assert forall|j: int| 0 <= j < ids.remove(i as int).len() implies ids.remove(
                    i as int,
                )[j] != id@ by {
                    if j < i {
                        assert(ids.remove(i as int)[j] == ids[j]);
                    } else {
                        assert(ids.remove(i as int)[j] == ids[j + 1]);
                    }
                }
                assert(ids.remove(i as int).no_duplicates()) by {
                    assert forall|a: int, b: int|
                        0 <= a < b < ids.remove(i as int).len() implies ids.remove(i as int)[a]
                        != ids.remove(i as int)[b] by {
                        let x = if a < i { a } else { a + 1 };
                        let y = if b < i { b } else { b + 1 };
                        assert(ids.remove(i as int)[a] == ids[x]);
                        assert(ids.remove(i as int)[b] == ids[y]);
                    }
                }
                self.running = running;
                assert(stopped_at(old(self)@, id@, i as int, self@));
                Ok(e.handle)
            },
            None => Err(String::from_str("Project not running")),
        }
    }

    /// Records that project `id` runs with process handle `handle`, as a
    /// map insert: a handle that was kept for `id` before is replaced and
    /// handed back, and a new id goes at the end.
    #[allow(non_snake_case)]
    pub fn markStarted(&mut self, id: String, handle: H) -> (r: Option<H>)
        ensures
            marked_started(old(self)@, id@, handle, final(self)@),
            old(self)@.running.contains(id@) ==> r is Some && exists|i: int|
                0 <= i < old(self)@.running.len() && old(self)@.running[i] == id@ && r->0 == old(
                    self,
                )@.handles[i],
            !old(self)@.running.contains(id@) ==> r is None,
    {
        proof {
            use_type_invariant(&*self);
        }
        match self.running_index(id.as_str()) {
            Some(i) => {
                let ghost ids = running_ids(self.running@);
                let mut running: Vec<Running<H>> = Vec::new();
                std::mem::swap(&mut running, &mut self.running);
                let ghost hs = running_handles(running@);
                let ghost new_handle = handle;
                let e = running.remove(i);
                let Running { id: kept_id, handle: prev } = e;
                running.insert(i, Running { id: kept_id, handle });
                assert(running_ids(running@) =~= ids);
                assert(running_handles(running@) =~= hs.update(i as int, new_handle));
                self.running = running;
                Some(prev)
            },
            None => {
                let ghost ids = running_ids(self.running@);
                let ghost new_id = id@;
                let ghost new_handle = handle;
                let mut running: Vec<Running<H>> = Vec::new();
                std::mem::swap(&mut running, &mut self.running);
                let ghost hs = running_handles(running@);
                running.push(Running { id, handle });
                assert(running_ids(running@) =~= ids.push(new_id));
                assert(running_handles(running@) =~= hs.push(new_handle));
                assert(ids.push(new_id).no_duplicates()) by {
                    assert forall|a: int, b: int|
                        0 <= a < b < ids.push(new_id).len() implies ids.push(new_id)[a] != ids.push(
                            id@,
                        )[b] by {
                        if b == ids.len() {
                            assert(ids.push(new_id)[a] == ids[a]);
                        } else {
                            assert(ids.push(new_id)[a] == ids[a]);
                            assert(ids.push(new_id)[b] == ids[b]);
                        }
                    }
                }
                self.running = running;
                None
            },
        }
    }

    fn find_index(&self, id: &str) -> (r: Option<usize>)
        ensures
            match r {
                Some(i) => first_with_id(self@.projects, id@, i as int),
                None => forall|j: int| 0 <= j < self@.projects.len() ==> #[trigger] self@.projects[j].id != id@,
            },
    {
        let n = self.projects.len();
        let mut i: usize = 0;
        while i < n
            invariant
                n == self.projects@.len(),
                i <= n,
                forall|j: int| 0 <= j < i ==> #[trigger] self.projects@[j].id@ != id@,
            decreases n - i,
        {
            assert(self@.projects[i as int] == self.projects@[i as int]@);
            if string_eq(self.projects[i].id.as_str(), id) {
                assert forall|j: int| 0 <= j < i implies #[trigger] self@.projects[j].id != id@ by {
                    assert(self@.projects[j] == self.projects@[j]@);
                }
                return Some(i);
            }
            i = i + 1;
        }
        assert forall|j: int| 0 <= j < n implies #[trigger] self@.projects[j].id != id@ by {
            assert(self@.projects[j] == self.projects@[j]@);
        }
        None
    }

    /// What starting project `id` runs: its build command, when it has one,
    /// and then its run command; "Project not found" when no saved project
    /// has that id.
    #[allow(non_snake_case)]
    pub fn startPlan(&self, id: &str) -> (r: Result<LaunchPlan, String>)
        ensures
            match r {
                Ok(plan) => exists|i: int|
                    first_with_id(self@.projects, id@, i) && plan_of(
                        self@.projects[i],
                        self@.projects[i].run_command,
                        plan,
                    ),
                Err(e) => e@ == not_found_message() && forall|j: int|
                    0 <= j < self@.projects.len() ==> #[trigger] self@.projects[j].id != id@,
            },
    {
        proof {
            reveal_strlit("Project not found");
        }
        match self.find_index(id) {
            Some(i) => {
                let p = clone_project(&self.projects[i]);
                assert(p@ == self@.projects[i as int]);
                Ok(LaunchPlan { build: p.build_command, command: p.run_command, dir: p.path, env_vars: p.env_vars })
            },
            None => Err(String::from_str("Project not found")),
        }
    }

    /// What deploying project `id` runs: its build command, when it has one,
    /// and then its deploy command; "Project not found" when no saved
    /// project has that id, and "No deploy command configured" when it has
    /// no deploy command.
    #[allow(non_snake_case)]
    pub fn deployPlan(&self, id: &str) -> (r: Result<LaunchPlan, String>)
        ensures
            match r {
                Ok(plan) => exists|i: int|
                    first_with_id(self@.projects, id@, i) && self@.projects[i].deploy_command
                        is Some && plan_of(
                        self@.projects[i],
                        self@.projects[i].deploy_command->0,
                        plan,
                    ),
                Err(e) => (e@ == not_found_message() && forall|j: int|
                    0 <= j < self@.projects.len() ==> #[trigger] self@.projects[j].id != id@) || (
                e@ == "No deploy command configured"@ && exists|i: int|
                    first_with_id(self@.projects, id@, i) && self@.projects[i].deploy_command
                        is None),
            },
    {
        proof {
            reveal_strlit("Project not found");
            reveal_strlit("No deploy command configured");
        }
        match self.find_index(id) {
            Some(i) => {
                let p = clone_project(&self.projects[i]);
                assert(p@ == self@.projects[i as int]);
                match p.deploy_command {
                    Some(d) => Ok(LaunchPlan { build: p.build_command, command: d, dir: p.path, env_vars: p.env_vars }),
                    None => Err(String::from_str("No deploy command configured")),
                }
            },
            None => Err(String::from_str("Project not found")),
        }
    }
}

/// `plan` runs the project's build command, when it has one, and then
/// `command`, in the project's directory with its environment variables.
pub open spec fn plan_of(p: ProjectView, command: Seq<char>, plan: LaunchPlan) -> bool {
    &&& opt_view(plan.build) == p.build_command
    &&& plan.command@ == command
    &&& plan.dir@ == p.path
    &&& plan.env_vars@ == p.env_vars
}

/// The outcome of a build step: "Build command failed" when it exited
/// with a failure status.
#[allow(non_snake_case)]
pub fn buildResult(success: bool) -> (r: Result<(), String>)
    ensures
        success ==> r is Ok,
        !success ==> r is Err && r->Err_0@ == "Build command failed"@,
{
    proof {
        reveal_strlit("Build command failed");
    }
    if success {
        Ok(())
    } else {
        Err(String::from_str("Build command failed"))
    }
}

/// The outcome of a deploy step: "Deploy command failed" when it exited
/// with a failure status.
#[allow(non_snake_case)]
pub fn deployResult(success: bool) -> (r: Result<(), String>)
    ensures
        success ==> r is Ok,
        !success ==> r is Err && r->Err_0@ == "Deploy command failed"@,
{
    proof {
        reveal_strlit("Deploy command failed");
    }
    if success {
        Ok(())
    } else {
        Err(String::from_str("Deploy command failed"))
    }
}

/// Compares two texts, as `==` on `str` does.
pub fn string_eq(a: &str, b: &str) -> (r: bool)
    ensures
        r == (a@ == b@),
{
    let x = String::from_str(a);
    let y = String::from_str(b);
    x == y
}

/// A copy of a project.
pub fn clone_project(p: &Project) -> (r: Project)
    ensures
        r@ == p@,
{
    let build_command = match &p.build_command {
        Some(b) => Some(b.clone()),
        None => None,
    };
    let deploy_command = match &p.deploy_command {
        Some(b) => Some(b.clone()),
        None => None,
    };
    let env_vars = p.env_vars.clone();
    Project {
        id: p.id.clone(),
        name: p.name.clone(),
        path: p.path.clone(),
        port: p.port,
        build_command,
        run_command: p.run_command.clone(),
        deploy_command,
        env_vars,
    }
}

/// Starting a project that was not running and then stopping it gives the
/// manager back as it was: the same projects, the same running ids and the
/// same handles.
pub proof fn lemma_start_then_stop_restores<H>(
    before: ManagerView<H>,
    id: Seq<char>,
    handle: H,
    started: ManagerView<H>,
    i: int,
    after: ManagerView<H>,
)
    requires
        before.handles.len() == before.running.len(),
        !before.running.contains(id),
        marked_started(before, id, handle, started),
        stopped_at(started, id, i, after),
    ensures
        after.projects == before.projects,
        after.running == before.running,
        after.handles == before.handles,
{
    if i < before.running.len() {
        assert(before.running.contains(before.running[i]));
    }
    assert(before.running.push(id).remove(i) =~= before.running);
    assert(before.handles.push(handle).remove(i) =~= before.handles);
}

} // verus!
