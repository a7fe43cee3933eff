use vstd::prelude::*;

verus! {

/// The abstract content of a registered project.
pub struct ProjectView {
    pub name: Seq<char>,
    pub path: Seq<char>,
    pub platform: Seq<char>,
    pub editor: Seq<char>,
}

/// One entry of the registry: a project, where it lives, the blockchain
/// platform it was made for, and the command that opens it.
pub struct Project {
    pub name: String,
    pub path: String,
    pub platform: String,
    pub editor: String,
}

impl View for Project {
    type V = ProjectView;

    open spec fn view(&self) -> ProjectView {
        ProjectView {
            name: self.name@,
            path: self.path@,
            platform: self.platform@,
            editor: self.editor@,
        }
    }
}

/// The abstract content of the settings.
pub struct SettingsView {
    pub command_to_open: Seq<char>,
    pub projects: Seq<ProjectView>,
}

/// The settings: the default command that opens a project, and the projects
/// in the order they were registered.
pub struct Settings {
    pub command_to_open: String,
    pub projects: Vec<Project>,
}

pub open spec fn project_views(ps: Seq<Project>) -> Seq<ProjectView> {
    ps.map_values(|p: Project| p@)
}

impl View for Settings {
    type V = SettingsView;

    open spec fn view(&self) -> SettingsView {
        SettingsView { command_to_open: self.command_to_open@, projects: project_views(self.projects@) }
    }
}

/// The names of the projects, in registry order.
pub open spec fn names_of(s: SettingsView) -> Seq<Seq<char>> {
    s.projects.map_values(|p: ProjectView| p.name)
}

/// Lists the names of the registered projects, in registry order.
pub fn list_projects(settings_data: &Settings) -> (names: Vec<String>)
    ensures
        names@.map_values(|n: String| n@) == names_of(settings_data@),
{
    let mut names: Vec<String> = Vec::new();
    let n = settings_data.projects.len();
    for i in 0..n
        invariant
            n == settings_data.projects@.len(),
            names@.len() == i,
            forall|j: int| 0 <= j < i ==> #[trigger] names@[j]@ == settings_data.projects@[j].name@,
    {
        names.push(settings_data.projects[i].name.clone());
    }
    assert(names@.map_values(|n: String| n@) =~= names_of(settings_data@));
    names
}

/// Whether a project of the given name is registered.
pub open spec fn has_project(s: SettingsView, name: Seq<char>) -> bool {
    exists|i: int| 0 <= i < s.projects.len() && #[trigger] s.projects[i].name == name
}

/// `i` is the position of the first project of the given name.
pub open spec fn is_first_match(s: SettingsView, name: Seq<char>, i: int) -> bool {
    &&& 0 <= i < s.projects.len()
    &&& s.projects[i].name == name
    &&& forall|j: int| 0 <= j < i ==> #[trigger] s.projects[j].name != name
}

/// The position of the first project of the given name (meaningful when
/// `has_project(s, name)`).
pub open spec fn first_match(s: SettingsView, name: Seq<char>) -> int {
    choose|i: int| is_first_match(s, name, i)
}

/// The first match is the only position that is a first match.
pub proof fn lemma_first_match_is(s: SettingsView, name: Seq<char>, i: int)
    requires
        is_first_match(s, name, i),
    ensures
        first_match(s, name) == i,
{
    let k = first_match(s, name);
    assert(is_first_match(s, name, k));
    if k < i {
        assert(s.projects[k].name != name);
    }
    if i < k {
        assert(s.projects[i].name != name);
    }
}

/// A registered name has a first match.
pub proof fn lemma_first_match_exists(s: SettingsView, name: Seq<char>)
    requires
        has_project(s, name),
    ensures
        is_first_match(s, name, first_match(s, name)),
{
    let w = choose|i: int| 0 <= i < s.projects.len() && #[trigger] s.projects[i].name == name;
    lemma_first_below(s, name, w);
}

proof fn lemma_first_below(s: SettingsView, name: Seq<char>, w: int)
    requires
        0 <= w < s.projects.len(),
        s.projects[w].name == name,
    ensures
        is_first_match(s, name, first_match(s, name)),
    decreases w,
{
    if exists|j: int| 0 <= j < w && #[trigger] s.projects[j].name == name {
        let j = choose|j: int| 0 <= j < w && #[trigger] s.projects[j].name == name;
        lemma_first_below(s, name, j);
    } else {
        assert(is_first_match(s, name, w));
    }
}

/// The path of the first project of the given name.
pub open spec fn path_of(s: SettingsView, name: Seq<char>) -> Seq<char> {
    s.projects[first_match(s, name)].path
}

/// The platform of the first project of the given name.
pub open spec fn platform_of(s: SettingsView, name: Seq<char>) -> Seq<char> {
    s.projects[first_match(s, name)].platform
}

/// The editor of the first project of the given name, or `default` when no
/// project has that name.
pub open spec fn editor_or_default(s: SettingsView, name: Seq<char>) -> Seq<char> {
    if has_project(s, name) {
        s.projects[first_match(s, name)].editor
    } else {
        "default"@
    }
}

/// The settings with the first project of the given name taken out.
pub open spec fn without_project(s: SettingsView, name: Seq<char>) -> SettingsView {
    SettingsView { command_to_open: s.command_to_open, projects: s.projects.remove(first_match(s, name)) }
}

/// The settings where the first project of the given name opens with
/// `editor`; unchanged when no project has that name.
pub open spec fn with_editor(s: SettingsView, name: Seq<char>, editor: Seq<char>) -> SettingsView {
    if has_project(s, name) {
        let i = first_match(s, name);
        let p = s.projects[i];
        SettingsView {
            command_to_open: s.command_to_open,
            projects: s.projects.update(i, ProjectView { editor: editor, ..p }),
        }
    } else {
        s
    }
}

/// The directory of a project of the given name made in `cwd`.
pub open spec fn project_dir_of(cwd: Seq<char>, name: Seq<char>) -> Seq<char> {
    cwd + "/"@ + name
}

/// The settings with a new project appended, living in `path`; it opens with
/// the default command of the settings.
pub open spec fn with_project(
    s: SettingsView,
    name: Seq<char>,
    path: Seq<char>,
    platform: Seq<char>,
) -> SettingsView {
    SettingsView {
        command_to_open: s.command_to_open,
        projects: s.projects.push(
            ProjectView {
                name: name,
                path: path,
                platform: platform,
                editor: s.command_to_open,
            },
        ),
    }
}

/// Why a change of the registry was refused.
#[derive(PartialEq, Eq, Structural, Debug, Clone, Copy)]
pub enum RegistryError {
    /// A project of that name is registered already.
    ProjectExists,
}

/// The settings written when none exist: projects open with `code`, and no
/// project is registered.
pub fn default_settings() -> (s: Settings)
    ensures
        s@.command_to_open == "code"@,
        s@.projects == Seq::<ProjectView>::empty(),
{
    let s = Settings { command_to_open: String::from_str("code"), projects: Vec::new() };
    assert(s@.projects =~= Seq::<ProjectView>::empty());
    s
}

/// The position of the first project called `name`, if any.
fn find_index(settings_data: &Settings, name: &String) -> (r: Option<usize>)
    ensures
        r is None <==> !has_project(settings_data@, name@),
        r matches Some(i) ==> is_first_match(settings_data@, name@, i as int),
{
    let n = settings_data.projects.len();
    for i in 0..n
        invariant
            n == settings_data.projects@.len(),
            forall|j: int| 0 <= j < i ==> #[trigger] settings_data@.projects[j].name != name@,
    {
        if settings_data.projects[i].name == *name {
            assert(settings_data@.projects[i as int].name == name@);
            return Some(i);
        }
    }
    assert(!has_project(settings_data@, name@)) by {
        if has_project(settings_data@, name@) {
            let w = choose|i: int|
                0 <= i < settings_data@.projects.len() && #[trigger] settings_data@.projects[i].name
                    == name@;
            assert(settings_data@.projects[w].name != name@);
        }
    }
    None
}

/// Whether a project called `prop` is registered.
pub fn project_exists(prop: String, settings_data: &Settings) -> (b: bool)
    ensures
        b == has_project(settings_data@, prop@),
{
    find_index(settings_data, &prop).is_some()
}

/// The path of the first project called `name`.
pub fn find_project_path(name: String, settings_data: &Settings) -> (path: String)
    requires
        has_project(settings_data@, name@),
    ensures
        path@ == path_of(settings_data@, name@),
{
    let i = find_index(settings_data, &name).unwrap();
    proof {
        lemma_first_match_is(settings_data@, name@, i as int);
    }
    settings_data.projects[i].path.clone()
}

/// The platform of the first project called `name`.
pub fn find_project_platform(name: String, settings_data: &Settings) -> (platform: String)
    requires
        has_project(settings_data@, name@),
    ensures
        platform@ == platform_of(settings_data@, name@),
{
    let i = find_index(settings_data, &name).unwrap();
    proof {
        lemma_first_match_is(settings_data@, name@, i as int);
    }
    settings_data.projects[i].platform.clone()
}

/// The editor command of the first project called `name`, or `default` when
/// no project has that name.
pub fn find_project_editor(name: String, settings_data: &Settings) -> (editor: String)
    ensures
        editor@ == editor_or_default(settings_data@, name@),
{
    match find_index(settings_data, &name) {
        Some(i) => {
            proof {
                lemma_first_match_is(settings_data@, name@, i as int);
            }
            settings_data.projects[i].editor.clone()
        },
        None => String::from_str("default"),
    }
}

/// Takes the first project called `project` out of the registry.
pub fn delete_project_json(settings_data: Settings, project: String) -> (next: Settings)
    requires
        has_project(settings_data@, project@),
    ensures
        next@ == without_project(settings_data@, project@),
{
    let i = find_index(&settings_data, &project).unwrap();
    proof {
        lemma_first_match_is(settings_data@, project@, i as int);
    }
    let ghost old_projects = settings_data.projects@;
    let mut next = settings_data;
    next.projects.remove(i);
    assert(project_views(next.projects@) =~= project_views(old_projects).remove(i as int));
    next
}

/// Sets the editor command of the first project called `project`; the
/// settings stay as they are when no project has that name.
pub fn seteditor_project_json(settings_data: Settings, project: String, editor: String) -> (next:
    Settings)
    ensures
        next@ == with_editor(settings_data@, project@, editor@),
{
    match find_index(&settings_data, &project) {
        Some(i) => {
            proof {
                lemma_first_match_is(settings_data@, project@, i as int);
            }
            let ghost old_projects = settings_data.projects@;
            let mut next = settings_data;
            let mut p = next.projects.remove(i);
            p.editor = editor;
            next.projects.insert(i, p);
            assert(project_views(next.projects@) =~= project_views(old_projects).update(
                i as int,
                ProjectView { editor: editor@, ..project_views(old_projects)[i as int] },
            ));
            next
        },
        None => settings_data,
    }
}

/// The directory of a project called `name` made in `cwd`.
pub fn project_dir(cwd: &str, name: &str) -> (dir: String)
    ensures
        dir@ == project_dir_of(cwd@, name@),
{
    String::from_str(cwd).concat("/").concat(name)
}

/// Registers the directory `dir` as a project called `name`, made for
/// `platform`; it opens with the default command of the settings. Refused
/// when a project of that name is registered already. This is what `add` and
/// `save` do with the current directory.
pub fn add_directory_json(settings_data: Settings, name: String, dir: String, platform: String) -> (r:
    Result<Settings, RegistryError>)
    ensures
        r is Err <==> has_project(settings_data@, name@),
        r matches Err(e) ==> e == RegistryError::ProjectExists,
        r matches Ok(next) ==> next@ == with_project(settings_data@, name@, dir@, platform@),
{
    if project_exists(name.clone(), &settings_data) {
        return Err(RegistryError::ProjectExists);
    }
    let ghost old_projects = settings_data.projects@;
    let editor = settings_data.command_to_open.clone();
    let project = Project { name, path: dir, platform, editor };
    let mut next = settings_data;
    next.projects.push(project);
    assert(project_views(next.projects@) =~= project_views(old_projects).push(project@));
    Ok(next)
}

/// Registers a new project called `name` that `init` makes in the directory
/// `<cwd>/<name>`, for `platform`; it opens with the default command of the
/// settings. Refused when a project of that name is registered already.
pub fn add_project_json(settings_data: Settings, name: String, cwd: &str, platform: String) -> (r:
    Result<Settings, RegistryError>)
    ensures
        r is Err <==> has_project(settings_data@, name@),
        r matches Err(e) ==> e == RegistryError::ProjectExists,
        r matches Ok(next) ==> next@ == with_project(
            settings_data@,
            name@,
            project_dir_of(cwd@, name@),
            platform@,
        ),
{
    let dir = project_dir(cwd, name.as_str());
    add_directory_json(settings_data, name, dir, platform)
}

/// What to do when asked to open a project.
pub enum OpenPlan {
    /// Open `path` with the project's own editor command.
    WithEditor { command: String, path: String },
    /// Open `path` with the default command of the settings.
    WithDefault { command: String, path: String },
    /// No such project; `command` is the default command of the settings.
    NotFound { command: String },
}

/// Decides how to open the project called `project`: with its own editor
/// when it has one other than `default`, else with the default command of the
/// settings; or reports that no such project is registered.
pub fn open_plan(settings_data: &Settings, project: &str) -> (plan: OpenPlan)
    ensures
        match plan {
            OpenPlan::WithEditor { command, path } => {
                &&& has_project(settings_data@, project@)
                &&& editor_or_default(settings_data@, project@) != "default"@
                &&& command@ == editor_or_default(settings_data@, project@)
                &&& path@ == path_of(settings_data@, project@)
            },
            OpenPlan::WithDefault { command, path } => {
                &&& has_project(settings_data@, project@)
                &&& editor_or_default(settings_data@, project@) == "default"@
                &&& command@ == settings_data@.command_to_open
                &&& path@ == path_of(settings_data@, project@)
            },
            OpenPlan::NotFound { command } => {
                &&& !has_project(settings_data@, project@)
                &&& command@ == settings_data@.command_to_open
            },
        },
{
    let target = String::from_str(project);
    if project_exists(target.clone(), settings_data) {
        let editor = find_project_editor(target.clone(), settings_data);
        let path = find_project_path(target, settings_data);
        if editor != String::from_str("default") {
            OpenPlan::WithEditor { command: editor, path }
        } else {
            OpenPlan::WithDefault { command: settings_data.command_to_open.clone(), path }
        }
    } else {
        OpenPlan::NotFound { command: settings_data.command_to_open.clone() }
    }
}

/// A project taken out of the registry, and the directory that goes with it.
pub struct Removal {
    pub name: String,
    pub path: String,
}

/// The registry after a removal, and the projects that it took out, in order.
pub struct RemovalPlan {
    pub settings: Settings,
    pub removed: Vec<Removal>,
}

pub open spec fn removal_views(rs: Seq<Removal>) -> Seq<(Seq<char>, Seq<char>)> {
    rs.map_values(|r: Removal| (r.name@, r.path@))
}

/// Removing the projects picked by position in the listing of `orig`, one
/// after the other: each pick takes out the first project that bears the
/// picked name from what is left, and records that name with the path it has
/// in `orig`. `None` when a pick is no position of the listing, or its name is
/// no longer registered.
pub open spec fn removal_outcome(orig: SettingsView, picks: Seq<usize>) -> Option<
    (SettingsView, Seq<(Seq<char>, Seq<char>)>),
>
    decreases picks.len(),
{
    if picks.len() == 0 {
        Some((orig, Seq::empty()))
    } else {
        match removal_outcome(orig, picks.drop_last()) {
            None => None,
            Some(prev) => {
                let i = picks.last() as int;
                if i < orig.projects.len() && has_project(prev.0, orig.projects[i].name) {
                    let n = orig.projects[i].name;
                    Some((without_project(prev.0, n), prev.1.push((n, path_of(orig, n)))))
                } else {
                    None
                }
            },
        }
    }
}

/// Once a prefix of the picks is refused, all of them are.
proof fn lemma_refusal_persists(orig: SettingsView, picks: Seq<usize>, m: int)
    requires
        0 <= m <= picks.len(),
        removal_outcome(orig, picks.take(m)) is None,
    ensures
        removal_outcome(orig, picks) is None,
    decreases picks.len() - m,
{
    if m == picks.len() {
        assert(picks.take(m) =~= picks);
    } else {
        assert(picks.take(m + 1).drop_last() =~= picks.take(m));
        lemma_refusal_persists(orig, picks, m + 1);
    }
}

fn copy_project(p: &Project) -> (q: Project)
    ensures
        q@ == p@,
{
    Project {
        name: p.name.clone(),
        path: p.path.clone(),
        platform: p.platform.clone(),
        editor: p.editor.clone(),
    }
}

/// A copy of the settings.
pub fn copy_settings(settings_data: &Settings) -> (s: Settings)
    ensures
        s@ == settings_data@,
{
    let mut projects: Vec<Project> = Vec::new();
    let n = settings_data.projects.len();
    for i in 0..n
        invariant
            n == settings_data.projects@.len(),
            projects@.len() == i,
            forall|j: int| 0 <= j < i ==> #[trigger] projects@[j]@ == settings_data.projects@[j]@,
    {
        projects.push(copy_project(&settings_data.projects[i]));
    }
    let s = Settings { command_to_open: settings_data.command_to_open.clone(), projects };
    assert(s@.projects =~= settings_data@.projects);
    s
}

/// Plans the removal of the projects picked by position in the listing of
/// `settings_data` (see `removal_outcome`).
pub fn removal_plan(settings_data: &Settings, picks: &Vec<usize>) -> (plan: Option<RemovalPlan>)
    ensures
        match plan {
            Some(p) => removal_outcome(settings_data@, picks@) == Some(
                (p.settings@, removal_views(p.removed@)),
            ),
            None => removal_outcome(settings_data@, picks@) is None,
        },
{
    let mut cur = copy_settings(settings_data);
    let mut removed: Vec<Removal> = Vec::new();
    let n = picks.len();
    assert(picks@.take(0) =~= Seq::<usize>::empty());
    assert(removal_views(removed@) =~= Seq::<(Seq<char>, Seq<char>)>::empty());
    for k in 0..n
        invariant
            n == picks@.len(),
            removal_outcome(settings_data@, picks@.take(k as int)) == Some(
                (cur@, removal_views(removed@)),
            ),
    {
        let i = picks[k];
        assert(picks@.take(k + 1).drop_last() =~= picks@.take(k as int));
        if i >= settings_data.projects.len() {
            proof {
                lemma_refusal_persists(settings_data@, picks@, k + 1);
            }
            return None;
        }
        let name = settings_data.projects[i].name.clone();
        assert(settings_data@.projects[i as int].name == name@);
        if !project_exists(name.clone(), &cur) {
            proof {
                lemma_refusal_persists(settings_data@, picks@, k + 1);
            }
            return None;
        }
        proof {
            assert(has_project(settings_data@, name@));
        }
        let path = find_project_path(name.clone(), settings_data);
        let ghost prev_removed = removed@;
        cur = delete_project_json(cur, name.clone());
        removed.push(Removal { name, path });
        assert(removal_views(removed@) =~= removal_views(prev_removed).push(
            (removed@.last().name@, removed@.last().path@),
        ));
    }
    assert(picks@.take(n as int) =~= picks@);
    Some(RemovalPlan { settings: cur, removed })
}

} // verus!
