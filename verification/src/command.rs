use vstd::prelude::*;

verus! {

/// What the user asked for on the command line.
pub enum Command {
    /// Open a project in its editor (also when no command is given).
    Open,
    /// Create a new blockchain project and register it.
    Init,
    /// Register the current directory as a project (`add` or `save`).
    Add,
    /// Unregister projects and delete their files.
    Remove,
    /// Set the editor command of a project.
    SetEditor,
    /// Run the node of a project.
    Run,
    /// Build a project.
    Build,
    /// Open the user interface that talks to a node.
    Interact,
    /// Purge the chain data of a node.
    Purge,
    /// A command that is not known.
    Unknown(String),
}

/// The abstract form of a command.
pub enum CommandView {
    Open,
    Init,
    Add,
    Remove,
    SetEditor,
    Run,
    Build,
    Interact,
    Purge,
    Unknown(Seq<char>),
}

impl View for Command {
    type V = CommandView;

    open spec fn view(&self) -> CommandView {
        match self {
            Command::Open => CommandView::Open,
            Command::Init => CommandView::Init,
            Command::Add => CommandView::Add,
            Command::Remove => CommandView::Remove,
            Command::SetEditor => CommandView::SetEditor,
            Command::Run => CommandView::Run,
            Command::Build => CommandView::Build,
            Command::Interact => CommandView::Interact,
            Command::Purge => CommandView::Purge,
            Command::Unknown(s) => CommandView::Unknown(s@),
        }
    }
}

/// The command that a word on the command line names.
pub open spec fn command_named(word: Seq<char>) -> CommandView {
    if word == "open"@ {
        CommandView::Open
    } else if word == "init"@ {
        CommandView::Init
    } else if word == "add"@ || word == "save"@ {
        CommandView::Add
    } else if word == "remove"@ {
        CommandView::Remove
    } else if word == "seteditor"@ {
        CommandView::SetEditor
    } else if word == "run"@ {
        CommandView::Run
    } else if word == "build"@ {
        CommandView::Build
    } else if word == "interact"@ {
        CommandView::Interact
    } else if word == "purge"@ {
        CommandView::Purge
    } else {
        CommandView::Unknown(word)
    }
}

/// The command for the optional first word of the command line: no word
/// means `open`.
pub open spec fn command_for(pattern: Option<Seq<char>>) -> CommandView {
    match pattern {
        None => CommandView::Open,
        Some(word) => command_named(word),
    }
}

/// Whether `s` holds exactly the text `lit`.
fn is_word(s: &String, lit: &str) -> (b: bool)
    ensures
        b == (s@ == lit@),
{
    *s == String::from_str(lit)
}

/// Reads the command from the optional first word of the command line.
pub fn parse_command(pattern: &Option<String>) -> (c: Command)
    ensures
        c@ == command_for(
            match pattern {
                Some(w) => Some(w@),
                None => None,
            },
        ),
{
    match pattern {
        None => Command::Open,
        Some(w) => {
            if is_word(w, "open") {
                Command::Open
            } else if is_word(w, "init") {
                Command::Init
            } else if is_word(w, "add") || is_word(w, "save") {
                Command::Add
            } else if is_word(w, "remove") {
                Command::Remove
            } else if is_word(w, "seteditor") {
                Command::SetEditor
            } else if is_word(w, "run") {
                Command::Run
            } else if is_word(w, "build") {
                Command::Build
            } else if is_word(w, "interact") {
                Command::Interact
            } else if is_word(w, "purge") {
                Command::Purge
            } else {
                Command::Unknown(w.clone())
            }
        },
    }
}

/// The blockchain platforms that projects can be made for.
#[derive(PartialEq, Eq, Structural, Debug, Clone, Copy)]
pub enum Platform {
    Substrate,
}

/// The names of the supported platforms, in the order they are offered.
pub fn platform_names() -> (names: Vec<String>)
    ensures
        names@.map_values(|n: String| n@) == seq!["substrate"@],
{
    let mut names: Vec<String> = Vec::new();
    names.push(String::from_str("substrate"));
    assert(names@.map_values(|n: String| n@) =~= seq!["substrate"@]);
    names
}

/// The platform of the given name, if it is supported.
pub fn platform_named(name: &String) -> (p: Option<Platform>)
    ensures
        p is Some <==> name@ == "substrate"@,
        p matches Some(q) ==> q == Platform::Substrate,
{
    if is_word(name, "substrate") {
        Some(Platform::Substrate)
    } else {
        None
    }
}

/// The user interfaces that can talk to a node.
#[derive(PartialEq, Eq, Structural, Debug, Clone, Copy)]
pub enum UiChoice {
    /// The frontend made with the project, served on port 8000.
    Gav,
    /// The Polkadot-js apps, served on port 3000.
    Apps,
}

/// Why no user interface could be chosen.
#[derive(PartialEq, Eq, Structural, Debug, Clone, Copy)]
pub enum UiError {
    /// No user interface was named.
    Missing,
    /// The named user interface is not known.
    Unknown,
}

/// Where a user interface runs and where it is served.
pub struct UiPlan {
    pub choice: UiChoice,
    /// The directory in which the interface is started.
    pub dir: String,
    /// The address that the browser opens.
    pub url: String,
}

/// Chooses the user interface for a project called `project_name` that lives
/// in `path`: `gav` runs in `<path>/<name>-ui` and is served at
/// `http://localhost:8000`, `apps` runs in `<path>/apps` and is served at
/// `http://localhost:3000`.
pub fn ui_plan(path: &str, project_name: &str, ui: &Option<String>) -> (r: Result<
    UiPlan,
    UiError,
>)
    ensures
        match ui {
            None => r == Err::<UiPlan, UiError>(UiError::Missing),
            Some(u) => if u@ == "gav"@ {
                r matches Ok(p) && p.choice == UiChoice::Gav && p.dir@ == path@ + "/"@
                    + project_name@ + "-ui"@ && p.url@ == "http://localhost:8000"@
            } else if u@ == "apps"@ {
                r matches Ok(p) && p.choice == UiChoice::Apps && p.dir@ == path@ + "/apps"@
                    && p.url@ == "http://localhost:3000"@
            } else {
                r == Err::<UiPlan, UiError>(UiError::Unknown)
            },
        },
{
    match ui {
        None => Err(UiError::Missing),
        Some(u) => {
            if is_word(u, "gav") {
                let dir = String::from_str(path).concat("/").concat(project_name).concat("-ui");
                Ok(UiPlan { choice: UiChoice::Gav, dir, url: String::from_str("http://localhost:8000") })
            } else if is_word(u, "apps") {
                let dir = String::from_str(path).concat("/apps");
                Ok(UiPlan { choice: UiChoice::Apps, dir, url: String::from_str("http://localhost:3000") })
            } else {
                Err(UiError::Unknown)
            }
        },
    }
}

} // verus!
