use vstd::prelude::*;

verus! {

/// The manifest of the node of a Substrate project that lives in `path`.
pub fn node_manifest(path: &str) -> (m: String)
    ensures
        m@ == path@ + "/node/Cargo.toml"@,
{
    String::from_str(path).concat("/node/Cargo.toml")
}

/// The manifest of the runtime of a Substrate project that lives in `path`.
pub fn runtime_manifest(path: &str) -> (m: String)
    ensures
        m@ == path@ + "/node/runtime/Cargo.toml"@,
{
    String::from_str(path).concat("/node/runtime/Cargo.toml")
}

/// The directory in which the runtime's WASM image is generated.
pub fn runtime_wasm_dir(path: &str) -> (d: String)
    ensures
        d@ == path@ + "/node/target/release/wbuild/node-template-runtime/"@,
{
    String::from_str(path).concat("/node/target/release/wbuild/node-template-runtime/")
}

/// The script that sets up the WASM build environment of the node.
pub fn init_script(path: &str) -> (s: String)
    ensures
        s@ == path@ + "/node/scripts/init.sh"@,
{
    String::from_str(path).concat("/node/scripts/init.sh")
}

/// The node binary that `cargo build --release` makes of the node (as `init`
/// and `build` do): `run` starts it and `purge` clears its chain data.
pub fn release_node_binary(path: &str) -> (b: String)
    ensures
        b@ == path@ + "/node/target/release/node-template"@,
{
    String::from_str(path).concat("/node/target/release/node-template")
}

/// The directory, inside a project, into which the node template is fetched.
pub open spec fn node_dir_name() -> Seq<char> {
    "node"@
}

/// The directory, inside a project, into which the frontend template is fetched.
pub open spec fn frontend_dir_name() -> Seq<char> {
    "frontend"@
}

/// The directory, inside a project, into which the Polkadot-js apps are fetched.
pub open spec fn apps_dir_name() -> Seq<char> {
    "polkadotjs-apps"@
}

/// The directory of the frontend template.
pub fn frontend_dir(path: &str) -> (d: String)
    ensures
        d@ == path@ + "/"@ + frontend_dir_name(),
{
    String::from_str(path).concat("/").concat("frontend")
}

/// The directory of the Polkadot-js apps.
pub fn apps_dir(path: &str) -> (d: String)
    ensures
        d@ == path@ + "/"@ + apps_dir_name(),
{
    String::from_str(path).concat("/").concat("polkadotjs-apps")
}

/// A repository that `init` fetches into a new Substrate project.
pub struct TemplateSource {
    /// What is fetched, as told to the user.
    pub repo: String,
    /// Where it is fetched from.
    pub link: String,
    /// The branch that is fetched.
    pub branch: String,
    /// The directory, inside the project, that it is fetched into.
    pub directory: String,
}

pub open spec fn source_view(t: TemplateSource) -> (Seq<char>, Seq<char>, Seq<char>, Seq<char>) {
    (t.repo@, t.link@, t.branch@, t.directory@)
}

fn source(repo: &str, link: &str, branch: &str, directory: &str) -> (t: TemplateSource)
    ensures
        source_view(t) == (repo@, link@, branch@, directory@),
{
    TemplateSource {
        repo: String::from_str(repo),
        link: String::from_str(link),
        branch: String::from_str(branch),
        directory: String::from_str(directory),
    }
}

/// The repositories that `init` fetches, in order: the node template into
/// `node`, the frontend template into `frontend`, the Polkadot-js apps into
/// `polkadotjs-apps`.
pub fn template_sources() -> (ts: Vec<TemplateSource>)
    ensures
        ts@.map_values(|t: TemplateSource| source_view(t)) == seq![
            (
                "Substrate node template"@,
                "https://github.com/hskang9/haski.git"@,
                "patch-1"@,
                node_dir_name(),
            ),
            (
                "Substrate frontend template"@,
                "https://github.com/substrate-developer-hub/substrate-front-end-template.git"@,
                "master"@,
                frontend_dir_name(),
            ),
            (
                "Polkadot-js apps"@,
                "https://github.com/polkadot-js/apps.git"@,
                "master"@,
                apps_dir_name(),
            ),
        ],
{
    let mut ts: Vec<TemplateSource> = Vec::new();
    ts.push(source("Substrate node template", "https://github.com/hskang9/haski.git", "patch-1", "node"));
    ts.push(
        source(
            "Substrate frontend template",
            "https://github.com/substrate-developer-hub/substrate-front-end-template.git",
            "master",
            "frontend",
        ),
    );
    ts.push(source("Polkadot-js apps", "https://github.com/polkadot-js/apps.git", "master", "polkadotjs-apps"));
    assert(ts@.map_values(|t: TemplateSource| source_view(t)) =~= seq![
        (
            "Substrate node template"@,
            "https://github.com/hskang9/haski.git"@,
            "patch-1"@,
            node_dir_name(),
        ),
        (
            "Substrate frontend template"@,
            "https://github.com/substrate-developer-hub/substrate-front-end-template.git"@,
            "master"@,
            frontend_dir_name(),
        ),
        (
            "Polkadot-js apps"@,
            "https://github.com/polkadot-js/apps.git"@,
            "master"@,
            apps_dir_name(),
        ),
    ]);
    ts
}

/// What cargo is asked to do with a manifest.
#[derive(PartialEq, Eq, Structural, Debug, Clone, Copy)]
pub enum CargoTask {
    /// `cargo build --release`.
    Build,
    /// `cargo test`.
    Test,
}

pub open spec fn str_views(v: Seq<String>) -> Seq<Seq<char>> {
    v.map_values(|s: String| s@)
}

/// The arguments of the cargo call that performs `task` on `manifest`.
pub fn cargo_args(task: CargoTask, manifest: &str) -> (args: Vec<String>)
    ensures
        str_views(args@) == (match task {
            CargoTask::Build => seq!["build"@, "--release"@, "--manifest-path="@ + manifest@],
            CargoTask::Test => seq!["test"@, "--manifest-path="@ + manifest@],
        }),
{
    let mut args: Vec<String> = Vec::new();
    match task {
        CargoTask::Build => {
            args.push(String::from_str("build"));
            args.push(String::from_str("--release"));
        },
        CargoTask::Test => {
            args.push(String::from_str("test"));
        },
    }
    args.push(String::from_str("--manifest-path=").concat(manifest));
    proof {
        match task {
            CargoTask::Build => {
                assert(str_views(args@) =~= seq![
                    "build"@,
                    "--release"@,
                    "--manifest-path="@ + manifest@,
                ]);
            },
            CargoTask::Test => {
                assert(str_views(args@) =~= seq!["test"@, "--manifest-path="@ + manifest@]);
            },
        }
    }
    args
}

/// The part of a Substrate project that `build` and `test` act on.
#[derive(PartialEq, Eq, Structural, Debug, Clone, Copy)]
pub enum BuildTarget {
    /// The node; the user is asked to confirm first.
    Node,
    /// The runtime.
    Runtime,
    /// Anything else: nothing is done.
    Nothing,
}

/// The part of the project that a `--target` value names.
pub fn build_target(target: &String) -> (t: BuildTarget)
    ensures
        t == (if target@ == "node"@ {
            BuildTarget::Node
        } else if target@ == "runtime"@ {
            BuildTarget::Runtime
        } else {
            BuildTarget::Nothing
        }),
{
    if *target == String::from_str("node") {
        BuildTarget::Node
    } else if *target == String::from_str("runtime") {
        BuildTarget::Runtime
    } else {
        BuildTarget::Nothing
    }
}

/// The arguments of the `git` call that fetches `branch` of `link` into
/// `directory`.
pub fn git_clone_args(link: &str, branch: &str, directory: &str) -> (args: Vec<String>)
    ensures
        str_views(args@) == seq!["clone"@, link@, "--branch"@, branch@, directory@],
{
    let mut args: Vec<String> = Vec::new();
    args.push(String::from_str("clone"));
    args.push(String::from_str(link));
    args.push(String::from_str("--branch"));
    args.push(String::from_str(branch));
    args.push(String::from_str(directory));
    assert(str_views(args@) =~= seq!["clone"@, link@, "--branch"@, branch@, directory@]);
    args
}

} // verus!
