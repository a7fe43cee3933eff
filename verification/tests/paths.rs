use pyra::location::{last_path_component, settings_dir, settings_file};
use pyra::platform::substrate::{
    apps_dir, build_target, cargo_args, frontend_dir, git_clone_args, template_sources,
    init_script, node_manifest, release_node_binary, runtime_manifest, runtime_wasm_dir,
    BuildTarget, CargoTask,
};

#[test]
fn settings_live_under_dot_pyra() {
    assert_eq!(settings_dir("/home/u"), "/home/u/.pyra");
    assert_eq!(settings_file("/home/u"), "/home/u/.pyra/settings.json");
}

#[test]
fn last_path_component_is_the_last_split_item() {
    assert_eq!(last_path_component("/home/u/chain"), "chain");
    assert_eq!(last_path_component("chain"), "chain");
    assert_eq!(last_path_component("/home/u/"), "");
    assert_eq!(last_path_component("/"), "");
    assert_eq!(last_path_component(""), "");
    assert_eq!(last_path_component("/home/ü/çhain"), "çhain");
}

#[test]
fn substrate_paths() {
    assert_eq!(node_manifest("/p"), "/p/node/Cargo.toml");
    assert_eq!(runtime_manifest("/p"), "/p/node/runtime/Cargo.toml");
    assert_eq!(runtime_wasm_dir("/p"), "/p/node/target/release/wbuild/node-template-runtime/");
    assert_eq!(init_script("/p"), "/p/node/scripts/init.sh");
    assert_eq!(release_node_binary("/p"), "/p/node/target/release/node-template");
    assert_eq!(frontend_dir("/p"), "/p/frontend");
    assert_eq!(apps_dir("/p"), "/p/polkadotjs-apps");
}

#[test]
fn cargo_arguments() {
    assert_eq!(
        cargo_args(CargoTask::Build, "/p/node/Cargo.toml"),
        vec!["build", "--release", "--manifest-path=/p/node/Cargo.toml"]
    );
    assert_eq!(
        cargo_args(CargoTask::Test, "/p/node/runtime/Cargo.toml"),
        vec!["test", "--manifest-path=/p/node/runtime/Cargo.toml"]
    );
}

#[test]
fn git_clone_arguments() {
    assert_eq!(
        git_clone_args("https://example.org/r.git", "master", "frontend"),
        vec!["clone", "https://example.org/r.git", "--branch", "master", "frontend"]
    );
}

#[test]
fn build_targets() {
    assert_eq!(build_target(&"node".to_string()), BuildTarget::Node);
    assert_eq!(build_target(&"runtime".to_string()), BuildTarget::Runtime);
    assert_eq!(build_target(&"whole".to_string()), BuildTarget::Nothing);
}

#[test]
fn run_and_purge_use_the_release_binary_that_build_makes() {
    assert_eq!(release_node_binary("/p"), "/p/node/target/release/node-template");
    assert_eq!(cargo_args(CargoTask::Build, &node_manifest("/p"))[1], "--release");
}

#[test]
fn init_fetches_three_templates_into_the_project_directories() {
    let ts = template_sources();
    assert_eq!(ts.len(), 3);
    assert_eq!(ts[0].repo, "Substrate node template");
    assert_eq!(ts[0].link, "https://github.com/hskang9/haski.git");
    assert_eq!(ts[0].branch, "patch-1");
    assert_eq!(ts[0].directory, "node");
    assert_eq!(ts[1].repo, "Substrate frontend template");
    assert_eq!(ts[1].link, "https://github.com/substrate-developer-hub/substrate-front-end-template.git");
    assert_eq!(ts[1].branch, "master");
    assert_eq!(ts[1].directory, "frontend");
    assert_eq!(ts[2].repo, "Polkadot-js apps");
    assert_eq!(ts[2].link, "https://github.com/polkadot-js/apps.git");
    assert_eq!(ts[2].branch, "master");
    assert_eq!(ts[2].directory, "polkadotjs-apps");
    assert_eq!(frontend_dir("/p"), format!("/p/{}", ts[1].directory));
    assert_eq!(apps_dir("/p"), format!("/p/{}", ts[2].directory));
}
