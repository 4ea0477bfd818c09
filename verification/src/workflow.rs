//! Building, running and cleaning projects: the decisions and reports around the
//! commands.

use vstd::prelude::*;
use crate::paths::{extension_of, joined, path_join, path_extension};
use crate::json::{parse_file, parsed_file, Json};
use crate::shell::{
    combined_output, combine_output, dev_command, dev_command_for, dev_script_of, is_tauri_dev,
    script_contains_tauri_dev, script_is_tauri_dev, IconOpResult,
};
use crate::text::{append, owned, str_eq};

verus! {

/// The platform the manager runs on, as far as the decisions here depend on it.
#[derive(Clone, Copy, PartialEq, Eq, Debug, Structural)]
pub enum Platform {
    MacOs,
    Linux,
    Other,
}

/// The report for a project directory that does not exist.
pub open spec fn missing_project_text(project_path: Seq<char>) -> Seq<char> {
    "项目目录不存在: "@ + project_path
}

/// Reports that the project directory does not exist.
pub fn missing_project(project_path: &str) -> (r: IconOpResult)
    ensures
        !r.success,
        r.output@ == missing_project_text(project_path@),
{
    let mut output = owned("项目目录不存在: ");
    append(&mut output, project_path);
    IconOpResult { success: false, output }
}

/// The directory of a project's release bundles.
pub open spec fn bundle_dir_of(project_path: Seq<char>) -> Seq<char> {
    joined(project_path, "src-tauri/target/release/bundle"@)
}

/// The directory of a project's release bundles (see [`bundle_dir_of`]).
pub fn bundle_dir(project_path: &str) -> (dir: String)
    ensures
        dir@ == bundle_dir_of(project_path@),
{
    path_join(project_path, "src-tauri/target/release/bundle")
}

/// The `.app` bundle of a named product on macOS: `{bundle}/macos/{product}.app`.
pub open spec fn macos_app_of(bundle: Seq<char>, product: Seq<char>) -> Seq<char> {
    joined(joined(bundle, "macos"@), product + ".app"@)
}

/// The `.app` bundle that a build is expected to make on macOS; `None` for an empty
/// product name.
pub fn macos_app_candidate(bundle: &str, product: &str) -> (app: Option<String>)
    ensures
        product@.len() == 0 ==> app is None,
        product@.len() > 0 ==> (app matches Some(a) && a@ == macos_app_of(bundle@, product@)),
{
    if product.is_empty() {
        return None;
    }
    let macos = path_join(bundle, "macos");
    let mut name = owned(product);
    append(&mut name, ".app");
    Some(path_join(macos.as_str(), name.as_str()))
}

/// The first name of a listing whose extension is `AppImage`.
pub open spec fn first_appimage(names: Seq<Seq<char>>) -> Option<int>
    decreases names.len(),
{
    if names.len() == 0 {
        None
    } else if extension_of(names[0]) == Some("AppImage"@) {
        Some(0)
    } else {
        match first_appimage(names.drop_first()) {
            Some(j) => Some(j + 1),
            None => None,
        }
    }
}

/// What a finished build is shown as: on macOS the product's `.app` when it exists, else
/// the `macos` bundle directory; on Linux the first `AppImage` of the `appimage`
/// directory, else that directory; elsewhere the bundle directory.
pub open spec fn artifact_of(
    platform: Platform,
    bundle: Seq<char>,
    product: Seq<char>,
    app_exists: bool,
    appimage_names: Option<Seq<Seq<char>>>,
) -> Seq<char> {
    match platform {
        Platform::MacOs => if product.len() > 0 && app_exists {
            macos_app_of(bundle, product)
        } else {
            joined(bundle, "macos"@)
        },
        Platform::Linux => {
            let dir = joined(bundle, "appimage"@);
            match appimage_names {
                Some(names) => match first_appimage(names) {
                    Some(j) => joined(dir, names[j]),
                    None => dir,
                },
                None => dir,
            }
        },
        Platform::Other => bundle,
    }
}

fn appimage_position(names: &Vec<String>) -> (j: Option<usize>)
    ensures
        j matches Some(a) ==> a < names@.len(),
        match (j, first_appimage(names@.map_values(|n: String| n@))) {
            (Some(a), Some(b)) => a == b,
            (None, None) => true,
            _ => false,
        },
{
    let ghost ns = names@.map_values(|n: String| n@);
    let mut i: usize = 0;
    assert(ns.skip(0) =~= ns);
    while i < names.len()
        invariant
            ns == names@.map_values(|n: String| n@),
            i <= names@.len(),
            first_appimage(ns) == match first_appimage(ns.skip(i as int)) {
                Some(j) => Some(j + i),
                None => None,
            },
        decreases names@.len() - i,
    {
        assert(ns.skip(i as int).drop_first() =~= ns.skip(i + 1));
        assert(ns.skip(i as int)[0] == names@[i as int]@);
        let ext = crate::paths::extension(names[i].as_str());
        let is_appimage = match ext {
            Some(e) => str_eq(e.as_str(), "AppImage"),
            None => false,
        };
        if is_appimage {
            return Some(i);
        }
        i = i + 1;
    }
    None
}

/// What a finished build is shown as (see [`artifact_of`]); `app_exists` tells whether the
/// product's `.app` exists and `appimage_names` lists the `appimage` directory.
pub fn bundle_artifact(
    platform: Platform,
    bundle: &str,
    product: &str,
    app_exists: bool,
    appimage_names: Option<&Vec<String>>,
) -> (artifact: String)
    ensures
        artifact@ == artifact_of(platform, bundle@, product@, app_exists, match appimage_names {
            Some(n) => Some(n@.map_values(|s: String| s@)),
            None => None,
        }),
{
    match platform {
        Platform::MacOs => {
            if !product.is_empty() && app_exists {
                match macos_app_candidate(bundle, product) {
                    Some(app) => app,
                    None => {
                        assert(false);
                        String::new()
                    },
                }
            } else {
                path_join(bundle, "macos")
            }
        },
        Platform::Linux => {
            let dir = path_join(bundle, "appimage");
            match appimage_names {
                Some(names) => match appimage_position(names) {
                    Some(j) => path_join(dir.as_str(), names[j].as_str()),
                    None => dir,
                },
                None => dir,
            }
        },
        Platform::Other => owned(bundle),
    }
}

/// On macOS a directory other than an `.app` bundle is opened itself; anything else is
/// revealed (selected) in its enclosing folder.
pub open spec fn opens_in_place(is_dir: bool, path: Seq<char>) -> bool {
    is_dir && path_extension(path) != Some("app"@)
}

/// Whether macOS opens `path` itself rather than revealing it (see [`opens_in_place`]).
pub fn open_in_place(is_dir: bool, path: &str) -> (b: bool)
    ensures
        b == opens_in_place(is_dir, path@),
{
    if !is_dir {
        return false;
    }
    match crate::paths::path_extension_of(path) {
        Some(e) => !str_eq(e.as_str(), "app"),
        None => true,
    }
}

/// Reports a failed build.
pub fn build_failed() -> (r: IconOpResult)
    ensures
        !r.success,
        r.output@ == "构建失败，请查看日志"@,
{
    IconOpResult { success: false, output: owned("构建失败，请查看日志") }
}

/// Reports a successful build and where its product is.
pub fn build_succeeded(artifact_display: &str) -> (r: IconOpResult)
    ensures
        r.success,
        r.output@ == "构建成功，产物位于: "@ + artifact_display@,
{
    let mut output = owned("构建成功，产物位于: ");
    append(&mut output, artifact_display);
    IconOpResult { success: true, output }
}

/// How a project is run in development.
pub enum DebugLaunch {
    /// In a new Terminal window, for the Tauri development shell, whose output a pipe
    /// cannot capture.
    Terminal,
    /// In the background, with its output streamed.
    Background,
}

/// Running the project of `package` in development starts the Tauri development shell:
/// its development command does, or the `dev` script does (which `npm run dev` runs).
pub open spec fn runs_in_terminal(package: Option<Json>) -> bool {
    is_tauri_dev(dev_command(package)) || script_is_tauri_dev(dev_script_of(package))
}

/// How a project is run in development (see [`runs_in_terminal`]); `package_json` is the
/// text of its `package.json`, `None` when it cannot be read.
pub fn debug_launch(package_json: Option<&str>) -> (how: DebugLaunch)
    ensures
        how is Terminal <==> runs_in_terminal(parsed_file(package_json)),
{
    let parsed = parse_file(package_json);
    let package = parsed.as_ref();
    let cmd = dev_command_for(package);
    let dev = match crate::shell::scripts(package) {
        Some(s) => crate::json::get(s, "dev"),
        None => None,
    };
    if crate::shell::is_tauri_dev_command(cmd.as_str()) || script_contains_tauri_dev(dev) {
        DebugLaunch::Terminal
    } else {
        DebugLaunch::Background
    }
}

/// Reports that the development command runs in the background.
pub fn debug_started(raw_cmd: &str) -> (r: IconOpResult)
    ensures
        r.success,
        r.output@ == "已启动调试模式（"@ + raw_cmd@ + "），日志实时输出中，首次 Rust 编译需约 1 分钟"@,
{
    let mut output = owned("已启动调试模式（");
    append(&mut output, raw_cmd);
    append(&mut output, "），日志实时输出中，首次 Rust 编译需约 1 分钟");
    IconOpResult { success: true, output }
}

/// Reports a directory to clean that does not exist.
pub fn missing_dir(dir: &str) -> (r: IconOpResult)
    ensures
        !r.success,
        r.output@ == "目录不存在: "@ + dir@,
{
    let mut output = owned("目录不存在: ");
    append(&mut output, dir);
    IconOpResult { success: false, output }
}

/// Reports a finished `cargo clean`.
pub fn clean_report(success: bool, stdout: &str, stderr: &str) -> (r: IconOpResult)
    ensures
        r.success == success,
        r.output@ == combined_output(stdout@, stderr@, "清理完成"@),
{
    IconOpResult { success, output: combine_output(stdout, stderr, "清理完成") }
}

/// The login shell: `$SHELL`, else zsh.
pub fn shell_or_default(shell: Option<String>) -> (s: String)
    ensures
        s@ == match shell {
            Some(v) => v@,
            None => "/bin/zsh"@,
        },
{
    match shell {
        Some(v) => v,
        None => owned("/bin/zsh"),
    }
}

/// The home directory for nvm: `$HOME`, else `~`.
pub fn home_or_default(home: Option<String>) -> (s: String)
    ensures
        s@ == match home {
            Some(v) => v@,
            None => "~"@,
        },
{
    match home {
        Some(v) => v,
        None => owned("~"),
    }
}

} // verus!
