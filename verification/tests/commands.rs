use icon_forge::json::{Json, JsonMember};
use icon_forge::shell::{
    cargo_command_line, combine_output, escape_single_quotes, is_tauri_dev_command,
    resolve_build_command, resolve_dev_command, script_contains_tauri_dev, terminal_launch,
    with_nvm, with_rust, NodeVersion,
};

fn s(text: &str) -> Json {
    Json::Str(text.to_string())
}

fn obj(members: Vec<(&str, Json)>) -> Json {
    Json::Object(
        members
            .into_iter()
            .map(|(k, v)| JsonMember { key: k.to_string(), value: v })
            .collect(),
    )
}

fn package(scripts: Vec<(&str, &str)>) -> String {
    let members: Vec<String> = scripts.iter().map(|(k, v)| format!("\"{}\": \"{}\"", k, v)).collect();
    format!("{{\"name\": \"app\", \"scripts\": {{{}}}}}", members.join(", "))
}

fn version(name: &str, has_pnpm: bool) -> NodeVersion {
    NodeVersion {
        name: name.to_string(),
        bin_dir: format!("/h/.nvm/versions/node/{}/bin", name),
        has_pnpm,
    }
}

const RUST_PATH: &str = "export PATH=\"$HOME/.cargo/bin:/opt/homebrew/bin:/usr/local/bin:$PATH\"; ";

#[test]
fn tauri_dev_commands_are_recognised() {
    assert!(is_tauri_dev_command("npm run tauri:dev"));
    assert!(is_tauri_dev_command("npx tauri dev"));
    assert!(is_tauri_dev_command("npm run tauri -- dev"));
    assert!(is_tauri_dev_command("cargo tauri dev --release"));
    assert!(is_tauri_dev_command("pnpm tauri dev"));
    assert!(!is_tauri_dev_command("npm run dev"));
    assert!(!is_tauri_dev_command("vite"));
    assert!(!is_tauri_dev_command(""));
}

#[test]
fn dev_script_must_be_a_tauri_string() {
    assert!(script_contains_tauri_dev(Some(&s("tauri dev"))));
    assert!(!script_contains_tauri_dev(Some(&s("vite"))));
    assert!(!script_contains_tauri_dev(Some(&Json::Bool(true))));
    assert!(!script_contains_tauri_dev(None));
}

#[test]
fn dev_command_prefers_desktop_scripts() {
    let p = package(vec![("dev", "vite"), ("tauri", "tauri"), ("tauri:dev", "tauri dev")]);
    assert_eq!(resolve_dev_command(Some(&p[..])), "npm run tauri:dev");
    let p = package(vec![("dev", "vite"), ("tauri", "tauri")]);
    assert_eq!(resolve_dev_command(Some(&p[..])), "npm run tauri -- dev");
    let p = package(vec![("dev", "tauri dev")]);
    assert_eq!(resolve_dev_command(Some(&p[..])), "npm run dev");
    let p = package(vec![("dev", "vite")]);
    assert_eq!(resolve_dev_command(Some(&p[..])), "npm run dev");
    let p = package(vec![("build", "vite build")]);
    assert_eq!(resolve_dev_command(Some(&p[..])), "npx tauri dev");
}

#[test]
fn dev_command_falls_back_to_npx() {
    assert_eq!(resolve_dev_command(None), "npx tauri dev");
    assert_eq!(resolve_dev_command(Some(r#"{"scripts": "dev"}"#)), "npx tauri dev");
    assert_eq!(resolve_dev_command(Some("null")), "npx tauri dev");
    assert_eq!(resolve_dev_command(Some("{ not json")), "npx tauri dev");
}

#[test]
fn build_command_per_platform() {
    let p = package(vec![("build", "vite build"), ("tauri:build", "tauri build")]);
    assert_eq!(resolve_build_command(Some(&p[..]), true), "npm run tauri:build -- --bundles app");
    assert_eq!(resolve_build_command(Some(&p[..]), false), "npm run tauri:build");
    let p = package(vec![("build", "vite build"), ("tauri", "tauri")]);
    assert_eq!(resolve_build_command(Some(&p[..]), true), "npm run tauri -- build --bundles app");
    assert_eq!(resolve_build_command(Some(&p[..]), false), "npm run tauri -- build");
    let p = package(vec![("build", "vite build")]);
    assert_eq!(resolve_build_command(Some(&p[..]), true), "npm run build");
    let p = package(vec![("lint", "eslint")]);
    assert_eq!(resolve_build_command(Some(&p[..]), true), "npx tauri build --bundles app");
    assert_eq!(resolve_build_command(None, true), "npx tauri build --bundles app");
    assert_eq!(resolve_build_command(None, false), "npx tauri build");
}

#[test]
fn rust_dirs_come_first_on_path() {
    assert_eq!(with_rust("cargo metadata"), format!("{}cargo metadata", RUST_PATH));
    assert_eq!(with_rust(""), RUST_PATH);
}

#[test]
fn nvm_bins_newest_name_first() {
    let versions = vec![
        version("v16.0.0", true),
        version("v22.1.0", true),
        version("v20.3.0", false),
        version("v18.2.0", true),
    ];
    assert_eq!(
        with_nvm("pnpm tauri dev", "/h", &versions),
        "export PATH=\"/h/.nvm/versions/node/v22.1.0/bin:/h/.nvm/versions/node/v18.2.0/bin:\
/h/.nvm/versions/node/v16.0.0/bin:$PATH\"; pnpm tauri dev"
    );
}

#[test]
fn nvm_versions_compare_numerically() {
    let versions = vec![version("v9.11.2", true), version("v22.1.0", true)];
    assert_eq!(
        with_nvm("x", "/h", &versions),
        "export PATH=\"/h/.nvm/versions/node/v22.1.0/bin:/h/.nvm/versions/node/v9.11.2/bin:$PATH\"; x"
    );
    let versions = vec![version("v22.9.1", true), version("v22.10.0", true), version("v22.10", true)];
    assert_eq!(
        with_nvm("x", "/h", &versions),
        "export PATH=\"/h/.nvm/versions/node/v22.10.0/bin:/h/.nvm/versions/node/v22.10/bin:\
/h/.nvm/versions/node/v22.9.1/bin:$PATH\"; x"
    );
}

#[test]
fn nvm_equal_names_keep_listing_order() {
    let versions = vec![
        NodeVersion { name: "v20".to_string(), bin_dir: "/a".to_string(), has_pnpm: true },
        NodeVersion { name: "v20".to_string(), bin_dir: "/b".to_string(), has_pnpm: true },
    ];
    assert_eq!(with_nvm("x", "/h", &versions), "export PATH=\"/a:/b:$PATH\"; x");
}

#[test]
fn nvm_fallback_sources_nvm() {
    let versions = vec![version("v20.3.0", false)];
    let home = "/Users/me";
    let cmd = "npm run dev";
    let expected = format!(
        r#"[ -s "/opt/homebrew/opt/nvm/nvm.sh" ] && . "/opt/homebrew/opt/nvm/nvm.sh"; \
[ -s "{home}/.nvm/nvm.sh" ] && . "{home}/.nvm/nvm.sh"; \
{cmd}"#
    );
    assert_eq!(with_nvm(cmd, home, &versions), expected);
    assert_eq!(with_nvm(cmd, home, &Vec::new()), expected);
}

#[test]
fn cargo_clean_command() {
    let args = vec!["clean".to_string()];
    assert_eq!(cargo_command_line(&args), format!("{}cargo clean", RUST_PATH));
    let args = vec!["build".to_string(), "--release".to_string()];
    assert_eq!(cargo_command_line(&args), format!("{}cargo build --release", RUST_PATH));
}

#[test]
fn output_streams_are_combined() {
    assert_eq!(combine_output("out", "err", "命令执行完成"), "out\nerr");
    assert_eq!(combine_output("out", "", "命令执行完成"), "out");
    assert_eq!(combine_output("", "err", "命令执行完成"), "err");
    assert_eq!(combine_output("", "", "命令执行完成"), "命令执行完成");
}

#[test]
fn single_quotes_are_escaped() {
    assert_eq!(escape_single_quotes("/tmp/it's.png"), "/tmp/it'\\''s.png");
    assert_eq!(escape_single_quotes("plain"), "plain");
    assert_eq!(escape_single_quotes("''"), "'\\'''\\''");
    assert_eq!(escape_single_quotes(""), "");
}

fn expected_script(shell: &str, project_path: &str, full_cmd: &str, preflight: &str, tag: &str) -> String {
    let close_line = format!(
        r#"osascript -e 'tell application "Terminal" to close (every window whose custom title is "{tag}")' 2>/dev/null"#
    );
    format!(
        "#!{shell} -il\n\
export PATH=\"$HOME/.cargo/bin:/opt/homebrew/bin:/usr/local/bin:$PATH\"\n\
cd '{project_path}' || {{ echo \"cd 失败: {project_path}\"; read -r; exit 1; }}\n\
{preflight}\
echo \"=== 执行: {full_cmd} ===\"\n\
{full_cmd}\n\
_EXIT=$?\n\
if [ $_EXIT -ne 0 ] && [ $_EXIT -ne 130 ]; then\n\
  echo \"=== 异常退出 ($_EXIT)，按 Enter 关闭 ===\"\n\
  read -r\n\
fi\n\
{close_line}\n"
    )
}

const PREFLIGHT: &str = r#"
if [ -f package.json ] && grep -q '"@tauri-apps/cli"' package.json && [ ! -x node_modules/.bin/tauri ]; then
  echo "=== 未找到 node_modules/.bin/tauri，正在执行 npm install ==="
  npm install || exit $?
fi
"#;

#[test]
fn terminal_launch_for_tauri_dev() {
    let versions = vec![version("v22.1.0", true)];
    let l = terminal_launch("/bin/zsh", "/work/app", "npm run tauri:dev", "/h", &versions, 4242, 17);
    let full = "export PATH=\"/h/.nvm/versions/node/v22.1.0/bin:$PATH\"; npm run tauri:dev";
    assert_eq!(l.command, full);
    let tag = "webcode-debug-4242-17";
    assert_eq!(l.script_path, "/tmp/webcode-debug-4242-17.sh");
    assert_eq!(l.script, expected_script("/bin/zsh", "/work/app", full, PREFLIGHT, tag));
    assert_eq!(
        l.apple_script,
        "tell application \"Terminal\"\n\
do script \"/tmp/webcode-debug-4242-17.sh\"\n\
delay 0.3\n\
set custom title of front window to \"webcode-debug-4242-17\"\n\
activate\n\
end tell"
    );
    assert!(l.result.success);
    assert_eq!(
        l.result.output,
        "已在新 Terminal 窗口启动（npm run tauri:dev），请查看弹出的 Terminal"
    );
}

#[test]
fn terminal_launch_without_preflight() {
    let l = terminal_launch("/bin/bash", "/p", "npm run dev", "/h", &Vec::new(), 0, 4000000000);
    let full = with_nvm("npm run dev", "/h", &Vec::new());
    assert_eq!(l.command, full);
    assert_eq!(l.script_path, "/tmp/webcode-debug-0-4000000000.sh");
    assert_eq!(
        l.script,
        expected_script("/bin/bash", "/p", &full, "", "webcode-debug-0-4000000000")
    );
}
