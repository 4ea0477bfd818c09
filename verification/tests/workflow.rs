use icon_forge::full_bleed::PrepResult;

fn package(scripts: Vec<(&str, &str)>) -> String {
    let members: Vec<String> = scripts.iter().map(|(k, v)| format!("\"{}\": \"{}\"", k, v)).collect();
    format!("{{\"scripts\": {{{}}}}}", members.join(", "))
}
use icon_forge::replace::{IconReplacement, Phase, ReplaceAction, ReplaceEvent};
use icon_forge::workflow::{
    build_failed, build_succeeded, bundle_artifact, bundle_dir, clean_report, debug_launch,
    debug_started, home_or_default, macos_app_candidate, missing_dir, missing_project,
    open_in_place, shell_or_default, DebugLaunch, Platform,
};

#[test]
fn missing_project_report() {
    let r = missing_project("/work/app");
    assert!(!r.success);
    assert_eq!(r.output, "项目目录不存在: /work/app");
}

#[test]
fn bundle_directory() {
    assert_eq!(bundle_dir("/work/app"), "/work/app/src-tauri/target/release/bundle");
    assert_eq!(bundle_dir("/work/app/"), "/work/app/src-tauri/target/release/bundle");
}

#[test]
fn macos_app_path() {
    assert_eq!(macos_app_candidate("/b", "Demo"), Some("/b/macos/Demo.app".to_string()));
    assert_eq!(macos_app_candidate("/b", ""), None);
}

#[test]
fn artifact_on_macos() {
    assert_eq!(bundle_artifact(Platform::MacOs, "/b", "Demo", true, None), "/b/macos/Demo.app");
    assert_eq!(bundle_artifact(Platform::MacOs, "/b", "Demo", false, None), "/b/macos");
    assert_eq!(bundle_artifact(Platform::MacOs, "/b", "", true, None), "/b/macos");
}

#[test]
fn artifact_on_linux() {
    let names = vec!["notes.txt".to_string(), "demo.AppImage".to_string(), "other.AppImage".to_string()];
    assert_eq!(bundle_artifact(Platform::Linux, "/b", "Demo", false, Some(&names)), "/b/appimage/demo.AppImage");
    let names = vec!["demo.appimage".to_string(), ".AppImage".to_string()];
    assert_eq!(bundle_artifact(Platform::Linux, "/b", "Demo", false, Some(&names)), "/b/appimage");
    assert_eq!(bundle_artifact(Platform::Linux, "/b", "Demo", true, None), "/b/appimage");
}

#[test]
fn artifact_elsewhere() {
    assert_eq!(bundle_artifact(Platform::Other, "/b", "Demo", true, None), "/b");
}

#[test]
fn opening_in_finder() {
    assert!(open_in_place(true, "/b/macos"));
    assert!(!open_in_place(true, "/b/macos/Demo.app"));
    assert!(open_in_place(true, "/b/macos/Demo.apps"));
    assert!(!open_in_place(false, "/b/demo.dmg"));
}

#[test]
fn build_reports() {
    let r = build_failed();
    assert!(!r.success);
    assert_eq!(r.output, "构建失败，请查看日志");
    let r = build_succeeded("/b/macos/Demo.app");
    assert!(r.success);
    assert_eq!(r.output, "构建成功，产物位于: /b/macos/Demo.app");
}

#[test]
fn debug_runs_tauri_dev_in_terminal() {
    assert!(matches!(debug_launch(Some(&*package(vec![("tauri:dev", "tauri dev")]))), DebugLaunch::Terminal));
    assert!(matches!(debug_launch(None), DebugLaunch::Terminal));
    assert!(matches!(debug_launch(Some(&*package(vec![("dev", "tauri dev")]))), DebugLaunch::Terminal));
    assert!(matches!(debug_launch(Some(&*package(vec![("dev", "vite")]))), DebugLaunch::Background));
    assert!(matches!(debug_launch(Some(&*package(vec![("build", "vite build")]))), DebugLaunch::Terminal));
    let r = debug_started("npm run dev");
    assert!(r.success);
    assert_eq!(r.output, "已启动调试模式（npm run dev），日志实时输出中，首次 Rust 编译需约 1 分钟");
}

#[test]
fn clean_reports() {
    let r = missing_dir("/p/src-tauri");
    assert!(!r.success);
    assert_eq!(r.output, "目录不存在: /p/src-tauri");
    let r = clean_report(true, "", "");
    assert!(r.success);
    assert_eq!(r.output, "清理完成");
    let r = clean_report(false, "a", "b");
    assert!(!r.success);
    assert_eq!(r.output, "a\nb");
}

#[test]
fn environment_defaults() {
    assert_eq!(shell_or_default(None), "/bin/zsh");
    assert_eq!(shell_or_default(Some("/bin/bash".to_string())), "/bin/bash");
    assert_eq!(home_or_default(None), "~");
    assert_eq!(home_or_default(Some("/Users/me".to_string())), "/Users/me");
}

fn expect_check(a: ReplaceAction, path: &str) {
    match a {
        ReplaceAction::CheckExists(p) => assert_eq!(p, path),
        _ => panic!("expected an existence check of {}", path),
    }
}

fn expect_finish_ok(a: ReplaceAction) -> (bool, String) {
    match a {
        ReplaceAction::Finish(Ok(r)) => (r.success, r.output),
        _ => panic!("expected the replacement to finish"),
    }
}

fn expect_shell(a: ReplaceAction) -> (String, String) {
    match a {
        ReplaceAction::RunShell { command, cwd } => (command, cwd),
        _ => panic!("expected a shell command"),
    }
}

#[test]
fn replace_with_missing_tauri_dir() {
    let (mut r, a) = IconReplacement::start("/p", "/p/src-tauri", "/i.png", None, true);
    expect_check(a, "/p/src-tauri");
    let (ok, out) = expect_finish_ok(r.step(ReplaceEvent::Exists(false)));
    assert!(!ok);
    assert_eq!(out, "项目目录不存在: /p");
    assert_eq!(r.phase, Phase::Done);
}

#[test]
fn replace_with_missing_icon() {
    let (mut r, _) = IconReplacement::start("/p", "/p/src-tauri", "/i.png", Some(true), false);
    expect_check(r.step(ReplaceEvent::Exists(true)), "/i.png");
    let (ok, out) = expect_finish_ok(r.step(ReplaceEvent::Exists(false)));
    assert!(!ok);
    assert_eq!(out, "图标文件不存在: /i.png");
}

#[test]
fn replace_full_bleed_on_macos() {
    let (mut r, _) = IconReplacement::start("/p", "/p/src-tauri", "/i.png", None, true);
    r.step(ReplaceEvent::Exists(true));
    match r.step(ReplaceEvent::Exists(true)) {
        ReplaceAction::PrepareIcon(p) => assert_eq!(p, "/i.png"),
        _ => panic!("expected preparation"),
    }
    let prep = PrepResult { path: "/tmp/it's.png".to_string(), note: "cover".to_string(), is_temp: true };
    expect_check(r.step(ReplaceEvent::Prepared(Ok(prep))), "/p/node_modules/.bin/tauri");
    let (command, cwd) = expect_shell(r.step(ReplaceEvent::Exists(true)));
    assert_eq!(command, "node_modules/.bin/tauri icon '/tmp/it'\\''s.png'");
    assert_eq!(cwd, "/p");
    let a = r.step(ReplaceEvent::ShellDone { success: true, stdout: "done".to_string(), stderr: String::new() });
    match a {
        ReplaceAction::BakeIcns { icon, tauri_dir } => {
            assert_eq!(icon, "/tmp/it's.png");
            assert_eq!(tauri_dir, "/p/src-tauri");
        }
        _ => panic!("expected baking"),
    }
    match r.step(ReplaceEvent::Baked(Ok(()))) {
        ReplaceAction::RemoveFile(p) => assert_eq!(p, "/tmp/it's.png"),
        _ => panic!("expected removal of the temporary icon"),
    }
    let (ok, out) = expect_finish_ok(r.step(ReplaceEvent::Removed));
    assert!(ok);
    assert_eq!(out, "[fullbleed] cover；已烘焙 macOS 圆角外观\ndone");
    assert!(r.temp_icon.is_none());
}

#[test]
fn replace_with_failed_preparation_and_bake() {
    let (mut r, _) = IconReplacement::start("/p", "/p/src-tauri", "/i.png", None, true);
    r.step(ReplaceEvent::Exists(true));
    r.step(ReplaceEvent::Exists(true));
    r.step(ReplaceEvent::Prepared(Err("图片完全透明".to_string())));
    let (command, _) = expect_shell(r.step(ReplaceEvent::Exists(false)));
    assert_eq!(command, "npx --yes @tauri-apps/cli@latest icon '/i.png'");
    r.step(ReplaceEvent::ShellDone { success: true, stdout: String::new(), stderr: "warn".to_string() });
    let (ok, out) = expect_finish_ok(r.step(ReplaceEvent::Baked(Err("bad".to_string()))));
    assert!(ok);
    assert_eq!(out, "[fullbleed] 满幅预处理跳过（图片完全透明），使用原图；macOS 外观烘焙失败（bad）\nwarn");
}

#[test]
fn replace_without_full_bleed() {
    let (mut r, _) = IconReplacement::start("/p", "/p/src-tauri", "/i.png", Some(false), true);
    r.step(ReplaceEvent::Exists(true));
    expect_check(r.step(ReplaceEvent::Exists(true)), "/p/node_modules/.bin/tauri");
    let (command, _) = expect_shell(r.step(ReplaceEvent::Exists(false)));
    assert_eq!(command, "npx --yes @tauri-apps/cli@latest icon '/i.png'");
    let (ok, out) = expect_finish_ok(r.step(ReplaceEvent::ShellDone {
        success: true,
        stdout: String::new(),
        stderr: String::new(),
    }));
    assert!(ok);
    assert_eq!(out, "命令执行完成");
}

#[test]
fn replace_failed_cli_skips_baking() {
    let (mut r, _) = IconReplacement::start("/p", "/p/src-tauri", "/i.png", None, true);
    r.step(ReplaceEvent::Exists(true));
    r.step(ReplaceEvent::Exists(true));
    let prep = PrepResult { path: "/i.png".to_string(), note: "SVG 源图原样使用".to_string(), is_temp: false };
    r.step(ReplaceEvent::Prepared(Ok(prep)));
    r.step(ReplaceEvent::Exists(false));
    let (ok, out) = expect_finish_ok(r.step(ReplaceEvent::ShellDone {
        success: false,
        stdout: "o".to_string(),
        stderr: "e".to_string(),
    }));
    assert!(!ok);
    assert_eq!(out, "[fullbleed] SVG 源图原样使用\no\ne");
}

#[test]
fn replace_off_macos_does_not_bake() {
    let (mut r, _) = IconReplacement::start("/p", "/p/src-tauri", "/i.png", None, false);
    r.step(ReplaceEvent::Exists(true));
    r.step(ReplaceEvent::Exists(true));
    let prep = PrepResult { path: "/tmp/x.png".to_string(), note: "plate".to_string(), is_temp: true };
    r.step(ReplaceEvent::Prepared(Ok(prep)));
    r.step(ReplaceEvent::Exists(true));
    match r.step(ReplaceEvent::ShellDone { success: true, stdout: "ok".to_string(), stderr: String::new() }) {
        ReplaceAction::RemoveFile(p) => assert_eq!(p, "/tmp/x.png"),
        _ => panic!("expected removal of the temporary icon"),
    }
    let (ok, out) = expect_finish_ok(r.step(ReplaceEvent::Removed));
    assert!(ok);
    assert_eq!(out, "[fullbleed] plate\nok");
}

#[test]
fn replace_shell_that_cannot_start() {
    let (mut r, _) = IconReplacement::start("/p", "/p/src-tauri", "/i.png", Some(false), true);
    r.step(ReplaceEvent::Exists(true));
    r.step(ReplaceEvent::Exists(true));
    r.step(ReplaceEvent::Exists(true));
    match r.step(ReplaceEvent::ShellFailed("No such file".to_string())) {
        ReplaceAction::Finish(Err(m)) => assert_eq!(m, "执行命令失败: No such file"),
        _ => panic!("expected an error"),
    }
}

#[test]
fn replacement_finishes_within_seven_steps() {
    let (mut r, mut action) = IconReplacement::start("/p", "/p/src-tauri", "/i.png", None, true);
    let mut steps = 0;
    loop {
        let event = match action {
            ReplaceAction::CheckExists(_) => ReplaceEvent::Exists(true),
            ReplaceAction::PrepareIcon(_) => ReplaceEvent::Prepared(Ok(PrepResult {
                path: "/tmp/t.png".to_string(),
                note: "n".to_string(),
                is_temp: true,
            })),
            ReplaceAction::RunShell { .. } => ReplaceEvent::ShellDone {
                success: true,
                stdout: String::new(),
                stderr: String::new(),
            },
            ReplaceAction::BakeIcns { .. } => ReplaceEvent::Baked(Ok(())),
            ReplaceAction::RemoveFile(_) => ReplaceEvent::Removed,
            ReplaceAction::Finish(_) => break,
        };
        action = r.step(event);
        steps += 1;
    }
    assert_eq!(steps, 7);
    assert_eq!(r.phase, Phase::Done);
}

#[test]
fn replace_shell_failure_still_removes_temp_icon() {
    let (mut r, _) = IconReplacement::start("/p", "/p/src-tauri", "/i.png", None, true);
    r.step(ReplaceEvent::Exists(true));
    r.step(ReplaceEvent::Exists(true));
    let prep = PrepResult { path: "/tmp/t.png".to_string(), note: "cover".to_string(), is_temp: true };
    r.step(ReplaceEvent::Prepared(Ok(prep)));
    r.step(ReplaceEvent::Exists(true));
    match r.step(ReplaceEvent::ShellFailed("No such file".to_string())) {
        ReplaceAction::RemoveFile(p) => assert_eq!(p, "/tmp/t.png"),
        _ => panic!("expected removal of the temporary icon"),
    }
    match r.step(ReplaceEvent::Removed) {
        ReplaceAction::Finish(Err(m)) => assert_eq!(m, "执行命令失败: No such file"),
        _ => panic!("expected an error"),
    }
    assert!(r.temp_icon.is_none());
    assert_eq!(r.phase, Phase::Done);
}
