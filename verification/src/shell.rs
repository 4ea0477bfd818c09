//! The shell commands that drive the Tauri CLI and cargo of a project.

use vstd::prelude::*;
use crate::json::{as_str, get, has_key, json_get, json_str, parse_file, parsed_file, Json};
use crate::ordering::{is_stable_order, stable_order};
use crate::text::{append, chars_of, contains, contains_str, owned};

verus! {

/// `cmd` starts the Tauri development shell.
pub open spec fn is_tauri_dev(cmd: Seq<char>) -> bool {
    ||| contains(cmd, "tauri:dev"@)
    ||| contains(cmd, "tauri dev"@)
    ||| contains(cmd, "tauri -- dev"@)
    ||| contains(cmd, "cargo tauri dev"@)
    ||| contains(cmd, "pnpm tauri dev"@)
}

/// Whether `cmd` starts the Tauri development shell (see [`is_tauri_dev`]).
pub fn is_tauri_dev_command(cmd: &str) -> (b: bool)
    ensures
        b == is_tauri_dev(cmd@),
{
    contains_str(cmd, "tauri:dev") || contains_str(cmd, "tauri dev") || contains_str(cmd, "tauri -- dev")
        || contains_str(cmd, "cargo tauri dev") || contains_str(cmd, "pnpm tauri dev")
}

/// The script is a string that starts the Tauri development shell.
pub open spec fn script_is_tauri_dev(script: Option<Json>) -> bool {
    match json_str(script) {
        Some(s) => is_tauri_dev(s),
        None => false,
    }
}

/// Whether a `package.json` script is a string that starts the Tauri development shell.
pub fn script_contains_tauri_dev(script: Option<&Json>) -> (b: bool)
    ensures
        b == script_is_tauri_dev(match script {
            Some(j) => Some(*j),
            None => None,
        }),
{
    match as_str(script) {
        Some(s) => is_tauri_dev_command(s.as_str()),
        None => false,
    }
}

/// The `scripts` object of a `package.json`, when there is one.
pub open spec fn scripts_of(package: Option<Json>) -> Option<Json> {
    match package {
        Some(p) => match json_get(p, "scripts"@) {
            Some(s) => if s is Object {
                Some(s)
            } else {
                None
            },
            None => None,
        },
        None => None,
    }
}

/// The `dev` script of a `package.json`, when there is one.
pub open spec fn dev_script_of(package: Option<Json>) -> Option<Json> {
    match scripts_of(package) {
        Some(s) => json_get(s, "dev"@),
        None => None,
    }
}

/// The command that starts a project in development: a `tauri:dev` script first, then a
/// `tauri` script, then a `dev` script, and the Tauri CLI through `npx` when the project
/// has no such script or no readable `package.json`.
pub open spec fn dev_command(package: Option<Json>) -> Seq<char> {
    match scripts_of(package) {
        Some(s) => if has_key(s, "tauri:dev"@) {
            "npm run tauri:dev"@
        } else if has_key(s, "tauri"@) {
            "npm run tauri -- dev"@
        } else if script_is_tauri_dev(json_get(s, "dev"@)) {
            "npm run dev"@
        } else if has_key(s, "dev"@) {
            "npm run dev"@
        } else {
            "npx tauri dev"@
        },
        None => "npx tauri dev"@,
    }
}

pub(crate) fn scripts<'a>(package: Option<&'a Json>) -> (s: Option<&'a Json>)
    ensures
        match (s, scripts_of(match package {
            Some(j) => Some(*j),
            None => None,
        })) {
            (Some(a), Some(b)) => *a == b,
            (None, None) => true,
            _ => false,
        },
{
    match package {
        Some(p) => match get(p, "scripts") {
            Some(s) => match s {
                Json::Object(_) => Some(s),
                _ => None,
            },
            None => None,
        },
        None => None,
    }
}

fn has_script(s: &Json, key: &str) -> (b: bool)
    requires
        s is Object,
    ensures
        b == has_key(*s, key@),
{
    get(s, key).is_some()
}

/// The command that starts a project in development, given its `package.json` (see
/// [`dev_command`]); `package_json` is the file's text, `None` when it cannot be read.
pub fn resolve_dev_command(package_json: Option<&str>) -> (cmd: String)
    ensures
        cmd@ == dev_command(parsed_file(package_json)),
{
    let package = parse_file(package_json);
    dev_command_for(package.as_ref())
}

/// The command that starts a project in development (see [`dev_command`]), given its
/// parsed `package.json`.
pub fn dev_command_for(package: Option<&Json>) -> (cmd: String)
    ensures
        cmd@ == dev_command(match package {
            Some(j) => Some(*j),
            None => None,
        }),
{
    match scripts(package) {
        Some(s) => {
            if has_script(s, "tauri:dev") {
                owned("npm run tauri:dev")
            } else if has_script(s, "tauri") {
                owned("npm run tauri -- dev")
            } else if script_contains_tauri_dev(get(s, "dev")) {
                owned("npm run dev")
            } else if has_script(s, "dev") {
                owned("npm run dev")
            } else {
                owned("npx tauri dev")
            }
        },
        None => owned("npx tauri dev"),
    }
}

/// The command that builds a project's release bundle: a `tauri:build` script first, then
/// a `tauri` script, then a `build` script, else the Tauri CLI through `npx`. On macOS only
/// the `.app` bundle is made, since a DMG needs `create-dmg`.
pub open spec fn build_command(package: Option<Json>, macos: bool) -> Seq<char> {
    let fallback = if macos {
        "npx tauri build --bundles app"@
    } else {
        "npx tauri build"@
    };
    match scripts_of(package) {
        Some(s) => if has_key(s, "tauri:build"@) {
            if macos {
                "npm run tauri:build -- --bundles app"@
            } else {
                "npm run tauri:build"@
            }
        } else if has_key(s, "tauri"@) {
            if macos {
                "npm run tauri -- build --bundles app"@
            } else {
                "npm run tauri -- build"@
            }
        } else if has_key(s, "build"@) {
            "npm run build"@
        } else {
            fallback
        },
        None => fallback,
    }
}

/// The command that builds a project's release bundle, given the text of its
/// `package.json`, `None` when it cannot be read (see [`build_command`]).
pub fn resolve_build_command(package_json: Option<&str>, macos: bool) -> (cmd: String)
    ensures
        cmd@ == build_command(parsed_file(package_json), macos),
{
    let package = parse_file(package_json);
    build_command_for(package.as_ref(), macos)
}

/// The command that builds a project's release bundle (see [`build_command`]), given its
/// parsed `package.json`.
pub fn build_command_for(package: Option<&Json>, macos: bool) -> (cmd: String)
    ensures
        cmd@ == build_command(match package {
            Some(j) => Some(*j),
            None => None,
        }, macos),
{
    match scripts(package) {
        Some(s) => {
            if has_script(s, "tauri:build") {
                if macos {
                    owned("npm run tauri:build -- --bundles app")
                } else {
                    owned("npm run tauri:build")
                }
            } else if has_script(s, "tauri") {
                if macos {
                    owned("npm run tauri -- build --bundles app")
                } else {
                    owned("npm run tauri -- build")
                }
            } else if has_script(s, "build") {
                owned("npm run build")
            } else if macos {
                owned("npx tauri build --bundles app")
            } else {
                owned("npx tauri build")
            }
        },
        None => if macos {
            owned("npx tauri build --bundles app")
        } else {
            owned("npx tauri build")
        },
    }
}

/// The prefix that puts the usual cargo install directories on `PATH`.
pub open spec fn rust_path_prefix() -> Seq<char> {
    "export PATH=\"$HOME/.cargo/bin:/opt/homebrew/bin:/usr/local/bin:$PATH\"; "@
}

/// Runs `cmd` with the usual cargo install directories on `PATH`: `tauri build` and
/// `tauri dev` call `cargo metadata`, and installed apps inherit a bare `PATH`.
pub fn with_rust(cmd: &str) -> (out: String)
    ensures
        out@ == rust_path_prefix() + cmd@,
{
    let mut out = owned("export PATH=\"$HOME/.cargo/bin:/opt/homebrew/bin:/usr/local/bin:$PATH\"; ");
    append(&mut out, cmd);
    out
}

/// One Node.js version installed by nvm.
pub struct NodeVersion {
    /// The version directory's name, such as `v22.1.0`.
    pub name: String,
    /// Its `bin` directory.
    pub bin_dir: String,
    /// Whether that directory holds `pnpm`.
    pub has_pnpm: bool,
}

/// The versions whose `bin` directory holds `pnpm`, in their original order.
pub open spec fn pnpm_versions(versions: Seq<NodeVersion>) -> Seq<NodeVersion>
    decreases versions.len(),
{
    if versions.len() == 0 {
        Seq::empty()
    } else {
        let rest = pnpm_versions(versions.drop_last());
        if versions.last().has_pnpm {
            rest.push(versions.last())
        } else {
            rest
        }
    }
}

/// The parts joined with `sep` between them.
pub open spec fn join(parts: Seq<Seq<char>>, sep: Seq<char>) -> Seq<char>
    decreases parts.len(),
{
    if parts.len() == 0 {
        Seq::empty()
    } else if parts.len() == 1 {
        parts[0]
    } else {
        join(parts.drop_last(), sep) + sep + parts.last()
    }
}

/// The script line that loads nvm, from Homebrew or from `home`, before `cmd`.
pub open spec fn nvm_fallback(home: Seq<char>, cmd: Seq<char>) -> Seq<char> {
    "[ -s \"/opt/homebrew/opt/nvm/nvm.sh\" ] && . \"/opt/homebrew/opt/nvm/nvm.sh\"; \\\n[ -s \""@ + home
        + "/.nvm/nvm.sh\" ] && . \""@ + home + "/.nvm/nvm.sh\"; \\\n"@ + cmd
}

/// The largest value a part of a version number counts with.
pub const VERSION_PART_MAX: u32 = 55295;

/// The value of a part of a version number after its next digit `c`; values saturate at
/// [`VERSION_PART_MAX`].
pub open spec fn next_part_value(v: u32, c: char) -> u32 {
    let n = v * 10 + (c as u32 - '0' as u32);
    if n < VERSION_PART_MAX {
        n as u32
    } else {
        VERSION_PART_MAX
    }
}

pub open spec fn is_digit(c: char) -> bool {
    '0' as u32 <= c as u32 <= '9' as u32
}

/// Reading a version name from the left: the values of the parts closed by a `.` so far,
/// and the value of the open part.
pub open spec fn version_state(s: Seq<char>) -> (Seq<u32>, u32)
    decreases s.len(),
{
    if s.len() == 0 {
        (Seq::empty(), 0u32)
    } else {
        let (done, v) = version_state(s.drop_last());
        let c = s.last();
        if c == '.' {
            (done.push(v), 0u32)
        } else if is_digit(c) {
            (done, next_part_value(v, c))
        } else {
            (done, v)
        }
    }
}

/// The numeric parts of a version name such as `v22.1.0`: the parts between the dots,
/// each worth the number its decimal digits spell (other characters, such as the leading
/// `v`, are skipped).
pub open spec fn version_parts(name: Seq<char>) -> Seq<u32> {
    let (done, v) = version_state(name);
    done.push(v)
}

/// The sort key of a version name: its numeric parts, each as the character of that code
/// point, so that comparing keys compares the versions part by part, numerically (a
/// version whose parts begin another's is the older one).
pub open spec fn version_key(name: Seq<char>) -> Seq<char> {
    version_parts(name).map_values(|v: u32| v as char)
}

/// The sort keys of the versions' names.
pub open spec fn version_names(versions: Seq<NodeVersion>) -> Seq<Seq<char>> {
    versions.map_values(|v: NodeVersion| version_key(v.name@))
}

/// Calls `char::from_u32`, which gives the character of any code point below the
/// surrogates (a Unicode scalar value).
#[verifier::external_body]
fn char_of(v: u32) -> (c: char)
    requires
        v < 0xD800,
    ensures
        c as u32 == v,
{
    char::from_u32(v).unwrap()
}

/// The sort key of a version name (see [`version_key`]).
fn version_key_of(name: &str) -> (key: Vec<char>)
    ensures
        key@ == version_key(name@),
{
    let c = chars_of(name);
    let mut key: Vec<char> = Vec::new();
    let mut v: u32 = 0;
    let mut i: usize = 0;
    while i < c.len()
        invariant
            c@ == name@,
            i <= c@.len(),
            v == version_state(c@.take(i as int)).1,
            v <= VERSION_PART_MAX,
            key@ == version_state(c@.take(i as int)).0.map_values(|x: u32| x as char),
        decreases c@.len() - i,
    {
        assert(c@.take(i + 1).drop_last() =~= c@.take(i as int));
        assert(c@.take(i + 1).last() == c[i as int]);
        let ch = c[i];
        if ch == '.' {
            let k = char_of(v);
            proof {
                vstd::utf8::char_u32_cast(k, v);
            }
            let ghost old_key = key@;
            key.push(k);
            proof {
                let done = version_state(c@.take(i as int)).0;
                assert(key@ =~= done.push(v).map_values(|x: u32| x as char));
            }
            v = 0;
        } else if '0' as u32 <= ch as u32 && ch as u32 <= '9' as u32 {
            let d: u32 = (ch as u32) - ('0' as u32);
            let n: u32 = v * 10 + d;
            v = if n < VERSION_PART_MAX { n } else { VERSION_PART_MAX };
        }
        i = i + 1;
    }
    let k = char_of(v);
    proof {
        vstd::utf8::char_u32_cast(k, v);
    }
    key.push(k);
    proof {
        assert(c@.take(c@.len() as int) =~= c@);
        let (done, last) = version_state(c@);
        assert(key@ =~= done.push(last).map_values(|x: u32| x as char));
    }
    key
}

/// The `bin` directories of the versions at the positions `order`.
pub open spec fn bins_in(versions: Seq<NodeVersion>, order: Seq<int>) -> Seq<Seq<char>> {
    order.map_values(|i: int| versions[i].bin_dir@)
}

/// `out` runs `cmd` with Node.js on `PATH`: the `bin` directories of the nvm versions that
/// hold `pnpm`, newest version first (compared numerically by [`version_key`], ties in
/// listing order), are put in front of `PATH`; without such a version, nvm itself is loaded.
pub open spec fn is_nvm_command(out: Seq<char>, cmd: Seq<char>, home: Seq<char>, versions: Seq<NodeVersion>) -> bool {
    let kept = pnpm_versions(versions);
    if kept.len() == 0 {
        out == nvm_fallback(home, cmd)
    } else {
        exists|order: Seq<int>|
            #![trigger is_stable_order(version_names(kept), order, true)]
            is_stable_order(version_names(kept), order, true) && out == "export PATH=\""@ + join(
                bins_in(kept, order),
                ":"@,
            ) + ":$PATH\"; "@ + cmd
    }
}

/// Runs `cmd` with Node.js on `PATH` (see [`is_nvm_command`]); `home` is `$HOME` (`~` when
/// unset) and `versions` the entries of `~/.nvm/versions/node`.
pub fn with_nvm(cmd: &str, home: &str, versions: &Vec<NodeVersion>) -> (out: String)
    ensures
        is_nvm_command(out@, cmd@, home@, versions@),
{
    let mut kept: Vec<&NodeVersion> = Vec::new();
    let mut i: usize = 0;
    while i < versions.len()
        invariant
            i <= versions@.len(),
            kept@.len() == pnpm_versions(versions@.take(i as int)).len(),
            forall|j: int| 0 <= j < kept@.len() ==> *#[trigger] kept@[j] == pnpm_versions(versions@.take(i as int))[j],
        decreases versions@.len() - i,
    {
        assert(versions@.take(i + 1).drop_last() =~= versions@.take(i as int));
        if versions[i].has_pnpm {
            kept.push(&versions[i]);
        }
        i = i + 1;
    }
    assert(versions@.take(versions@.len() as int) =~= versions@);
    let ghost kv = pnpm_versions(versions@);
    if kept.len() == 0 {
        let mut out = owned("[ -s \"/opt/homebrew/opt/nvm/nvm.sh\" ] && . \"/opt/homebrew/opt/nvm/nvm.sh\"; \\\n[ -s \"");
        append(&mut out, home);
        append(&mut out, "/.nvm/nvm.sh\" ] && . \"");
        append(&mut out, home);
        append(&mut out, "/.nvm/nvm.sh\"; \\\n");
        append(&mut out, cmd);
        return out;
    }
    let mut keys: Vec<Vec<char>> = Vec::new();
    let mut j: usize = 0;
    while j < kept.len()
        invariant
            j <= kept@.len(),
            kept@.len() == kv.len(),
            forall|m: int| 0 <= m < kept@.len() ==> *#[trigger] kept@[m] == kv[m],
            keys@.len() == j,
            forall|m: int| 0 <= m < j ==> #[trigger] keys@[m]@ == version_key(kv[m].name@),
        decreases kept@.len() - j,
    {
        keys.push(version_key_of(kept[j].name.as_str()));
        j = j + 1;
    }
    let order = stable_order(&keys, true);
    let ghost names = kv.map_values(|v: NodeVersion| version_key(v.name@));
    let ghost ord = order@.map_values(|x: usize| x as int);
    assert(keys@.map_values(|k: Vec<char>| k@) =~= names);
    let mut joined = String::new();
    let mut m: usize = 0;
    while m < order.len()
        invariant
            m <= order@.len(),
            order@.len() == kv.len(),
            kept@.len() == kv.len(),
            forall|t: int| 0 <= t < kept@.len() ==> *#[trigger] kept@[t] == kv[t],
            is_stable_order(names, ord, true),
            ord == order@.map_values(|x: usize| x as int),
            names == kv.map_values(|v: NodeVersion| version_key(v.name@)),
            joined@ == join(ord.take(m as int).map_values(|t: int| kv[t].bin_dir@), ":"@),
        decreases order@.len() - m,
    {
        let t = order[m];
        assert(0 <= ord[m as int] < names.len());
        if m > 0 {
            append(&mut joined, ":");
        }
        append(&mut joined, kept[t].bin_dir.as_str());
        proof {
            let parts = ord.take(m + 1).map_values(|t: int| kv[t].bin_dir@);
            assert(parts.drop_last() =~= ord.take(m as int).map_values(|t: int| kv[t].bin_dir@));
            assert(parts.last() == kv[t as int].bin_dir@);
            if m == 0 {
                assert(parts.len() == 1);
            }
        }
        m = m + 1;
    }
    assert(ord.take(ord.len() as int) =~= ord);
    let mut out = owned("export PATH=\"");
    append(&mut out, joined.as_str());
    append(&mut out, ":$PATH\"; ");
    append(&mut out, cmd);
    assert(version_names(kv) =~= names);
    assert(bins_in(kv, ord) =~= ord.map_values(|t: int| kv[t].bin_dir@));
    assert(is_stable_order(version_names(kv), ord, true));
    out
}

/// The command line that runs `cargo` with `args` and the usual cargo install directories
/// on `PATH`.
pub open spec fn cargo_command(args: Seq<Seq<char>>) -> Seq<char> {
    rust_path_prefix() + "cargo "@ + join(args, " "@)
}

/// The command line that runs `cargo` with `args` (see [`cargo_command`]).
pub fn cargo_command_line(args: &Vec<String>) -> (cmd: String)
    ensures
        cmd@ == cargo_command(args@.map_values(|a: String| a@)),
{
    let mut joined = String::new();
    let mut i: usize = 0;
    while i < args.len()
        invariant
            i <= args@.len(),
            joined@ == join(args@.take(i as int).map_values(|a: String| a@), " "@),
        decreases args@.len() - i,
    {
        if i > 0 {
            append(&mut joined, " ");
        }
        append(&mut joined, args[i].as_str());
        proof {
            let parts = args@.take(i + 1).map_values(|a: String| a@);
            assert(parts.drop_last() =~= args@.take(i as int).map_values(|a: String| a@));
            if i == 0 {
                assert(parts.len() == 1);
            }
        }
        i = i + 1;
    }
    assert(args@.take(args@.len() as int) =~= args@);
    let mut prefix = owned("cargo ");
    append(&mut prefix, joined.as_str());
    let out = with_rust(prefix.as_str());
    assert(out@ =~= cargo_command(args@.map_values(|a: String| a@)));
    out
}

/// The output of a command as reported to the user: standard output and standard error
/// on separate lines, whichever is not empty, or `done` when both are empty.
pub open spec fn combined_output(stdout: Seq<char>, stderr: Seq<char>, done: Seq<char>) -> Seq<char> {
    if stdout.len() > 0 && stderr.len() > 0 {
        stdout + "\n"@ + stderr
    } else if stdout.len() > 0 {
        stdout
    } else if stderr.len() > 0 {
        stderr
    } else {
        done
    }
}

/// Joins the output streams of a command (see [`combined_output`]).
pub fn combine_output(stdout: &str, stderr: &str, done: &str) -> (out: String)
    ensures
        out@ == combined_output(stdout@, stderr@, done@),
{
    if !stdout.is_empty() && !stderr.is_empty() {
        let mut out = owned(stdout);
        append(&mut out, "\n");
        append(&mut out, stderr);
        out
    } else if !stdout.is_empty() {
        owned(stdout)
    } else if !stderr.is_empty() {
        owned(stderr)
    } else {
        owned(done)
    }
}

/// `s` with every `'` written as `'\''`, so that it can stand inside single quotes in a
/// shell command.
pub open spec fn quote_escaped(s: Seq<char>) -> Seq<char>
    decreases s.len(),
{
    if s.len() == 0 {
        Seq::empty()
    } else {
        quote_escaped(s.drop_last()) + if s.last() == '\'' {
            "'\\''"@
        } else {
            seq![s.last()]
        }
    }
}

/// Escapes single quotes for a single-quoted shell word (see [`quote_escaped`]).
pub fn escape_single_quotes(s: &str) -> (out: String)
    ensures
        out@ == quote_escaped(s@),
{
    let c = chars_of(s);
    let mut out = String::new();
    let mut i: usize = 0;
    while i < c.len()
        invariant
            c@ == s@,
            i <= c@.len(),
            out@ == quote_escaped(c@.take(i as int)),
        decreases c@.len() - i,
    {
        assert(c@.take(i + 1).drop_last() =~= c@.take(i as int));
        if c[i] == '\'' {
            append(&mut out, "'\\''");
        } else {
            let one = crate::text::string_from_chars(&vec![c[i]]);
            append(&mut out, one.as_str());
        }
        i = i + 1;
    }
    assert(c@.take(c@.len() as int) =~= c@);
    out
}


/// The result of a command run for a project: whether it succeeded, and what to show.
#[derive(Debug)]
pub struct IconOpResult {
    pub success: bool,
    pub output: String,
}

/// The lines that install a project's Node.js dependencies when its Tauri CLI is missing.
pub open spec fn npm_preflight() -> Seq<char> {
    r#"
if [ -f package.json ] && grep -q '"@tauri-apps/cli"' package.json && [ ! -x node_modules/.bin/tauri ]; then
  echo "=== 未找到 node_modules/.bin/tauri，正在执行 npm install ==="
  npm install || exit $?
fi
"#@
}

/// The unique tag of a Terminal window: `webcode-debug-{pid}-{uid}`.
pub open spec fn window_tag(pid: u32, uid: u32) -> Seq<char> {
    "webcode-debug-"@ + crate::text::decimal(pid as nat) + "-"@ + crate::text::decimal(uid as nat)
}

/// The temporary script of a Terminal launch: `/tmp/{tag}.sh`.
pub open spec fn launch_script_path(pid: u32, uid: u32) -> Seq<char> {
    "/tmp/"@ + window_tag(pid, uid) + ".sh"@
}

/// The line that closes the Terminal window tagged `tag`.
pub open spec fn close_window_line(tag: Seq<char>) -> Seq<char> {
    "osascript -e 'tell application \"Terminal\" to close (every window whose custom title is \""@ + tag
        + "\")' 2>/dev/null"@
}

/// The script a Terminal window runs: it enters the project, installs missing Node.js
/// dependencies first when `preflight` asks for it, runs the command, waits for Enter
/// when the command failed (other than by Ctrl-C), and closes its own window.
pub open spec fn launch_script(shell: Seq<char>, project_path: Seq<char>, full_cmd: Seq<char>, preflight: Seq<char>, tag: Seq<char>) -> Seq<char> {
    "#!"@ + shell + " -il\n\
export PATH=\"$HOME/.cargo/bin:/opt/homebrew/bin:/usr/local/bin:$PATH\"\n\
cd '"@ + project_path + "' || { echo \"cd 失败: "@ + project_path + "\"; read -r; exit 1; }\n"@
        + preflight + "echo \"=== 执行: "@ + full_cmd + " ===\"\n"@ + full_cmd + "\n\
_EXIT=$?\n\
if [ $_EXIT -ne 0 ] && [ $_EXIT -ne 130 ]; then\n\
  echo \"=== 异常退出 ($_EXIT)，按 Enter 关闭 ===\"\n\
  read -r\n\
fi\n"@ + close_window_line(tag) + "\n"@
}

/// The AppleScript that opens a Terminal window on `script_path` and tags it.
pub open spec fn terminal_apple_script(script_path: Seq<char>, tag: Seq<char>) -> Seq<char> {
    "tell application \"Terminal\"\n\
do script \""@ + script_path + "\"\n\
delay 0.3\n\
set custom title of front window to \""@ + tag + "\"\n\
activate\n\
end tell"@
}

/// Everything a Terminal launch writes and reports.
pub struct TerminalLaunch {
    /// The command the window runs: the development command with Node.js on `PATH`.
    pub command: String,
    /// Where the script is written.
    pub script_path: String,
    /// The script.
    pub script: String,
    /// The AppleScript that opens the window.
    pub apple_script: String,
    /// What is reported once the window is opened.
    pub result: IconOpResult,
}

/// Prepares running `raw_cmd` in a new Terminal window: the window runs `raw_cmd` with
/// Node.js on `PATH` (see [`with_nvm`], from `home` and the nvm `versions`), `shell` is
/// the user's shell, and `pid` and `uid` make the script's path and the window's tag
/// unique. The dependency check runs first for Tauri development commands.
pub fn terminal_launch(
    shell: &str,
    project_path: &str,
    raw_cmd: &str,
    home: &str,
    versions: &Vec<NodeVersion>,
    pid: u32,
    uid: u32,
) -> (launch: TerminalLaunch)
    ensures
        is_nvm_command(launch.command@, raw_cmd@, home@, versions@),
        launch.script_path@ == launch_script_path(pid, uid),
        launch.script@ == launch_script(
            shell@,
            project_path@,
            launch.command@,
            if is_tauri_dev(raw_cmd@) {
                npm_preflight()
            } else {
                ""@
            },
            window_tag(pid, uid),
        ),
        launch.apple_script@ == terminal_apple_script(launch_script_path(pid, uid), window_tag(pid, uid)),
        launch.result.success,
        launch.result.output@ == "已在新 Terminal 窗口启动（"@ + raw_cmd@ + "），请查看弹出的 Terminal"@,
{
    let mut tag = owned("webcode-debug-");
    let pid_s = crate::text::decimal_string(pid);
    let uid_s = crate::text::decimal_string(uid);
    append(&mut tag, pid_s.as_str());
    append(&mut tag, "-");
    append(&mut tag, uid_s.as_str());
    let mut path = owned("/tmp/");
    append(&mut path, tag.as_str());
    append(&mut path, ".sh");
    let full = with_nvm(raw_cmd, home, versions);
    let full_cmd = full.as_str();
    let preflight = if is_tauri_dev_command(raw_cmd) {
        owned(r#"
if [ -f package.json ] && grep -q '"@tauri-apps/cli"' package.json && [ ! -x node_modules/.bin/tauri ]; then
  echo "=== 未找到 node_modules/.bin/tauri，正在执行 npm install ==="
  npm install || exit $?
fi
"#)
    } else {
        owned("")
    };
    let mut close = owned("osascript -e 'tell application \"Terminal\" to close (every window whose custom title is \"");
    append(&mut close, tag.as_str());
    append(&mut close, "\")' 2>/dev/null");
    let mut script = owned("#!");
    append(&mut script, shell);
    append(&mut script, " -il\n\
export PATH=\"$HOME/.cargo/bin:/opt/homebrew/bin:/usr/local/bin:$PATH\"\n\
cd '");
    append(&mut script, project_path);
    append(&mut script, "' || { echo \"cd 失败: ");
    append(&mut script, project_path);
    append(&mut script, "\"; read -r; exit 1; }\n");
    append(&mut script, preflight.as_str());
    append(&mut script, "echo \"=== 执行: ");
    append(&mut script, full_cmd);
    append(&mut script, " ===\"\n");
    append(&mut script, full_cmd);
    append(&mut script, "\n\
_EXIT=$?\n\
if [ $_EXIT -ne 0 ] && [ $_EXIT -ne 130 ]; then\n\
  echo \"=== 异常退出 ($_EXIT)，按 Enter 关闭 ===\"\n\
  read -r\n\
fi\n");
    append(&mut script, close.as_str());
    append(&mut script, "\n");
    let mut apple = owned("tell application \"Terminal\"\n\
do script \"");
    append(&mut apple, path.as_str());
    append(&mut apple, "\"\n\
delay 0.3\n\
set custom title of front window to \"");
    append(&mut apple, tag.as_str());
    append(&mut apple, "\"\n\
activate\n\
end tell");
    let mut output = owned("已在新 Terminal 窗口启动（");
    append(&mut output, raw_cmd);
    append(&mut output, "），请查看弹出的 Terminal");
    proof {
        assert(tag@ =~= window_tag(pid, uid));
        assert(path@ =~= launch_script_path(pid, uid));
        assert(close@ =~= close_window_line(window_tag(pid, uid)));
    }
    TerminalLaunch {
        command: full,
        script_path: path,
        script,
        apple_script: apple,
        result: IconOpResult { success: true, output },
    }
}

} // verus!
