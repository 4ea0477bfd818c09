//! Replacing the icons of a project, as a protocol between the decisions made here and
//! the file system and processes that the caller drives.
//!
//! The caller starts an [`IconReplacement`], performs each [`ReplaceAction`] it is
//! handed and reports the outcome as a [`ReplaceEvent`], until the action is
//! [`ReplaceAction::Finish`].

use vstd::prelude::*;
use crate::full_bleed::PrepResult;
use crate::paths::{joined, path_join};
use crate::shell::{combined_output, combine_output, escape_single_quotes, quote_escaped, IconOpResult};
use crate::text::{append, owned};

verus! {

/// Where an icon replacement stands.
#[derive(Clone, Copy, PartialEq, Eq, Debug, Structural)]
pub enum Phase {
    /// Waiting to hear whether the project's Tauri directory exists.
    CheckingTauriDir,
    /// Waiting to hear whether the source icon exists.
    CheckingIcon,
    /// Waiting for full-bleed preparation of the source icon.
    Preparing,
    /// Waiting to hear whether the project has its own Tauri CLI.
    CheckingLocalCli,
    /// Waiting for the Tauri CLI to generate the icons.
    RunningCli,
    /// Waiting for the macOS look to be baked into `icon.icns`.
    Baking,
    /// Waiting for the temporary prepared icon to be removed.
    RemovingTemp,
    /// Finished.
    Done,
}

/// What the caller is asked to do next.
pub enum ReplaceAction {
    /// Tell whether this path exists.
    CheckExists(String),
    /// Run full-bleed preparation on this source icon.
    PrepareIcon(String),
    /// Run this command line in `cwd` through the login shell with Node.js on `PATH`.
    RunShell { command: String, cwd: String },
    /// Bake the macOS look of the prepared icon `icon` into the `icons` of `tauri_dir`.
    BakeIcns { icon: String, tauri_dir: String },
    /// Remove this file.
    RemoveFile(String),
    /// The replacement is over, with this result.
    Finish(Result<IconOpResult, String>),
}

/// What the caller reports back.
pub enum ReplaceEvent {
    Exists(bool),
    Prepared(Result<PrepResult, String>),
    ShellDone { success: bool, stdout: String, stderr: String },
    /// The shell could not be started.
    ShellFailed(String),
    Baked(Result<(), String>),
    Removed,
}

/// The state of an icon replacement.
pub struct IconReplacement {
    pub project_path: String,
    pub tauri_dir: String,
    pub icon_path: String,
    /// Whether the source is made full-bleed (and, on macOS, the look baked).
    pub full_bleed: bool,
    pub on_macos: bool,
    pub phase: Phase,
    /// What preparation and baking did, for the report.
    pub prep_note: String,
    /// The icon the Tauri CLI is given.
    pub effective_icon: String,
    /// The temporary prepared icon, to remove at the end.
    pub temp_icon: Option<String>,
    /// Whether the Tauri CLI succeeded.
    pub success: bool,
    /// What the Tauri CLI printed.
    pub output: String,
    /// Why the replacement failed, when the shell could not be started; reported once the
    /// temporary icon is removed.
    pub failure: Option<String>,
}

/// How far a replacement has come; every step moves it further, so a replacement
/// finishes after at most seven steps.
pub open spec fn phase_rank(p: Phase) -> int {
    match p {
        Phase::CheckingTauriDir => 0,
        Phase::CheckingIcon => 1,
        Phase::Preparing => 2,
        Phase::CheckingLocalCli => 3,
        Phase::RunningCli => 4,
        Phase::Baking => 5,
        Phase::RemovingTemp => 6,
        Phase::Done => 7,
    }
}

/// No temporary icon exists before preparation, and nothing has failed before the CLI
/// has run.
pub open spec fn consistent(s: IconReplacement) -> bool {
    &&& (s.phase == Phase::CheckingTauriDir || s.phase == Phase::CheckingIcon || s.phase == Phase::Preparing)
        ==> s.temp_icon is None
    &&& phase_rank(s.phase) <= 5 ==> s.failure is None
}

/// The event is the kind of answer the phase waits for.
pub open spec fn answers(phase: Phase, event: ReplaceEvent) -> bool {
    match phase {
        Phase::CheckingTauriDir | Phase::CheckingIcon | Phase::CheckingLocalCli => event is Exists,
        Phase::Preparing => event is Prepared,
        Phase::RunningCli => event is ShellDone || event is ShellFailed,
        Phase::Baking => event is Baked,
        Phase::RemovingTemp => event is Removed,
        Phase::Done => false,
    }
}

/// The project's own Tauri CLI.
pub open spec fn local_cli_of(project_path: Seq<char>) -> Seq<char> {
    joined(project_path, "node_modules/.bin/tauri"@)
}

/// The command that generates the icons from `icon`: the project's own Tauri CLI when it
/// has one, else the latest CLI through `npx`; the path is single-quoted.
pub open spec fn icon_command(icon: Seq<char>, local_cli: bool) -> Seq<char> {
    if local_cli {
        "node_modules/.bin/tauri icon '"@ + quote_escaped(icon) + "'"@
    } else {
        "npx --yes @tauri-apps/cli@latest icon '"@ + quote_escaped(icon) + "'"@
    }
}

/// The note for a preparation that failed, after which the original icon is used.
pub open spec fn prep_failed_note(e: Seq<char>) -> Seq<char> {
    "满幅预处理跳过（"@ + e + "），使用原图"@
}

/// The final report: the CLI's output, preceded by a `[fullbleed]` line with the note
/// when there is one.
pub open spec fn final_output(note: Seq<char>, output: Seq<char>) -> Seq<char> {
    if note.len() == 0 {
        output
    } else {
        "[fullbleed] "@ + note + "\n"@ + output
    }
}

/// What finishing reports from the state `s`.
pub open spec fn finish_result(s: IconReplacement, r: IconOpResult) -> bool {
    r.success == s.success && r.output@ == final_output(s.prep_note@, s.output@)
}

/// `action` finishes the replacement in the state `s`: with the failure, if there was
/// one, else with the report of [`finish_result`].
pub open spec fn is_finish(s: IconReplacement, action: ReplaceAction) -> bool {
    match s.failure {
        Some(m) => action matches ReplaceAction::Finish(Err(e)) && e@ == m@,
        None => action matches ReplaceAction::Finish(Ok(r)) && finish_result(s, r),
    }
}

/// The action and state after the CLI (and baking) are done, or after the shell could not
/// be started: the temporary icon is removed first, if there is one, then the
/// replacement finishes.
pub open spec fn is_cleanup(s: IconReplacement, action: ReplaceAction) -> bool {
    match s.temp_icon {
        Some(t) => {
            &&& s.phase == Phase::RemovingTemp
            &&& action matches ReplaceAction::RemoveFile(p)
            &&& p@ == t@
        },
        None => {
            &&& s.phase == Phase::Done
            &&& is_finish(s, action)
        },
    }
}

/// The fields fixed at the start stay as they are.
pub open spec fn same_request(a: IconReplacement, b: IconReplacement) -> bool {
    &&& a.project_path@ == b.project_path@
    &&& a.tauri_dir@ == b.tauri_dir@
    &&& a.icon_path@ == b.icon_path@
    &&& a.full_bleed == b.full_bleed
    &&& a.on_macos == b.on_macos
}

impl IconReplacement {
    /// Starts replacing the icons of the project at `project_path`, whose Tauri directory
    /// is `tauri_dir`, with `icon_path`; `full_bleed` defaults to on. The first question is
    /// whether the Tauri directory exists.
    pub fn start(
        project_path: &str,
        tauri_dir: &str,
        icon_path: &str,
        full_bleed: Option<bool>,
        on_macos: bool,
    ) -> (res: (IconReplacement, ReplaceAction))
        ensures
            res.0.project_path@ == project_path@,
            res.0.tauri_dir@ == tauri_dir@,
            res.0.icon_path@ == icon_path@,
            res.0.full_bleed == match full_bleed {
                Some(b) => b,
                None => true,
            },
            res.0.on_macos == on_macos,
            res.0.phase == Phase::CheckingTauriDir,
            res.0.temp_icon is None,
            consistent(res.0),
            res.1 matches ReplaceAction::CheckExists(p) && p@ == tauri_dir@,
    {
        let fb = match full_bleed {
            Some(b) => b,
            None => true,
        };
        let s = IconReplacement {
            project_path: owned(project_path),
            tauri_dir: owned(tauri_dir),
            icon_path: owned(icon_path),
            full_bleed: fb,
            on_macos,
            phase: Phase::CheckingTauriDir,
            prep_note: String::new(),
            effective_icon: owned(icon_path),
            temp_icon: None,
            success: false,
            output: String::new(),
            failure: None,
        };
        (s, ReplaceAction::CheckExists(owned(tauri_dir)))
    }

    fn cleanup(&mut self) -> (action: ReplaceAction)
        ensures
            same_request(*old(self), *final(self)),
            final(self).prep_note@ == old(self).prep_note@,
            final(self).effective_icon@ == old(self).effective_icon@,
            final(self).temp_icon == old(self).temp_icon,
            final(self).success == old(self).success,
            final(self).output@ == old(self).output@,
            final(self).failure == old(self).failure,
            is_cleanup(*final(self), action),
    {
        match &self.temp_icon {
            Some(t) => {
                let path = owned(t.as_str());
                self.phase = Phase::RemovingTemp;
                ReplaceAction::RemoveFile(path)
            },
            None => {
                self.phase = Phase::Done;
                self.finish()
            },
        }
    }

    fn finish(&self) -> (action: ReplaceAction)
        ensures
            is_finish(*self, action),
    {
        match &self.failure {
            Some(m) => ReplaceAction::Finish(Err(owned(m.as_str()))),
            None => ReplaceAction::Finish(Ok(self.report())),
        }
    }

    fn report(&self) -> (r: IconOpResult)
        ensures
            finish_result(*self, r),
    {
        let output = if self.prep_note.as_str().is_empty() {
            owned(self.output.as_str())
        } else {
            let mut o = owned("[fullbleed] ");
            append(&mut o, self.prep_note.as_str());
            append(&mut o, "\n");
            append(&mut o, self.output.as_str());
            o
        };
        IconOpResult { success: self.success, output }
    }

    fn after_preparation(&mut self) -> (action: ReplaceAction)
        ensures
            same_request(*old(self), *final(self)),
            final(self).prep_note@ == old(self).prep_note@,
            final(self).effective_icon@ == old(self).effective_icon@,
            final(self).temp_icon == old(self).temp_icon,
            final(self).phase == Phase::CheckingLocalCli,
            final(self).failure == old(self).failure,
            action matches ReplaceAction::CheckExists(p) && p@ == local_cli_of(old(self).project_path@),
    {
        self.phase = Phase::CheckingLocalCli;
        ReplaceAction::CheckExists(path_join(self.project_path.as_str(), "node_modules/.bin/tauri"))
    }

    /// Takes the caller's answer to the last action and decides the next one.
    ///
    /// - A missing Tauri directory or source icon finishes with a failed report.
    /// - With full-bleed on, the source is prepared; a failed preparation is noted and the
    ///   source used as it is.
    /// - The icons are generated by [`icon_command`]; a shell that cannot be started
    ///   finishes with an error, once the temporary prepared icon is removed.
    /// - After a successful run with full-bleed on, on macOS, the look is baked into
    ///   `icon.icns`; its outcome is noted.
    /// - A temporary prepared icon is removed, then the replacement finishes with the
    ///   CLI's success and output, and the note (see [`final_output`]).
    pub fn step(&mut self, event: ReplaceEvent) -> (action: ReplaceAction)
        requires
            answers(old(self).phase, event),
            consistent(*old(self)),
        ensures
            consistent(*final(self)),
            same_request(*old(self), *final(self)),
            phase_rank(final(self).phase) > phase_rank(old(self).phase),
            action is Finish ==> final(self).phase == Phase::Done,
            action is Finish ==> final(self).temp_icon is None,
            old(self).phase == Phase::CheckingTauriDir ==> match event {
                ReplaceEvent::Exists(false) => {
                    &&& final(self).phase == Phase::Done
                    &&& action matches ReplaceAction::Finish(Ok(r))
                    &&& !r.success
                    &&& r.output@ == "项目目录不存在: "@ + old(self).project_path@
                },
                _ => {
                    &&& final(self).phase == Phase::CheckingIcon
                    &&& final(self).temp_icon == old(self).temp_icon
                    &&& action matches ReplaceAction::CheckExists(p)
                    &&& p@ == old(self).icon_path@
                },
            },
            old(self).phase == Phase::CheckingIcon ==> match event {
                ReplaceEvent::Exists(false) => {
                    &&& final(self).phase == Phase::Done
                    &&& action matches ReplaceAction::Finish(Ok(r))
                    &&& !r.success
                    &&& r.output@ == "图标文件不存在: "@ + old(self).icon_path@
                },
                _ => if old(self).full_bleed {
                    &&& final(self).phase == Phase::Preparing
                    &&& final(self).temp_icon == old(self).temp_icon
                    &&& action matches ReplaceAction::PrepareIcon(p)
                    &&& p@ == old(self).icon_path@
                } else {
                    &&& final(self).phase == Phase::CheckingLocalCli
                    &&& final(self).prep_note@ == Seq::<char>::empty()
                    &&& final(self).effective_icon@ == old(self).icon_path@
                    &&& final(self).temp_icon is None
                    &&& action matches ReplaceAction::CheckExists(p)
                    &&& p@ == local_cli_of(old(self).project_path@)
                },
            },
            old(self).phase == Phase::Preparing ==> {
                &&& final(self).phase == Phase::CheckingLocalCli
                &&& (action matches ReplaceAction::CheckExists(p) && p@ == local_cli_of(old(self).project_path@))
                &&& match event {
                    ReplaceEvent::Prepared(Ok(prep)) => {
                        &&& final(self).prep_note@ == prep.note@
                        &&& final(self).effective_icon@ == prep.path@
                        &&& if prep.is_temp {
                            final(self).temp_icon matches Some(t) && t@ == prep.path@
                        } else {
                            final(self).temp_icon is None
                        }
                    },
                    ReplaceEvent::Prepared(Err(e)) => {
                        &&& final(self).prep_note@ == prep_failed_note(e@)
                        &&& final(self).effective_icon@ == old(self).icon_path@
                        &&& final(self).temp_icon is None
                    },
                    _ => false,
                }
            },
            old(self).phase == Phase::CheckingLocalCli ==> match event {
                ReplaceEvent::Exists(local) => {
                    &&& final(self).phase == Phase::RunningCli
                    &&& final(self).temp_icon == old(self).temp_icon
                    &&& final(self).prep_note@ == old(self).prep_note@
                    &&& final(self).effective_icon@ == old(self).effective_icon@
                    &&& action matches ReplaceAction::RunShell { command, cwd }
                    &&& command@ == icon_command(old(self).effective_icon@, local)
                    &&& cwd@ == old(self).project_path@
                },
                _ => false,
            },
            old(self).phase == Phase::RunningCli ==> match event {
                ReplaceEvent::ShellFailed(e) => {
                    &&& final(self).failure matches Some(m) && m@ == "执行命令失败: "@ + e@
                    &&& final(self).temp_icon == old(self).temp_icon
                    &&& is_cleanup(*final(self), action)
                },
                ReplaceEvent::ShellDone { success, stdout, stderr } => {
                    &&& final(self).failure is None
                    &&& final(self).success == success
                    &&& final(self).output@ == combined_output(stdout@, stderr@, "命令执行完成"@)
                    &&& final(self).prep_note@ == old(self).prep_note@
                    &&& final(self).temp_icon == old(self).temp_icon
                    &&& if old(self).on_macos && success && old(self).full_bleed {
                        &&& final(self).phase == Phase::Baking
                        &&& action matches ReplaceAction::BakeIcns { icon, tauri_dir }
                        &&& icon@ == old(self).effective_icon@
                        &&& tauri_dir@ == old(self).tauri_dir@
                    } else {
                        is_cleanup(*final(self), action)
                    }
                },
                _ => false,
            },
            old(self).phase == Phase::Baking ==> match event {
                ReplaceEvent::Baked(outcome) => {
                    &&& final(self).prep_note@ == old(self).prep_note@ + match outcome {
                        Ok(_) => "；已烘焙 macOS 圆角外观"@,
                        Err(e) => "；macOS 外观烘焙失败（"@ + e@ + "）"@,
                    }
                    &&& final(self).success == old(self).success
                    &&& final(self).output@ == old(self).output@
                    &&& final(self).failure is None
                    &&& final(self).temp_icon == old(self).temp_icon
                    &&& is_cleanup(*final(self), action)
                },
                _ => false,
            },
            old(self).phase == Phase::RemovingTemp ==> {
                &&& final(self).phase == Phase::Done
                &&& final(self).temp_icon is None
                &&& final(self).failure == old(self).failure
                &&& final(self).success == old(self).success
                &&& final(self).prep_note@ == old(self).prep_note@
                &&& final(self).output@ == old(self).output@
                &&& is_finish(*final(self), action)
            },
    {
        match self.phase {
            Phase::CheckingTauriDir => {
                match event {
                    ReplaceEvent::Exists(false) => {
                        self.phase = Phase::Done;
                        let mut output = owned("项目目录不存在: ");
                        append(&mut output, self.project_path.as_str());
                        ReplaceAction::Finish(Ok(IconOpResult { success: false, output }))
                    },
                    _ => {
                        self.phase = Phase::CheckingIcon;
                        ReplaceAction::CheckExists(owned(self.icon_path.as_str()))
                    },
                }
            },
            Phase::CheckingIcon => {
                match event {
                    ReplaceEvent::Exists(false) => {
                        self.phase = Phase::Done;
                        let mut output = owned("图标文件不存在: ");
                        append(&mut output, self.icon_path.as_str());
                        ReplaceAction::Finish(Ok(IconOpResult { success: false, output }))
                    },
                    _ => {
                        if self.full_bleed {
                            self.phase = Phase::Preparing;
                            ReplaceAction::PrepareIcon(owned(self.icon_path.as_str()))
                        } else {
                            self.prep_note = String::new();
                            self.effective_icon = owned(self.icon_path.as_str());
                            self.temp_icon = None;
                            self.after_preparation()
                        }
                    },
                }
            },
            Phase::Preparing => {
                match event {
                    ReplaceEvent::Prepared(Ok(prep)) => {
                        self.temp_icon = if prep.is_temp {
                            Some(owned(prep.path.as_str()))
                        } else {
                            None
                        };
                        self.prep_note = prep.note;
                        self.effective_icon = prep.path;
                    },
                    ReplaceEvent::Prepared(Err(e)) => {
                        let mut note = owned("满幅预处理跳过（");
                        append(&mut note, e.as_str());
                        append(&mut note, "），使用原图");
                        self.prep_note = note;
                        self.effective_icon = owned(self.icon_path.as_str());
                        self.temp_icon = None;
                    },
                    _ => {},
                }
                self.after_preparation()
            },
            Phase::CheckingLocalCli => {
                let local = match event {
                    ReplaceEvent::Exists(b) => b,
                    _ => false,
                };
                let quoted = escape_single_quotes(self.effective_icon.as_str());
                let mut command = if local {
                    owned("node_modules/.bin/tauri icon '")
                } else {
                    owned("npx --yes @tauri-apps/cli@latest icon '")
                };
                append(&mut command, quoted.as_str());
                append(&mut command, "'");
                self.phase = Phase::RunningCli;
                ReplaceAction::RunShell { command, cwd: owned(self.project_path.as_str()) }
            },
            Phase::RunningCli => {
                match event {
                    ReplaceEvent::ShellFailed(e) => {
                        let mut m = owned("执行命令失败: ");
                        append(&mut m, e.as_str());
                        self.failure = Some(m);
                        self.cleanup()
                    },
                    ReplaceEvent::ShellDone { success, stdout, stderr } => {
                        self.success = success;
                        self.output = combine_output(stdout.as_str(), stderr.as_str(), "命令执行完成");
                        if self.on_macos && success && self.full_bleed {
                            self.phase = Phase::Baking;
                            ReplaceAction::BakeIcns {
                                icon: owned(self.effective_icon.as_str()),
                                tauri_dir: owned(self.tauri_dir.as_str()),
                            }
                        } else {
                            self.cleanup()
                        }
                    },
                    _ => {
                        self.phase = Phase::Done;
                        ReplaceAction::Finish(Err(String::new()))
                    },
                }
            },
            Phase::Baking => {
                match event {
                    ReplaceEvent::Baked(Ok(())) => {
                        append(&mut self.prep_note, "；已烘焙 macOS 圆角外观");
                    },
                    ReplaceEvent::Baked(Err(e)) => {
                        append(&mut self.prep_note, "；macOS 外观烘焙失败（");
                        append(&mut self.prep_note, e.as_str());
                        append(&mut self.prep_note, "）");
                    },
                    _ => {},
                }
                self.cleanup()
            },
            Phase::RemovingTemp => {
                self.temp_icon = None;
                self.phase = Phase::Done;
                self.finish()
            },
            Phase::Done => {
                ReplaceAction::Finish(Err(String::new()))
            },
        }
    }
}

} // verus!
