//! The typed request tree: every administrative invocation decodes to
//! exactly one of these variants before any side effect, organized as the
//! (group, action) hierarchy of the command surface.

use vstd::prelude::*;

verus! {

pub enum ConfigCmd {
    Get { key: String },
    SetVal { key: String, value: Option<String>, stdin: bool, temp: bool },
    List,
    Delete { key: String, temp: bool },
    Clear { temp: bool },
}

pub enum ModuleCmd {
    Install { zip: String },
    UndoUninstall { id: String },
    Uninstall { id: String },
    Enable { id: String },
    Disable { id: String },
    Action { id: String },
    List,
    Config(ConfigCmd),
}

pub enum UmountConfigCmd {
    Add { mnt: String, flags: u32 },
    Del { mnt: String },
    Clear,
    List,
}

pub enum UmountCmd {
    Add { mnt: String, flags: u32 },
    Del { mnt: String },
    Wipe,
    List,
}

pub enum DynamicManagerCmd {
    Get,
    SetRaw { size: u32, hash: String },
    SetFromApp { apk: String },
    Clear,
}

pub enum KernelCmd {
    NukeExt4Sysfs { mnt: String },
    Umount(UmountCmd),
    DynamicManager(DynamicManagerCmd),
    NotifyModuleMounted,
}

pub enum SepolicyCmd {
    Patch { statement: String },
    Apply { file: String },
    Check { statement: String },
}

pub enum ProfileCmd {
    GetSepolicy { package: String },
    SetSepolicy { package: String, policy: String },
    GetTemplate { id: String },
    SetTemplate { id: String, template: String },
    DeleteTemplate { id: String },
    ListTemplates,
}

pub enum FeatureCmd {
    Get { id: String },
    SetVal { id: String, value: u64 },
    List,
    Check { id: String },
    Load,
    Save,
}

pub enum BootInfoCmd {
    CurrentKmi,
    SupportedKmis,
    IsAbDevice,
    DefaultPartition,
    SlotSuffix { ota: bool },
    AvailablePartitions,
}

pub enum MarkCmd {
    Get { pid: i32 },
    Mark { pid: i32 },
    Unmark { pid: i32 },
    Refresh,
}

pub enum DebugCmd {
    SetManager { apk: Option<String> },
    GetSign { apk: String },
    Su { global_mnt: bool },
    Version,
    Test,
    Mark(MarkCmd),
}

/// Requests to the loadable-kernel-module subsystem, a narrow external
/// interface the router only hands through.
pub enum Kpm {
    Load { path: String, args: Option<String> },
    Unload { name: String },
    Num,
    List,
    Info { name: String },
    Control { name: String, args: String },
    Version,
}

/// The boot-time lifecycle events whose triggering the router owns; what
/// each trigger runs is a collaborator's business.
pub enum InitEvent {
    PostFsData,
    Services,
    BootCompleted,
}

pub enum Command {
    Module(ModuleCmd),
    Init(InitEvent),
    UmountConfig(UmountConfigCmd),
    Kernel(KernelCmd),
    Sepolicy(SepolicyCmd),
    Profile(ProfileCmd),
    Feature(FeatureCmd),
    BootInfo(BootInfoCmd),
    Debug(DebugCmd),
    Kpm(Kpm),
}

/// A usage error: detected before any side effect, naming the offending
/// input token.
pub enum ParseError {
    /// No command was given at all.
    Empty,
    /// A group or action token that names nothing.
    UnknownToken(String),
    /// The named action lacks a required argument.
    MissingArgument(String),
    /// A trailing token the action does not take.
    UnexpectedArgument(String),
    /// A token that should have been a number but is not.
    InvalidNumber(String),
}

} // verus!
