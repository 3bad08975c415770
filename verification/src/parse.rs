//! The command-line grammar: an argument vector decodes to exactly one
//! typed request, or to a usage error naming the offending token, before
//! any side effect.  `spec_parse` is the grammar itself; `parse` realizes
//! it.

use vstd::prelude::*;
use crate::digits::{parse_i32, parse_u32, parse_u64, spec_dec_i32, spec_dec_u32, spec_dec_u64};
use crate::request::{
    BootInfoCmd, Command, ConfigCmd, DebugCmd, DynamicManagerCmd, FeatureCmd, InitEvent, KernelCmd,
    Kpm, MarkCmd, ModuleCmd, ParseError, ProfileCmd, SepolicyCmd, UmountCmd, UmountConfigCmd,
};

verus! {

/// Whether an argument string equals a keyword of the grammar.
fn word_eq(s: &String, w: &str) -> (r: bool)
    ensures
        r == (s@ == w@),
{
    let ws: String = w.to_owned();
    s.eq(&ws)
}

// ---- shared argument shapes, spec and exec ----------------------------

/// An action at `a` taking no argument.
pub open spec fn spec_no_arg(args: Seq<String>, a: int) -> Result<(), ParseError> {
    if args.len() > a + 1 {
        Err(ParseError::UnexpectedArgument(args[a + 1]))
    } else {
        Ok(())
    }
}

fn no_arg(args: &Vec<String>, a: usize) -> (r: Result<(), ParseError>)
    requires
        a < args@.len(),
        a + 4 <= usize::MAX,
    ensures
        r == spec_no_arg(args@, a as int),
{
    if args.len() > a + 1 {
        Err(ParseError::UnexpectedArgument(args[a + 1].clone()))
    } else {
        Ok(())
    }
}

/// An action at `a` taking exactly one positional argument.
pub open spec fn spec_one_arg(args: Seq<String>, a: int) -> Result<String, ParseError> {
    if args.len() < a + 2 {
        Err(ParseError::MissingArgument(args[a]))
    } else if args.len() > a + 2 {
        Err(ParseError::UnexpectedArgument(args[a + 2]))
    } else {
        Ok(args[a + 1])
    }
}

fn one_arg(args: &Vec<String>, a: usize) -> (r: Result<String, ParseError>)
    requires
        a < args@.len(),
        a + 4 <= usize::MAX,
    ensures
        r == spec_one_arg(args@, a as int),
{
    if args.len() < a + 2 {
        Err(ParseError::MissingArgument(args[a].clone()))
    } else if args.len() > a + 2 {
        Err(ParseError::UnexpectedArgument(args[a + 2].clone()))
    } else {
        Ok(args[a + 1].clone())
    }
}

/// An action at `a` taking exactly two positional arguments.
pub open spec fn spec_two_args(args: Seq<String>, a: int) -> Result<(String, String), ParseError> {
    if args.len() < a + 3 {
        Err(ParseError::MissingArgument(args[a]))
    } else if args.len() > a + 3 {
        Err(ParseError::UnexpectedArgument(args[a + 3]))
    } else {
        Ok((args[a + 1], args[a + 2]))
    }
}

fn two_args(args: &Vec<String>, a: usize) -> (r: Result<(String, String), ParseError>)
    requires
        a < args@.len(),
        a + 4 <= usize::MAX,
    ensures
        r == spec_two_args(args@, a as int),
{
    if args.len() < a + 3 {
        Err(ParseError::MissingArgument(args[a].clone()))
    } else if args.len() > a + 3 {
        Err(ParseError::UnexpectedArgument(args[a + 3].clone()))
    } else {
        Ok((args[a + 1].clone(), args[a + 2].clone()))
    }
}

/// A mount point at `a + 1`, then optionally `--flags`/`-f` and a number
/// (flags default to 0, the plain detach).
pub open spec fn spec_mnt_flags(args: Seq<String>, a: int) -> Result<(String, u32), ParseError> {
    if args.len() < a + 2 {
        Err(ParseError::MissingArgument(args[a]))
    } else if args.len() == a + 2 {
        Ok((args[a + 1], 0))
    } else if args[a + 2]@ == "--flags"@ || args[a + 2]@ == "-f"@ {
        if args.len() < a + 4 {
            Err(ParseError::MissingArgument(args[a + 2]))
        } else if args.len() > a + 4 {
            Err(ParseError::UnexpectedArgument(args[a + 4]))
        } else {
            match spec_dec_u32(args[a + 3]@) {
                Some(f) => Ok((args[a + 1], f)),
                None => Err(ParseError::InvalidNumber(args[a + 3])),
            }
        }
    } else {
        Err(ParseError::UnexpectedArgument(args[a + 2]))
    }
}

fn mnt_flags(args: &Vec<String>, a: usize) -> (r: Result<(String, u32), ParseError>)
    requires
        a < args@.len(),
        a + 4 <= usize::MAX,
    ensures
        r == spec_mnt_flags(args@, a as int),
{
    if args.len() < a + 2 {
        Err(ParseError::MissingArgument(args[a].clone()))
    } else if args.len() == a + 2 {
        Ok((args[a + 1].clone(), 0))
    } else if word_eq(&args[a + 2], "--flags") || word_eq(&args[a + 2], "-f") {
        if args.len() < a + 4 {
            Err(ParseError::MissingArgument(args[a + 2].clone()))
        } else if args.len() > a + 4 {
            Err(ParseError::UnexpectedArgument(args[a + 4].clone()))
        } else {
            match parse_u32(&args[a + 3]) {
                Some(f) => Ok((args[a + 1].clone(), f)),
                None => Err(ParseError::InvalidNumber(args[a + 3].clone())),
            }
        }
    } else {
        Err(ParseError::UnexpectedArgument(args[a + 2].clone()))
    }
}

/// An optional boolean switch after position `b` (exclusive), written long
/// or short.
pub open spec fn spec_opt_switch(
    args: Seq<String>,
    b: int,
    long: Seq<char>,
    short: Seq<char>,
) -> Result<bool, ParseError> {
    if args.len() == b {
        Ok(false)
    } else if args.len() == b + 1 {
        if args[b]@ == long || args[b]@ == short {
            Ok(true)
        } else {
            Err(ParseError::UnexpectedArgument(args[b]))
        }
    } else {
        Err(ParseError::UnexpectedArgument(args[b + 1]))
    }
}

fn opt_switch(args: &Vec<String>, b: usize, long: &str, short: &str) -> (r: Result<
    bool,
    ParseError,
>)
    requires
        b <= args@.len(),
        b + 4 <= usize::MAX,
    ensures
        r == spec_opt_switch(args@, b as int, long@, short@),
{
    if args.len() == b {
        Ok(false)
    } else if args.len() == b + 1 {
        if word_eq(&args[b], long) || word_eq(&args[b], short) {
            Ok(true)
        } else {
            Err(ParseError::UnexpectedArgument(args[b].clone()))
        }
    } else {
        Err(ParseError::UnexpectedArgument(args[b + 1].clone()))
    }
}

/// An optional pid after position `b` (exclusive); pid 0, the wildcard, is
/// the default.
pub open spec fn spec_opt_pid(args: Seq<String>, b: int) -> Result<i32, ParseError> {
    if args.len() == b {
        Ok(0)
    } else if args.len() == b + 1 {
        match spec_dec_i32(args[b]@) {
            Some(p) => Ok(p),
            None => Err(ParseError::InvalidNumber(args[b])),
        }
    } else {
        Err(ParseError::UnexpectedArgument(args[b + 1]))
    }
}

fn opt_pid(args: &Vec<String>, b: usize) -> (r: Result<i32, ParseError>)
    requires
        b <= args@.len(),
        b + 4 <= usize::MAX,
    ensures
        r == spec_opt_pid(args@, b as int),
{
    if args.len() == b {
        Ok(0)
    } else if args.len() == b + 1 {
        match parse_i32(&args[b]) {
            Some(p) => Ok(p),
            None => Err(ParseError::InvalidNumber(args[b].clone())),
        }
    } else {
        Err(ParseError::UnexpectedArgument(args[b + 1].clone()))
    }
}

/// The tail of `config set`: an optional positional value and the switches
/// `--stdin` and `--temp`/`-t`, in any order.
pub open spec fn spec_cfg_set_rest(
    args: Seq<String>,
    i: int,
    value: Option<String>,
    stdin: bool,
    temp: bool,
) -> Result<(Option<String>, bool, bool), ParseError>
    decreases args.len() - i,
{
    if i >= args.len() {
        Ok((value, stdin, temp))
    } else if args[i]@ == "--stdin"@ {
        spec_cfg_set_rest(args, i + 1, value, true, temp)
    } else if args[i]@ == "--temp"@ || args[i]@ == "-t"@ {
        spec_cfg_set_rest(args, i + 1, value, stdin, true)
    } else if value is None {
        spec_cfg_set_rest(args, i + 1, Some(args[i]), stdin, temp)
    } else {
        Err(ParseError::UnexpectedArgument(args[i]))
    }
}

fn cfg_set_rest(args: &Vec<String>, i: usize, value: Option<String>, stdin: bool, temp: bool) -> (r:
    Result<(Option<String>, bool, bool), ParseError>)
    ensures
        r == spec_cfg_set_rest(args@, i as int, value, stdin, temp),
    decreases args@.len() - i,
{
    if i >= args.len() {
        Ok((value, stdin, temp))
    } else if word_eq(&args[i], "--stdin") {
        cfg_set_rest(args, i + 1, value, true, temp)
    } else if word_eq(&args[i], "--temp") || word_eq(&args[i], "-t") {
        cfg_set_rest(args, i + 1, value, stdin, true)
    } else if value.is_none() {
        cfg_set_rest(args, i + 1, Some(args[i].clone()), stdin, temp)
    } else {
        Err(ParseError::UnexpectedArgument(args[i].clone()))
    }
}

// ---- the groups --------------------------------------------------------

pub open spec fn spec_parse_config(args: Seq<String>) -> Result<Command, ParseError> {
    if args.len() < 3 {
        Err(ParseError::MissingArgument(args[1]))
    } else if args[2]@ == "get"@ {
        match spec_one_arg(args, 2) {
            Ok(key) => Ok(Command::Module(ModuleCmd::Config(ConfigCmd::Get { key }))),
            Err(e) => Err(e),
        }
    } else if args[2]@ == "set"@ {
        if args.len() < 4 {
            Err(ParseError::MissingArgument(args[2]))
        } else {
            match spec_cfg_set_rest(args, 4, None, false, false) {
                Ok(r) => Ok(Command::Module(ModuleCmd::Config(ConfigCmd::SetVal {
                    key: args[3],
                    value: r.0,
                    stdin: r.1,
                    temp: r.2,
                }))),
                Err(e) => Err(e),
            }
        }
    } else if args[2]@ == "list"@ {
        match spec_no_arg(args, 2) {
            Ok(_) => Ok(Command::Module(ModuleCmd::Config(ConfigCmd::List))),
            Err(e) => Err(e),
        }
    } else if args[2]@ == "delete"@ {
        if args.len() < 4 {
            Err(ParseError::MissingArgument(args[2]))
        } else {
            match spec_opt_switch(args, 4, "--temp"@, "-t"@) {
                Ok(temp) => Ok(Command::Module(ModuleCmd::Config(ConfigCmd::Delete {
                    key: args[3],
                    temp,
                }))),
                Err(e) => Err(e),
            }
        }
    } else if args[2]@ == "clear"@ {
        match spec_opt_switch(args, 3, "--temp"@, "-t"@) {
            Ok(temp) => Ok(Command::Module(ModuleCmd::Config(ConfigCmd::Clear { temp }))),
            Err(e) => Err(e),
        }
    } else {
        Err(ParseError::UnknownToken(args[2]))
    }
}

fn parse_config(args: &Vec<String>) -> (r: Result<Command, ParseError>)
    requires
        args@.len() >= 2,
    ensures
        r == spec_parse_config(args@),
{
    if args.len() < 3 {
        Err(ParseError::MissingArgument(args[1].clone()))
    } else if word_eq(&args[2], "get") {
        match one_arg(args, 2) {
            Ok(key) => Ok(Command::Module(ModuleCmd::Config(ConfigCmd::Get { key }))),
            Err(e) => Err(e),
        }
    } else if word_eq(&args[2], "set") {
        if args.len() < 4 {
            Err(ParseError::MissingArgument(args[2].clone()))
        } else {
            match cfg_set_rest(args, 4, None, false, false) {
                Ok(r) => Ok(Command::Module(ModuleCmd::Config(ConfigCmd::SetVal {
                    key: args[3].clone(),
                    value: r.0,
                    stdin: r.1,
                    temp: r.2,
                }))),
                Err(e) => Err(e),
            }
        }
    } else if word_eq(&args[2], "list") {
        match no_arg(args, 2) {
            Ok(_) => Ok(Command::Module(ModuleCmd::Config(ConfigCmd::List))),
            Err(e) => Err(e),
        }
    } else if word_eq(&args[2], "delete") {
        if args.len() < 4 {
            Err(ParseError::MissingArgument(args[2].clone()))
        } else {
            match opt_switch(args, 4, "--temp", "-t") {
                Ok(temp) => Ok(Command::Module(ModuleCmd::Config(ConfigCmd::Delete {
                    key: args[3].clone(),
                    temp,
                }))),
                Err(e) => Err(e),
            }
        }
    } else if word_eq(&args[2], "clear") {
        match opt_switch(args, 3, "--temp", "-t") {
            Ok(temp) => Ok(Command::Module(ModuleCmd::Config(ConfigCmd::Clear { temp }))),
            Err(e) => Err(e),
        }
    } else {
        Err(ParseError::UnknownToken(args[2].clone()))
    }
}

pub open spec fn spec_parse_module(args: Seq<String>) -> Result<Command, ParseError> {
    if args.len() < 2 {
        Err(ParseError::MissingArgument(args[0]))
    } else if args[1]@ == "install"@ {
        match spec_one_arg(args, 1) {
            Ok(zip) => Ok(Command::Module(ModuleCmd::Install { zip })),
            Err(e) => Err(e),
        }
    } else if args[1]@ == "undo-uninstall"@ {
        match spec_one_arg(args, 1) {
            Ok(id) => Ok(Command::Module(ModuleCmd::UndoUninstall { id })),
            Err(e) => Err(e),
        }
    } else if args[1]@ == "uninstall"@ {
        match spec_one_arg(args, 1) {
            Ok(id) => Ok(Command::Module(ModuleCmd::Uninstall { id })),
            Err(e) => Err(e),
        }
    } else if args[1]@ == "enable"@ {
        match spec_one_arg(args, 1) {
            Ok(id) => Ok(Command::Module(ModuleCmd::Enable { id })),
            Err(e) => Err(e),
        }
    } else if args[1]@ == "disable"@ {
        match spec_one_arg(args, 1) {
            Ok(id) => Ok(Command::Module(ModuleCmd::Disable { id })),
            Err(e) => Err(e),
        }
    } else if args[1]@ == "action"@ {
        match spec_one_arg(args, 1) {
            Ok(id) => Ok(Command::Module(ModuleCmd::Action { id })),
            Err(e) => Err(e),
        }
    } else if args[1]@ == "list"@ {
        match spec_no_arg(args, 1) {
            Ok(_) => Ok(Command::Module(ModuleCmd::List)),
            Err(e) => Err(e),
        }
    } else if args[1]@ == "config"@ {
        spec_parse_config(args)
    } else {
        Err(ParseError::UnknownToken(args[1]))
    }
}

fn parse_module(args: &Vec<String>) -> (r: Result<Command, ParseError>)
    requires
        args@.len() >= 1,
    ensures
        r == spec_parse_module(args@),
{
    if args.len() < 2 {
        Err(ParseError::MissingArgument(args[0].clone()))
    } else if word_eq(&args[1], "install") {
        match one_arg(args, 1) {
            Ok(zip) => Ok(Command::Module(ModuleCmd::Install { zip })),
            Err(e) => Err(e),
        }
    } else if word_eq(&args[1], "undo-uninstall") {
        match one_arg(args, 1) {
            Ok(id) => Ok(Command::Module(ModuleCmd::UndoUninstall { id })),
            Err(e) => Err(e),
        }
    } else if word_eq(&args[1], "uninstall") {
        match one_arg(args, 1) {
            Ok(id) => Ok(Command::Module(ModuleCmd::Uninstall { id })),
            Err(e) => Err(e),
        }
    } else if word_eq(&args[1], "enable") {
        match one_arg(args, 1) {
            Ok(id) => Ok(Command::Module(ModuleCmd::Enable { id })),
            Err(e) => Err(e),
        }
    } else if word_eq(&args[1], "disable") {
        match one_arg(args, 1) {
            Ok(id) => Ok(Command::Module(ModuleCmd::Disable { id })),
            Err(e) => Err(e),
        }
    } else if word_eq(&args[1], "action") {
        match one_arg(args, 1) {
            Ok(id) => Ok(Command::Module(ModuleCmd::Action { id })),
            Err(e) => Err(e),
        }
    } else if word_eq(&args[1], "list") {
        match no_arg(args, 1) {
            Ok(_) => Ok(Command::Module(ModuleCmd::List)),
            Err(e) => Err(e),
        }
    } else if word_eq(&args[1], "config") {
        parse_config(args)
    } else {
        Err(ParseError::UnknownToken(args[1].clone()))
    }
}

pub open spec fn spec_parse_umount_config(args: Seq<String>) -> Result<Command, ParseError> {
    if args.len() < 2 {
        Err(ParseError::MissingArgument(args[0]))
    } else if args[1]@ == "add"@ {
        match spec_mnt_flags(args, 1) {
            Ok(r) => Ok(Command::UmountConfig(UmountConfigCmd::Add { mnt: r.0, flags: r.1 })),
            Err(e) => Err(e),
        }
    } else if args[1]@ == "del"@ {
        match spec_one_arg(args, 1) {
            Ok(mnt) => Ok(Command::UmountConfig(UmountConfigCmd::Del { mnt })),
            Err(e) => Err(e),
        }
    } else if args[1]@ == "clear"@ {
        match spec_no_arg(args, 1) {
            Ok(_) => Ok(Command::UmountConfig(UmountConfigCmd::Clear)),
            Err(e) => Err(e),
        }
    } else if args[1]@ == "list"@ {
        match spec_no_arg(args, 1) {
            Ok(_) => Ok(Command::UmountConfig(UmountConfigCmd::List)),
            Err(e) => Err(e),
        }
    } else {
        Err(ParseError::UnknownToken(args[1]))
    }
}

fn parse_umount_config(args: &Vec<String>) -> (r: Result<Command, ParseError>)
    requires
        args@.len() >= 1,
    ensures
        r == spec_parse_umount_config(args@),
{
    if args.len() < 2 {
        Err(ParseError::MissingArgument(args[0].clone()))
    } else if word_eq(&args[1], "add") {
        match mnt_flags(args, 1) {
            Ok(r) => Ok(Command::UmountConfig(UmountConfigCmd::Add { mnt: r.0, flags: r.1 })),
            Err(e) => Err(e),
        }
    } else if word_eq(&args[1], "del") {
        match one_arg(args, 1) {
            Ok(mnt) => Ok(Command::UmountConfig(UmountConfigCmd::Del { mnt })),
            Err(e) => Err(e),
        }
    } else if word_eq(&args[1], "clear") {
        match no_arg(args, 1) {
            Ok(_) => Ok(Command::UmountConfig(UmountConfigCmd::Clear)),
            Err(e) => Err(e),
        }
    } else if word_eq(&args[1], "list") {
        match no_arg(args, 1) {
            Ok(_) => Ok(Command::UmountConfig(UmountConfigCmd::List)),
            Err(e) => Err(e),
        }
    } else {
        Err(ParseError::UnknownToken(args[1].clone()))
    }
}

pub open spec fn spec_parse_dynamic_manager(args: Seq<String>) -> Result<Command, ParseError> {
    if args.len() < 3 {
        Err(ParseError::MissingArgument(args[1]))
    } else if args[2]@ == "get"@ {
        match spec_no_arg(args, 2) {
            Ok(_) => Ok(Command::Kernel(KernelCmd::DynamicManager(DynamicManagerCmd::Get))),
            Err(e) => Err(e),
        }
    } else if args[2]@ == "set"@ {
        match spec_two_args(args, 2) {
            Ok(p) => match spec_dec_u32(p.0@) {
                Some(size) => Ok(Command::Kernel(KernelCmd::DynamicManager(
                    DynamicManagerCmd::SetRaw { size, hash: p.1 },
                ))),
                None => Err(ParseError::InvalidNumber(p.0)),
            },
            Err(e) => Err(e),
        }
    } else if args[2]@ == "set-from-app"@ {
        match spec_one_arg(args, 2) {
            Ok(apk) => Ok(Command::Kernel(KernelCmd::DynamicManager(
                DynamicManagerCmd::SetFromApp { apk },
            ))),
            Err(e) => Err(e),
        }
    } else if args[2]@ == "clear"@ {
        match spec_no_arg(args, 2) {
            Ok(_) => Ok(Command::Kernel(KernelCmd::DynamicManager(DynamicManagerCmd::Clear))),
            Err(e) => Err(e),
        }
    } else {
        Err(ParseError::UnknownToken(args[2]))
    }
}

fn parse_dynamic_manager(args: &Vec<String>) -> (r: Result<Command, ParseError>)
    requires
        args@.len() >= 2,
    ensures
        r == spec_parse_dynamic_manager(args@),
{
    if args.len() < 3 {
        Err(ParseError::MissingArgument(args[1].clone()))
    } else if word_eq(&args[2], "get") {
        match no_arg(args, 2) {
            Ok(_) => Ok(Command::Kernel(KernelCmd::DynamicManager(DynamicManagerCmd::Get))),
            Err(e) => Err(e),
        }
    } else if word_eq(&args[2], "set") {
        match two_args(args, 2) {
            Ok(p) => match parse_u32(&p.0) {
                Some(size) => Ok(Command::Kernel(KernelCmd::DynamicManager(
                    DynamicManagerCmd::SetRaw { size, hash: p.1 },
                ))),
                None => Err(ParseError::InvalidNumber(p.0)),
            },
            Err(e) => Err(e),
        }
    } else if word_eq(&args[2], "set-from-app") {
        match one_arg(args, 2) {
            Ok(apk) => Ok(Command::Kernel(KernelCmd::DynamicManager(
                DynamicManagerCmd::SetFromApp { apk },
            ))),
            Err(e) => Err(e),
        }
    } else if word_eq(&args[2], "clear") {
        match no_arg(args, 2) {
            Ok(_) => Ok(Command::Kernel(KernelCmd::DynamicManager(DynamicManagerCmd::Clear))),
            Err(e) => Err(e),
        }
    } else {
        Err(ParseError::UnknownToken(args[2].clone()))
    }
}

pub open spec fn spec_parse_kernel_umount(args: Seq<String>) -> Result<Command, ParseError> {
    if args.len() < 3 {
        Err(ParseError::MissingArgument(args[1]))
    } else if args[2]@ == "add"@ {
        match spec_mnt_flags(args, 2) {
            Ok(r) => Ok(Command::Kernel(KernelCmd::Umount(UmountCmd::Add { mnt: r.0, flags: r.1 }))),
            Err(e) => Err(e),
        }
    } else if args[2]@ == "del"@ {
        match spec_one_arg(args, 2) {
            Ok(mnt) => Ok(Command::Kernel(KernelCmd::Umount(UmountCmd::Del { mnt }))),
            Err(e) => Err(e),
        }
    } else if args[2]@ == "wipe"@ {
        match spec_no_arg(args, 2) {
            Ok(_) => Ok(Command::Kernel(KernelCmd::Umount(UmountCmd::Wipe))),
            Err(e) => Err(e),
        }
    } else if args[2]@ == "list"@ {
        match spec_no_arg(args, 2) {
            Ok(_) => Ok(Command::Kernel(KernelCmd::Umount(UmountCmd::List))),
            Err(e) => Err(e),
        }
    } else {
        Err(ParseError::UnknownToken(args[2]))
    }
}

fn parse_kernel_umount(args: &Vec<String>) -> (r: Result<Command, ParseError>)
    requires
        args@.len() >= 2,
    ensures
        r == spec_parse_kernel_umount(args@),
{
    if args.len() < 3 {
        Err(ParseError::MissingArgument(args[1].clone()))
    } else if word_eq(&args[2], "add") {
        match mnt_flags(args, 2) {
            Ok(r) => Ok(Command::Kernel(KernelCmd::Umount(UmountCmd::Add { mnt: r.0, flags: r.1 }))),
            Err(e) => Err(e),
        }
    } else if word_eq(&args[2], "del") {
        match one_arg(args, 2) {
            Ok(mnt) => Ok(Command::Kernel(KernelCmd::Umount(UmountCmd::Del { mnt }))),
            Err(e) => Err(e),
        }
    } else if word_eq(&args[2], "wipe") {
        match no_arg(args, 2) {
            Ok(_) => Ok(Command::Kernel(KernelCmd::Umount(UmountCmd::Wipe))),
            Err(e) => Err(e),
        }
    } else if word_eq(&args[2], "list") {
        match no_arg(args, 2) {
            Ok(_) => Ok(Command::Kernel(KernelCmd::Umount(UmountCmd::List))),
            Err(e) => Err(e),
        }
    } else {
        Err(ParseError::UnknownToken(args[2].clone()))
    }
}

pub open spec fn spec_parse_kernel(args: Seq<String>) -> Result<Command, ParseError> {
    if args.len() < 2 {
        Err(ParseError::MissingArgument(args[0]))
    } else if args[1]@ == "nuke-ext4-sysfs"@ {
        match spec_one_arg(args, 1) {
            Ok(mnt) => Ok(Command::Kernel(KernelCmd::NukeExt4Sysfs { mnt })),
            Err(e) => Err(e),
        }
    } else if args[1]@ == "umount"@ {
        spec_parse_kernel_umount(args)
    } else if args[1]@ == "dynamic-manager"@ {
        spec_parse_dynamic_manager(args)
    } else if args[1]@ == "notify-module-mounted"@ {
        match spec_no_arg(args, 1) {
            Ok(_) => Ok(Command::Kernel(KernelCmd::NotifyModuleMounted)),
            Err(e) => Err(e),
        }
    } else {
        Err(ParseError::UnknownToken(args[1]))
    }
}

fn parse_kernel(args: &Vec<String>) -> (r: Result<Command, ParseError>)
    requires
        args@.len() >= 1,
    ensures
        r == spec_parse_kernel(args@),
{
    if args.len() < 2 {
        Err(ParseError::MissingArgument(args[0].clone()))
    } else if word_eq(&args[1], "nuke-ext4-sysfs") {
        match one_arg(args, 1) {
            Ok(mnt) => Ok(Command::Kernel(KernelCmd::NukeExt4Sysfs { mnt })),
            Err(e) => Err(e),
        }
    } else if word_eq(&args[1], "umount") {
        parse_kernel_umount(args)
    } else if word_eq(&args[1], "dynamic-manager") {
        parse_dynamic_manager(args)
    } else if word_eq(&args[1], "notify-module-mounted") {
        match no_arg(args, 1) {
            Ok(_) => Ok(Command::Kernel(KernelCmd::NotifyModuleMounted)),
            Err(e) => Err(e),
        }
    } else {
        Err(ParseError::UnknownToken(args[1].clone()))
    }
}

pub open spec fn spec_parse_sepolicy(args: Seq<String>) -> Result<Command, ParseError> {
    if args.len() < 2 {
        Err(ParseError::MissingArgument(args[0]))
    } else if args[1]@ == "patch"@ {
        match spec_one_arg(args, 1) {
            Ok(statement) => Ok(Command::Sepolicy(SepolicyCmd::Patch { statement })),
            Err(e) => Err(e),
        }
    } else if args[1]@ == "apply"@ {
        match spec_one_arg(args, 1) {
            Ok(file) => Ok(Command::Sepolicy(SepolicyCmd::Apply { file })),
            Err(e) => Err(e),
        }
    } else if args[1]@ == "check"@ {
        match spec_one_arg(args, 1) {
            Ok(statement) => Ok(Command::Sepolicy(SepolicyCmd::Check { statement })),
            Err(e) => Err(e),
        }
    } else {
        Err(ParseError::UnknownToken(args[1]))
    }
}

fn parse_sepolicy(args: &Vec<String>) -> (r: Result<Command, ParseError>)
    requires
        args@.len() >= 1,
    ensures
        r == spec_parse_sepolicy(args@),
{
    if args.len() < 2 {
        Err(ParseError::MissingArgument(args[0].clone()))
    } else if word_eq(&args[1], "patch") {
        match one_arg(args, 1) {
            Ok(statement) => Ok(Command::Sepolicy(SepolicyCmd::Patch { statement })),
            Err(e) => Err(e),
        }
    } else if word_eq(&args[1], "apply") {
        match one_arg(args, 1) {
            Ok(file) => Ok(Command::Sepolicy(SepolicyCmd::Apply { file })),
            Err(e) => Err(e),
        }
    } else if word_eq(&args[1], "check") {
        match one_arg(args, 1) {
            Ok(statement) => Ok(Command::Sepolicy(SepolicyCmd::Check { statement })),
            Err(e) => Err(e),
        }
    } else {
        Err(ParseError::UnknownToken(args[1].clone()))
    }
}

pub open spec fn spec_parse_profile(args: Seq<String>) -> Result<Command, ParseError> {
    if args.len() < 2 {
        Err(ParseError::MissingArgument(args[0]))
    } else if args[1]@ == "get-sepolicy"@ {
        match spec_one_arg(args, 1) {
            Ok(package) => Ok(Command::Profile(ProfileCmd::GetSepolicy { package })),
            Err(e) => Err(e),
        }
    } else if args[1]@ == "set-sepolicy"@ {
        match spec_two_args(args, 1) {
            Ok(p) => Ok(Command::Profile(ProfileCmd::SetSepolicy { package: p.0, policy: p.1 })),
            Err(e) => Err(e),
        }
    } else if args[1]@ == "get-template"@ {
        match spec_one_arg(args, 1) {
            Ok(id) => Ok(Command::Profile(ProfileCmd::GetTemplate { id })),
            Err(e) => Err(e),
        }
    } else if args[1]@ == "set-template"@ {
        match spec_two_args(args, 1) {
            Ok(p) => Ok(Command::Profile(ProfileCmd::SetTemplate { id: p.0, template: p.1 })),
            Err(e) => Err(e),
        }
    } else if args[1]@ == "delete-template"@ {
        match spec_one_arg(args, 1) {
            Ok(id) => Ok(Command::Profile(ProfileCmd::DeleteTemplate { id })),
            Err(e) => Err(e),
        }
    } else if args[1]@ == "list-templates"@ {
        match spec_no_arg(args, 1) {
            Ok(_) => Ok(Command::Profile(ProfileCmd::ListTemplates)),
            Err(e) => Err(e),
        }
    } else {
        Err(ParseError::UnknownToken(args[1]))
    }
}

fn parse_profile(args: &Vec<String>) -> (r: Result<Command, ParseError>)
    requires
        args@.len() >= 1,
    ensures
        r == spec_parse_profile(args@),
{
    if args.len() < 2 {
        Err(ParseError::MissingArgument(args[0].clone()))
    } else if word_eq(&args[1], "get-sepolicy") {
        match one_arg(args, 1) {
            Ok(package) => Ok(Command::Profile(ProfileCmd::GetSepolicy { package })),
            Err(e) => Err(e),
        }
    } else if word_eq(&args[1], "set-sepolicy") {
        match two_args(args, 1) {
            Ok(p) => Ok(Command::Profile(ProfileCmd::SetSepolicy { package: p.0, policy: p.1 })),
            Err(e) => Err(e),
        }
    } else if word_eq(&args[1], "get-template") {
        match one_arg(args, 1) {
            Ok(id) => Ok(Command::Profile(ProfileCmd::GetTemplate { id })),
            Err(e) => Err(e),
        }
    } else if word_eq(&args[1], "set-template") {
        match two_args(args, 1) {
            Ok(p) => Ok(Command::Profile(ProfileCmd::SetTemplate { id: p.0, template: p.1 })),
            Err(e) => Err(e),
        }
    } else if word_eq(&args[1], "delete-template") {
        match one_arg(args, 1) {
            Ok(id) => Ok(Command::Profile(ProfileCmd::DeleteTemplate { id })),
            Err(e) => Err(e),
        }
    } else if word_eq(&args[1], "list-templates") {
        match no_arg(args, 1) {
            Ok(_) => Ok(Command::Profile(ProfileCmd::ListTemplates)),
            Err(e) => Err(e),
        }
    } else {
        Err(ParseError::UnknownToken(args[1].clone()))
    }
}

pub open spec fn spec_parse_feature(args: Seq<String>) -> Result<Command, ParseError> {
    if args.len() < 2 {
        Err(ParseError::MissingArgument(args[0]))
    } else if args[1]@ == "get"@ {
        match spec_one_arg(args, 1) {
            Ok(id) => Ok(Command::Feature(FeatureCmd::Get { id })),
            Err(e) => Err(e),
        }
    } else if args[1]@ == "set"@ {
        match spec_two_args(args, 1) {
            Ok(p) => match spec_dec_u64(p.1@) {
                Some(value) => Ok(Command::Feature(FeatureCmd::SetVal { id: p.0, value })),
                None => Err(ParseError::InvalidNumber(p.1)),
            },
            Err(e) => Err(e),
        }
    } else if args[1]@ == "list"@ {
        match spec_no_arg(args, 1) {
            Ok(_) => Ok(Command::Feature(FeatureCmd::List)),
            Err(e) => Err(e),
        }
    } else if args[1]@ == "check"@ {
        match spec_one_arg(args, 1) {
            Ok(id) => Ok(Command::Feature(FeatureCmd::Check { id })),
            Err(e) => Err(e),
        }
    } else if args[1]@ == "load"@ {
        match spec_no_arg(args, 1) {
            Ok(_) => Ok(Command::Feature(FeatureCmd::Load)),
            Err(e) => Err(e),
        }
    } else if args[1]@ == "save"@ {
        match spec_no_arg(args, 1) {
            Ok(_) => Ok(Command::Feature(FeatureCmd::Save)),
            Err(e) => Err(e),
        }
    } else {
        Err(ParseError::UnknownToken(args[1]))
    }
}

fn parse_feature(args: &Vec<String>) -> (r: Result<Command, ParseError>)
    requires
        args@.len() >= 1,
    ensures
        r == spec_parse_feature(args@),
{
    if args.len() < 2 {
        Err(ParseError::MissingArgument(args[0].clone()))
    } else if word_eq(&args[1], "get") {
        match one_arg(args, 1) {
            Ok(id) => Ok(Command::Feature(FeatureCmd::Get { id })),
            Err(e) => Err(e),
        }
    } else if word_eq(&args[1], "set") {
        match two_args(args, 1) {
            Ok(p) => match parse_u64(&p.1) {
                Some(value) => Ok(Command::Feature(FeatureCmd::SetVal { id: p.0, value })),
                None => Err(ParseError::InvalidNumber(p.1)),
            },
            Err(e) => Err(e),
        }
    } else if word_eq(&args[1], "list") {
        match no_arg(args, 1) {
            Ok(_) => Ok(Command::Feature(FeatureCmd::List)),
            Err(e) => Err(e),
        }
    } else if word_eq(&args[1], "check") {
        match one_arg(args, 1) {
            Ok(id) => Ok(Command::Feature(FeatureCmd::Check { id })),
            Err(e) => Err(e),
        }
    } else if word_eq(&args[1], "load") {
        match no_arg(args, 1) {
            Ok(_) => Ok(Command::Feature(FeatureCmd::Load)),
            Err(e) => Err(e),
        }
    } else if word_eq(&args[1], "save") {
        match no_arg(args, 1) {
            Ok(_) => Ok(Command::Feature(FeatureCmd::Save)),
            Err(e) => Err(e),
        }
    } else {
        Err(ParseError::UnknownToken(args[1].clone()))
    }
}

pub open spec fn spec_parse_boot_info(args: Seq<String>) -> Result<Command, ParseError> {
    if args.len() < 2 {
        Err(ParseError::MissingArgument(args[0]))
    } else if args[1]@ == "current-kmi"@ {
        match spec_no_arg(args, 1) {
            Ok(_) => Ok(Command::BootInfo(BootInfoCmd::CurrentKmi)),
            Err(e) => Err(e),
        }
    } else if args[1]@ == "supported-kmis"@ {
        match spec_no_arg(args, 1) {
            Ok(_) => Ok(Command::BootInfo(BootInfoCmd::SupportedKmis)),
            Err(e) => Err(e),
        }
    } else if args[1]@ == "is-ab-device"@ {
        match spec_no_arg(args, 1) {
            Ok(_) => Ok(Command::BootInfo(BootInfoCmd::IsAbDevice)),
            Err(e) => Err(e),
        }
    } else if args[1]@ == "default-partition"@ {
        match spec_no_arg(args, 1) {
            Ok(_) => Ok(Command::BootInfo(BootInfoCmd::DefaultPartition)),
            Err(e) => Err(e),
        }
    } else if args[1]@ == "slot-suffix"@ {
        match spec_opt_switch(args, 2, "--ota"@, "-u"@) {
            Ok(ota) => Ok(Command::BootInfo(BootInfoCmd::SlotSuffix { ota })),
            Err(e) => Err(e),
        }
    } else if args[1]@ == "available-partitions"@ {
        match spec_no_arg(args, 1) {
            Ok(_) => Ok(Command::BootInfo(BootInfoCmd::AvailablePartitions)),
            Err(e) => Err(e),
        }
    } else {
        Err(ParseError::UnknownToken(args[1]))
    }
}

fn parse_boot_info(args: &Vec<String>) -> (r: Result<Command, ParseError>)
    requires
        args@.len() >= 1,
    ensures
        r == spec_parse_boot_info(args@),
{
    if args.len() < 2 {
        Err(ParseError::MissingArgument(args[0].clone()))
    } else if word_eq(&args[1], "current-kmi") {
        match no_arg(args, 1) {
            Ok(_) => Ok(Command::BootInfo(BootInfoCmd::CurrentKmi)),
            Err(e) => Err(e),
        }
    } else if word_eq(&args[1], "supported-kmis") {
        match no_arg(args, 1) {
            Ok(_) => Ok(Command::BootInfo(BootInfoCmd::SupportedKmis)),
            Err(e) => Err(e),
        }
    } else if word_eq(&args[1], "is-ab-device") {
        match no_arg(args, 1) {
            Ok(_) => Ok(Command::BootInfo(BootInfoCmd::IsAbDevice)),
            Err(e) => Err(e),
        }
    } else if word_eq(&args[1], "default-partition") {
        match no_arg(args, 1) {
            Ok(_) => Ok(Command::BootInfo(BootInfoCmd::DefaultPartition)),
            Err(e) => Err(e),
        }
    } else if word_eq(&args[1], "slot-suffix") {
        match opt_switch(args, 2, "--ota", "-u") {
            Ok(ota) => Ok(Command::BootInfo(BootInfoCmd::SlotSuffix { ota })),
            Err(e) => Err(e),
        }
    } else if word_eq(&args[1], "available-partitions") {
        match no_arg(args, 1) {
            Ok(_) => Ok(Command::BootInfo(BootInfoCmd::AvailablePartitions)),
            Err(e) => Err(e),
        }
    } else {
        Err(ParseError::UnknownToken(args[1].clone()))
    }
}

pub open spec fn spec_parse_mark(args: Seq<String>) -> Result<Command, ParseError> {
    if args.len() < 3 {
        Err(ParseError::MissingArgument(args[1]))
    } else if args[2]@ == "get"@ {
        match spec_opt_pid(args, 3) {
            Ok(pid) => Ok(Command::Debug(DebugCmd::Mark(MarkCmd::Get { pid }))),
            Err(e) => Err(e),
        }
    } else if args[2]@ == "mark"@ {
        match spec_opt_pid(args, 3) {
            Ok(pid) => Ok(Command::Debug(DebugCmd::Mark(MarkCmd::Mark { pid }))),
            Err(e) => Err(e),
        }
    } else if args[2]@ == "unmark"@ {
        match spec_opt_pid(args, 3) {
            Ok(pid) => Ok(Command::Debug(DebugCmd::Mark(MarkCmd::Unmark { pid }))),
            Err(e) => Err(e),
        }
    } else if args[2]@ == "refresh"@ {
        match spec_no_arg(args, 2) {
            Ok(_) => Ok(Command::Debug(DebugCmd::Mark(MarkCmd::Refresh))),
            Err(e) => Err(e),
        }
    } else {
        Err(ParseError::UnknownToken(args[2]))
    }
}

fn parse_mark(args: &Vec<String>) -> (r: Result<Command, ParseError>)
    requires
        args@.len() >= 2,
    ensures
        r == spec_parse_mark(args@),
{
    if args.len() < 3 {
        Err(ParseError::MissingArgument(args[1].clone()))
    } else if word_eq(&args[2], "get") {
        match opt_pid(args, 3) {
            Ok(pid) => Ok(Command::Debug(DebugCmd::Mark(MarkCmd::Get { pid }))),
            Err(e) => Err(e),
        }
    } else if word_eq(&args[2], "mark") {
        match opt_pid(args, 3) {
            Ok(pid) => Ok(Command::Debug(DebugCmd::Mark(MarkCmd::Mark { pid }))),
            Err(e) => Err(e),
        }
    } else if word_eq(&args[2], "unmark") {
        match opt_pid(args, 3) {
            Ok(pid) => Ok(Command::Debug(DebugCmd::Mark(MarkCmd::Unmark { pid }))),
            Err(e) => Err(e),
        }
    } else if word_eq(&args[2], "refresh") {
        match no_arg(args, 2) {
            Ok(_) => Ok(Command::Debug(DebugCmd::Mark(MarkCmd::Refresh))),
            Err(e) => Err(e),
        }
    } else {
        Err(ParseError::UnknownToken(args[2].clone()))
    }
}

pub open spec fn spec_parse_debug(args: Seq<String>) -> Result<Command, ParseError> {
    if args.len() < 2 {
        Err(ParseError::MissingArgument(args[0]))
    } else if args[1]@ == "set-manager"@ {
        if args.len() == 2 {
            Ok(Command::Debug(DebugCmd::SetManager { apk: None }))
        } else if args.len() == 3 {
            Ok(Command::Debug(DebugCmd::SetManager { apk: Some(args[2]) }))
        } else {
            Err(ParseError::UnexpectedArgument(args[3]))
        }
    } else if args[1]@ == "get-sign"@ {
        match spec_one_arg(args, 1) {
            Ok(apk) => Ok(Command::Debug(DebugCmd::GetSign { apk })),
            Err(e) => Err(e),
        }
    } else if args[1]@ == "su"@ {
        match spec_opt_switch(args, 2, "--global-mnt"@, "-g"@) {
            Ok(global_mnt) => Ok(Command::Debug(DebugCmd::Su { global_mnt })),
            Err(e) => Err(e),
        }
    } else if args[1]@ == "version"@ {
        match spec_no_arg(args, 1) {
            Ok(_) => Ok(Command::Debug(DebugCmd::Version)),
            Err(e) => Err(e),
        }
    } else if args[1]@ == "test"@ {
        match spec_no_arg(args, 1) {
            Ok(_) => Ok(Command::Debug(DebugCmd::Test)),
            Err(e) => Err(e),
        }
    } else if args[1]@ == "mark"@ {
        spec_parse_mark(args)
    } else {
        Err(ParseError::UnknownToken(args[1]))
    }
}

fn parse_debug(args: &Vec<String>) -> (r: Result<Command, ParseError>)
    requires
        args@.len() >= 1,
    ensures
        r == spec_parse_debug(args@),
{
    if args.len() < 2 {
        Err(ParseError::MissingArgument(args[0].clone()))
    } else if word_eq(&args[1], "set-manager") {
        if args.len() == 2 {
            Ok(Command::Debug(DebugCmd::SetManager { apk: None }))
        } else if args.len() == 3 {
            Ok(Command::Debug(DebugCmd::SetManager { apk: Some(args[2].clone()) }))
        } else {
            Err(ParseError::UnexpectedArgument(args[3].clone()))
        }
    } else if word_eq(&args[1], "get-sign") {
        match one_arg(args, 1) {
            Ok(apk) => Ok(Command::Debug(DebugCmd::GetSign { apk })),
            Err(e) => Err(e),
        }
    } else if word_eq(&args[1], "su") {
        match opt_switch(args, 2, "--global-mnt", "-g") {
            Ok(global_mnt) => Ok(Command::Debug(DebugCmd::Su { global_mnt })),
            Err(e) => Err(e),
        }
    } else if word_eq(&args[1], "version") {
        match no_arg(args, 1) {
            Ok(_) => Ok(Command::Debug(DebugCmd::Version)),
            Err(e) => Err(e),
        }
    } else if word_eq(&args[1], "test") {
        match no_arg(args, 1) {
            Ok(_) => Ok(Command::Debug(DebugCmd::Test)),
            Err(e) => Err(e),
        }
    } else if word_eq(&args[1], "mark") {
        parse_mark(args)
    } else {
        Err(ParseError::UnknownToken(args[1].clone()))
    }
}

pub open spec fn spec_parse_kpm(args: Seq<String>) -> Result<Command, ParseError> {
    if args.len() < 2 {
        Err(ParseError::MissingArgument(args[0]))
    } else if args[1]@ == "load"@ {
        if args.len() < 3 {
            Err(ParseError::MissingArgument(args[1]))
        } else if args.len() == 3 {
            Ok(Command::Kpm(Kpm::Load { path: args[2], args: None }))
        } else if args.len() == 4 {
            Ok(Command::Kpm(Kpm::Load { path: args[2], args: Some(args[3]) }))
        } else {
            Err(ParseError::UnexpectedArgument(args[4]))
        }
    } else if args[1]@ == "unload"@ {
        match spec_one_arg(args, 1) {
            Ok(name) => Ok(Command::Kpm(Kpm::Unload { name })),
            Err(e) => Err(e),
        }
    } else if args[1]@ == "num"@ {
        match spec_no_arg(args, 1) {
            Ok(_) => Ok(Command::Kpm(Kpm::Num)),
            Err(e) => Err(e),
        }
    } else if args[1]@ == "list"@ {
        match spec_no_arg(args, 1) {
            Ok(_) => Ok(Command::Kpm(Kpm::List)),
            Err(e) => Err(e),
        }
    } else if args[1]@ == "info"@ {
        match spec_one_arg(args, 1) {
            Ok(name) => Ok(Command::Kpm(Kpm::Info { name })),
            Err(e) => Err(e),
        }
    } else if args[1]@ == "control"@ {
        match spec_two_args(args, 1) {
            Ok(p) => Ok(Command::Kpm(Kpm::Control { name: p.0, args: p.1 })),
            Err(e) => Err(e),
        }
    } else if args[1]@ == "version"@ {
        match spec_no_arg(args, 1) {
            Ok(_) => Ok(Command::Kpm(Kpm::Version)),
            Err(e) => Err(e),
        }
    } else {
        Err(ParseError::UnknownToken(args[1]))
    }
}

fn parse_kpm(args: &Vec<String>) -> (r: Result<Command, ParseError>)
    requires
        args@.len() >= 1,
    ensures
        r == spec_parse_kpm(args@),
{
    if args.len() < 2 {
        Err(ParseError::MissingArgument(args[0].clone()))
    } else if word_eq(&args[1], "load") {
        if args.len() < 3 {
            Err(ParseError::MissingArgument(args[1].clone()))
        } else if args.len() == 3 {
            Ok(Command::Kpm(Kpm::Load { path: args[2].clone(), args: None }))
        } else if args.len() == 4 {
            Ok(Command::Kpm(Kpm::Load { path: args[2].clone(), args: Some(args[3].clone()) }))
        } else {
            Err(ParseError::UnexpectedArgument(args[4].clone()))
        }
    } else if word_eq(&args[1], "unload") {
        match one_arg(args, 1) {
            Ok(name) => Ok(Command::Kpm(Kpm::Unload { name })),
            Err(e) => Err(e),
        }
    } else if word_eq(&args[1], "num") {
        match no_arg(args, 1) {
            Ok(_) => Ok(Command::Kpm(Kpm::Num)),
            Err(e) => Err(e),
        }
    } else if word_eq(&args[1], "list") {
        match no_arg(args, 1) {
            Ok(_) => Ok(Command::Kpm(Kpm::List)),
            Err(e) => Err(e),
        }
    } else if word_eq(&args[1], "info") {
        match one_arg(args, 1) {
            Ok(name) => Ok(Command::Kpm(Kpm::Info { name })),
            Err(e) => Err(e),
        }
    } else if word_eq(&args[1], "control") {
        match two_args(args, 1) {
            Ok(p) => Ok(Command::Kpm(Kpm::Control { name: p.0, args: p.1 })),
            Err(e) => Err(e),
        }
    } else if word_eq(&args[1], "version") {
        match no_arg(args, 1) {
            Ok(_) => Ok(Command::Kpm(Kpm::Version)),
            Err(e) => Err(e),
        }
    } else {
        Err(ParseError::UnknownToken(args[1].clone()))
    }
}

// ---- the top level ------------------------------------------------------

/// The whole grammar: the argument vector (without the program name)
/// decodes to exactly one request, or to the usage error this function
/// names.
pub open spec fn spec_parse(args: Seq<String>) -> Result<Command, ParseError> {
    if args.len() == 0 {
        Err(ParseError::Empty)
    } else if args[0]@ == "module"@ {
        spec_parse_module(args)
    } else if args[0]@ == "post-fs-data"@ {
        match spec_no_arg(args, 0) {
            Ok(_) => Ok(Command::Init(InitEvent::PostFsData)),
            Err(e) => Err(e),
        }
    } else if args[0]@ == "services"@ {
        match spec_no_arg(args, 0) {
            Ok(_) => Ok(Command::Init(InitEvent::Services)),
            Err(e) => Err(e),
        }
    } else if args[0]@ == "boot-completed"@ {
        match spec_no_arg(args, 0) {
            Ok(_) => Ok(Command::Init(InitEvent::BootCompleted)),
            Err(e) => Err(e),
        }
    } else if args[0]@ == "umount-config"@ {
        spec_parse_umount_config(args)
    } else if args[0]@ == "kernel"@ {
        spec_parse_kernel(args)
    } else if args[0]@ == "sepolicy"@ {
        spec_parse_sepolicy(args)
    } else if args[0]@ == "profile"@ {
        spec_parse_profile(args)
    } else if args[0]@ == "feature"@ {
        spec_parse_feature(args)
    } else if args[0]@ == "boot-info"@ {
        spec_parse_boot_info(args)
    } else if args[0]@ == "debug"@ {
        spec_parse_debug(args)
    } else if args[0]@ == "kpm"@ {
        spec_parse_kpm(args)
    } else {
        Err(ParseError::UnknownToken(args[0]))
    }
}

/// Decode an argument vector (without the program name) into a typed
/// request, or a usage error, exactly as the grammar says.
pub fn parse(args: &Vec<String>) -> (r: Result<Command, ParseError>)
    ensures
        r == spec_parse(args@),
{
    if args.len() == 0 {
        Err(ParseError::Empty)
    } else if word_eq(&args[0], "module") {
        parse_module(args)
    } else if word_eq(&args[0], "post-fs-data") {
        match no_arg(args, 0) {
            Ok(_) => Ok(Command::Init(InitEvent::PostFsData)),
            Err(e) => Err(e),
        }
    } else if word_eq(&args[0], "services") {
        match no_arg(args, 0) {
            Ok(_) => Ok(Command::Init(InitEvent::Services)),
            Err(e) => Err(e),
        }
    } else if word_eq(&args[0], "boot-completed") {
        match no_arg(args, 0) {
            Ok(_) => Ok(Command::Init(InitEvent::BootCompleted)),
            Err(e) => Err(e),
        }
    } else if word_eq(&args[0], "umount-config") {
        parse_umount_config(args)
    } else if word_eq(&args[0], "kernel") {
        parse_kernel(args)
    } else if word_eq(&args[0], "sepolicy") {
        parse_sepolicy(args)
    } else if word_eq(&args[0], "profile") {
        parse_profile(args)
    } else if word_eq(&args[0], "feature") {
        parse_feature(args)
    } else if word_eq(&args[0], "boot-info") {
        parse_boot_info(args)
    } else if word_eq(&args[0], "debug") {
        parse_debug(args)
    } else if word_eq(&args[0], "kpm") {
        parse_kpm(args)
    } else {
        Err(ParseError::UnknownToken(args[0].clone()))
    }
}

/// Whether the process was invoked under the root-shell entry name; checked
/// before any argument parsing so that the root-shell grant convention is
/// never read as a malformed administrative command.
pub open spec fn spec_root_shell_entry(arg0: Seq<char>) -> bool {
    arg0 == "su"@ || arg0 == "/system/bin/su"@
}

pub fn is_root_shell_entry(arg0: &String) -> (r: bool)
    ensures
        r == spec_root_shell_entry(arg0@),
{
    word_eq(arg0, "su") || word_eq(arg0, "/system/bin/su")
}

} // verus!
