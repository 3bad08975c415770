//! The command router: one invocation carries exactly one typed request;
//! the router enforces preconditions (mount-namespace switch before module
//! operations, a declared module execution context before configuration
//! commands), executes the one leaf operation against the stores it owns,
//! and hands every external operation to a collaborator as an explicit
//! delegation, mutating nothing itself in that case.

use vstd::prelude::*;
use vstd::utf8::encode_utf8;
use vstd::string::StrSliceExecFns;
use crate::assoc::{
    assoc_map, distinct_keys, key_index, lemma_assoc_map_at, lemma_assoc_map_domain,
    lemma_assoc_map_push, lemma_assoc_map_update, lemma_key_index, lemma_key_index_absent,
    lemma_key_index_is,
};
use crate::module_config::{
    cfg_after_delete, cfg_after_set, entries_view, merged, merged_seq, valid_key_seq,
    valid_value_seq, validate_key, validate_value, ConfigEntry, ConfigError, ConfigTier,
    ModuleConfigStore,
};
use crate::mount_exclusion::{
    json_mount_list, mounts_after_add, mounts_after_del, MountExclusionEntry, MountExclusionStore,
};
use crate::process_mark::{nz_set, ProcessMarkRegistry};
use crate::request::{
    BootInfoCmd, Command, ConfigCmd, DebugCmd, DynamicManagerCmd, FeatureCmd, InitEvent, KernelCmd,
    Kpm, MarkCmd, ModuleCmd, ProfileCmd, SepolicyCmd, UmountCmd, UmountConfigCmd,
};
use crate::trust_anchor::{anchor_after_set, AnchorError, TrustAnchor, HASH_LEN};

verus! {

/// One module's configuration store, filed under the module's identity.
pub struct ModuleConfigNamed {
    pub id: String,
    pub store: ModuleConfigStore,
}

/// What the caller's environment established before the command ran.
pub struct Invocation {
    /// The module whose action script is running, if any: configuration
    /// commands are rejected without it.
    pub module_id: Option<String>,
    /// Whether the switch into the mount namespace of process 1 succeeded;
    /// module operations are rejected without it.
    pub ns_ready: bool,
}

/// Work only an external collaborator can do; the router mutates nothing
/// when it hands one of these back.
pub enum CollabRequest {
    ModuleInstall { zip: String },
    ModuleUndoUninstall { id: String },
    ModuleUninstall { id: String },
    ModuleEnable { id: String },
    ModuleDisable { id: String },
    ModuleAction { id: String },
    ModuleList,
    NukeExt4Sysfs { mnt: String },
    NotifyModuleMounted,
    Sepolicy(SepolicyCmd),
    Profile(ProfileCmd),
    Feature(FeatureCmd),
    BootInfo(BootInfoCmd),
    Kpm(Kpm),
    SetManager { apk: String },
    GetSignature { apk: String },
    /// Extract the signing-certificate digest of the package, then install
    /// it through `config_anchor_set`.
    ExtractForAnchor { apk: String },
    RootShell { global_mnt: bool },
    /// Run one boot-time lifecycle trigger.
    InitTrigger(InitEvent),
    KernelVersion,
    EnsureBinaries,
    /// Snapshot the process table, then hand it to
    /// `apply_process_snapshot`.
    ListProcesses { refresh: bool },
    /// Read the whole value from the bulk input stream, then hand it to
    /// `config_set_value`.
    ReadValueStream { key: String, temp: bool },
}

/// The single outcome of a successful invocation.
pub enum Reply {
    Done,
    Text(String),
    Entries(Vec<ConfigEntry>),
    Mounts(Vec<MountExclusionEntry>),
    Json(String),
    Anchor { binding: Option<(u32, Vec<u8>)> },
    MarkCount(usize),
    Marked(bool),
    Delegate(CollabRequest),
}

pub enum CmdError {
    /// A module operation without the mount-namespace switch: fatal, no
    /// partial effect.
    NamespaceSwitchFailed,
    /// A configuration command outside any module execution context:
    /// distinct from a missing key.
    MissingModuleContext,
    Config(ConfigError),
    Anchor(AnchorError),
}

/// Everything the control plane owns.
pub struct ControlPlane {
    pub anchor: TrustAnchor,
    pub umount_config: MountExclusionStore,
    pub umount_live: MountExclusionStore,
    pub marks: ProcessMarkRegistry,
    pub modules: Vec<ModuleConfigNamed>,
}

pub open spec fn modules_view(ms: Seq<ModuleConfigNamed>) -> Seq<
    (Seq<char>, (Seq<(Seq<char>, Seq<char>)>, Seq<(Seq<char>, Seq<char>)>)),
> {
    Seq::new(ms.len(), |i: int| (ms[i].id@, ms[i].store@))
}

pub open spec fn mods_map(ms: Seq<ModuleConfigNamed>) -> Map<
    Seq<char>,
    (Seq<(Seq<char>, Seq<char>)>, Seq<(Seq<char>, Seq<char>)>),
> {
    assoc_map(modules_view(ms))
}

/// The configuration of one module: what is stored for it, or the empty
/// two-tier store when nothing is.
pub open spec fn module_cfg(ms: Seq<ModuleConfigNamed>, id: Seq<char>) -> (
    Seq<(Seq<char>, Seq<char>)>,
    Seq<(Seq<char>, Seq<char>)>,
) {
    if mods_map(ms).contains_key(id) {
        mods_map(ms)[id]
    } else {
        (Seq::empty(), Seq::empty())
    }
}

/// The two tiers after a `clear` of one tier.
pub open spec fn cfg_after_clear(
    v: (Seq<(Seq<char>, Seq<char>)>, Seq<(Seq<char>, Seq<char>)>),
    tier: ConfigTier,
) -> (Seq<(Seq<char>, Seq<char>)>, Seq<(Seq<char>, Seq<char>)>) {
    match tier {
        ConfigTier::Persistent => (Seq::empty(), v.1),
        ConfigTier::Ephemeral => (v.0, Seq::empty()),
    }
}

pub open spec fn chosen_tier(temp: bool) -> ConfigTier {
    if temp {
        ConfigTier::Ephemeral
    } else {
        ConfigTier::Persistent
    }
}

impl ControlPlane {
    pub open spec fn wf(&self) -> bool {
        &&& self.anchor.wf()
        &&& self.umount_config.wf()
        &&& self.umount_live.wf()
        &&& self.marks.wf()
        &&& distinct_keys(modules_view(self.modules@))
        &&& forall|i: int| 0 <= i < self.modules@.len() ==> (#[trigger] self.modules@[i]).store.wf()
    }

    /// All stores equal but the module configurations.
    pub open spec fn same_but_modules(&self, pre: &ControlPlane) -> bool {
        &&& self.anchor == pre.anchor
        &&& self.umount_config == pre.umount_config
        &&& self.umount_live == pre.umount_live
        &&& self.marks == pre.marks
    }

    pub fn new() -> (r: ControlPlane)
        ensures
            r.wf(),
            r.anchor@ is None,
            r.umount_config@ == Seq::<(Seq<char>, u32)>::empty(),
            r.umount_live@ == Seq::<(Seq<char>, u32)>::empty(),
            r.marks@ == Set::<i32>::empty(),
            r.modules@.len() == 0,
    {
        let r = ControlPlane {
            anchor: TrustAnchor::new(),
            umount_config: MountExclusionStore::new(),
            umount_live: MountExclusionStore::new(),
            marks: ProcessMarkRegistry::new(),
            modules: Vec::new(),
        };
        r
    }

    fn find_module(&self, id: &String) -> (r: Option<usize>)
        ensures
            r matches Some(i) ==> key_index(modules_view(self.modules@), id@) == i,
            r is None ==> key_index(modules_view(self.modules@), id@) == -1,
    {
        let n = self.modules.len();
        let mut i: usize = 0;
        while i < n
            invariant
                n == self.modules.len(),
                0 <= i <= n,
                forall|j: int| 0 <= j < i ==> modules_view(self.modules@)[j].0 != id@,
            decreases n - i,
        {
            if self.modules[i].id.eq(id) {
                proof {
                    lemma_key_index_is(modules_view(self.modules@), id@, i as int);
                }
                return Some(i);
            }
            i += 1;
        }
        proof {
            lemma_key_index_absent(modules_view(self.modules@), id@);
        }
        None
    }

    /// The index of `id`'s configuration store, creating an empty one when
    /// the module has none yet.
    fn ensure_module(&mut self, id: &String) -> (i: usize)
        requires
            old(self).wf(),
        ensures
            final(self).wf(),
            i < final(self).modules@.len(),
            modules_view(final(self).modules@)[i as int] == (
                id@,
                module_cfg(old(self).modules@, id@),
            ),
            key_index(modules_view(final(self).modules@), id@) == i,
            mods_map(final(self).modules@) == mods_map(old(self).modules@).insert(
                id@,
                module_cfg(old(self).modules@, id@),
            ),
            final(self).same_but_modules(old(self)),
    {
        let ghost mv = modules_view(self.modules@);
        proof {
            lemma_key_index(mv, id@);
            lemma_assoc_map_domain(mv, id@);
        }
        match self.find_module(id) {
            Some(i) => {
                proof {
                    lemma_assoc_map_at(mv, i as int);
                    assert(mods_map(self.modules@).insert(id@, module_cfg(self.modules@, id@))
                        =~= mods_map(self.modules@));
                }
                i
            },
            None => {
                proof {
                    lemma_assoc_map_push(mv, id@, (Seq::empty(), Seq::empty()));
                }
                let store = ModuleConfigStore::new();
                let i = self.modules.len();
                self.modules.push(ModuleConfigNamed { id: id.clone(), store });
                proof {
                    assert(modules_view(self.modules@) =~= mv.push(
                        (id@, (Seq::empty(), Seq::empty())),
                    ));
                    lemma_key_index_is(modules_view(self.modules@), id@, i as int);
                }
                i
            },
        }
    }

    /// Store a validated `key = value` for module `id` in the chosen tier;
    /// rejected before any mutation when the key or value is invalid.
    pub fn config_set_value(
        &mut self,
        id: &String,
        key: &String,
        value: &String,
        temp: bool,
    ) -> (r: Result<Reply, CmdError>)
        requires
            old(self).wf(),
        ensures
            final(self).wf(),
            config_set_post(*old(self), *final(self), id@, key@, value@, temp, r),
    {
        if !validate_key(key) {
            return Err(CmdError::Config(ConfigError::InvalidKey(key.clone())));
        }
        if !validate_value(value) {
            return Err(CmdError::Config(ConfigError::InvalidValue));
        }
        let tier = if temp {
            ConfigTier::Ephemeral
        } else {
            ConfigTier::Persistent
        };
        let ghost pre = *self;
        let i = self.ensure_module(id);
        let ghost mid = *self;
        let ghost mv = modules_view(self.modules@);
        let mut entry = self.modules.remove(i);
        let res = entry.store.set(key, value, tier);
        self.modules.insert(i, entry);
        proof {
            assert(modules_view(self.modules@) =~= mv.update(
                i as int,
                (id@, cfg_after_set(module_cfg(pre.modules@, id@), key@, value@, tier)),
            ));
            lemma_assoc_map_update(
                mv,
                i as int,
                cfg_after_set(module_cfg(pre.modules@, id@), key@, value@, tier),
            );
            assert(mods_map(self.modules@) =~= mods_map(pre.modules@).insert(
                id@,
                cfg_after_set(module_cfg(pre.modules@, id@), key@, value@, tier),
            ));
            assert forall|j: int| 0 <= j < self.modules@.len() implies (
            #[trigger] self.modules@[j]).store.wf() by {
                if j != i {
                    assert(self.modules@[j] == mid.modules@[j]);
                }
            }
        }
        match res {
            Ok(_) => Ok(Reply::Done),
            Err(e) => Err(CmdError::Config(e)),
        }
    }

    /// Read the merged value of `key` for module `id`.
    pub fn config_get(&self, id: &String, key: &String) -> (r: Result<Reply, CmdError>)
        requires
            self.wf(),
        ensures
            config_get_post(*self, id@, key@, r),
    {
        let ghost mv = modules_view(self.modules@);
        proof {
            lemma_key_index(mv, id@);
            lemma_assoc_map_domain(mv, id@);
        }
        match self.find_module(id) {
            Some(i) => {
                proof {
                    lemma_assoc_map_at(mv, i as int);
                }
                match self.modules[i].store.get(key) {
                    Ok(v) => Ok(Reply::Text(v)),
                    Err(e) => Err(CmdError::Config(e)),
                }
            },
            None => Err(CmdError::Config(ConfigError::KeyNotFound(key.clone()))),
        }
    }

    /// The merged listing for module `id`; an unknown module is an empty
    /// listing, not an error.
    pub fn config_list(&self, id: &String) -> (r: Vec<ConfigEntry>)
        requires
            self.wf(),
        ensures
            ({
                let cfg = module_cfg(self.modules@, id@);
                entries_view(r@) == merged_seq(cfg.0, cfg.1)
            }),
    {
        let ghost mv = modules_view(self.modules@);
        proof {
            lemma_key_index(mv, id@);
            lemma_assoc_map_domain(mv, id@);
        }
        match self.find_module(id) {
            Some(i) => {
                proof {
                    lemma_assoc_map_at(mv, i as int);
                }
                self.modules[i].store.list()
            },
            None => {
                let r: Vec<ConfigEntry> = Vec::new();
                proof {
                    let cfg = module_cfg(self.modules@, id@);
                    assert(entries_view(r@) =~= merged_seq(cfg.0, cfg.1));
                }
                r
            },
        }
    }

    /// Delete `key` from one tier of module `id`'s configuration.
    pub fn config_delete(&mut self, id: &String, key: &String, temp: bool) -> (r: Reply)
        requires
            old(self).wf(),
        ensures
            final(self).wf(),
            final(self).same_but_modules(old(self)),
            r is Done,
            mods_map(final(self).modules@) == mods_map(old(self).modules@).insert(
                id@,
                cfg_after_delete(module_cfg(old(self).modules@, id@), key@, chosen_tier(temp)),
            ),
    {
        let tier = if temp {
            ConfigTier::Ephemeral
        } else {
            ConfigTier::Persistent
        };
        let ghost pre = *self;
        let i = self.ensure_module(id);
        let ghost mid = *self;
        let ghost mv = modules_view(self.modules@);
        let mut entry = self.modules.remove(i);
        entry.store.delete(key, tier);
        self.modules.insert(i, entry);
        proof {
            assert(modules_view(self.modules@) =~= mv.update(
                i as int,
                (id@, cfg_after_delete(module_cfg(pre.modules@, id@), key@, tier)),
            ));
            lemma_assoc_map_update(
                mv,
                i as int,
                cfg_after_delete(module_cfg(pre.modules@, id@), key@, tier),
            );
            assert(mods_map(self.modules@) =~= mods_map(pre.modules@).insert(
                id@,
                cfg_after_delete(module_cfg(pre.modules@, id@), key@, tier),
            ));
            assert forall|j: int| 0 <= j < self.modules@.len() implies (
            #[trigger] self.modules@[j]).store.wf() by {
                if j != i {
                    assert(self.modules@[j] == mid.modules@[j]);
                }
            }
        }
        Reply::Done
    }

    /// Remove every key from one tier of module `id`'s configuration.
    pub fn config_clear(&mut self, id: &String, temp: bool) -> (r: Reply)
        requires
            old(self).wf(),
        ensures
            final(self).wf(),
            final(self).same_but_modules(old(self)),
            r is Done,
            mods_map(final(self).modules@) == mods_map(old(self).modules@).insert(
                id@,
                cfg_after_clear(module_cfg(old(self).modules@, id@), chosen_tier(temp)),
            ),
    {
        let tier = if temp {
            ConfigTier::Ephemeral
        } else {
            ConfigTier::Persistent
        };
        let ghost pre = *self;
        let i = self.ensure_module(id);
        let ghost mid = *self;
        let ghost mv = modules_view(self.modules@);
        let mut entry = self.modules.remove(i);
        entry.store.clear(tier);
        self.modules.insert(i, entry);
        proof {
            assert(entry.store@ == cfg_after_clear(module_cfg(pre.modules@, id@), tier));
            assert(modules_view(self.modules@) =~= mv.update(
                i as int,
                (id@, cfg_after_clear(module_cfg(pre.modules@, id@), tier)),
            ));
            lemma_assoc_map_update(
                mv,
                i as int,
                cfg_after_clear(module_cfg(pre.modules@, id@), tier),
            );
            assert(mods_map(self.modules@) =~= mods_map(pre.modules@).insert(
                id@,
                cfg_after_clear(module_cfg(pre.modules@, id@), tier),
            ));
            assert forall|j: int| 0 <= j < self.modules@.len() implies (
            #[trigger] self.modules@[j]).store.wf() by {
                if j != i {
                    assert(self.modules@[j] == mid.modules@[j]);
                }
            }
        }
        Reply::Done
    }

    /// Install the trust-anchor binding from a signature size and the hash
    /// bytes of the signature digest; any hash not exactly 64 bytes is
    /// rejected and the prior binding survives.
    pub fn anchor_set(&mut self, size: u32, hash: &String) -> (r: Result<Reply, CmdError>)
        requires
            old(self).wf(),
        ensures
            final(self).wf(),
            final(self).anchor@ == anchor_after_set(old(self).anchor@, size, encode_utf8(hash@)),
            final(self).umount_config == old(self).umount_config,
            final(self).umount_live == old(self).umount_live,
            final(self).marks == old(self).marks,
            final(self).modules == old(self).modules,
            r matches Ok(p) ==> p is Done && encode_utf8(hash@).len() == HASH_LEN,
            r matches Err(e) ==> e == CmdError::Anchor(AnchorError::InvalidHashLength)
                && encode_utf8(hash@).len() != HASH_LEN,
    {
        let bytes = hash.as_str().as_bytes_vec();
        match self.anchor.set(size, bytes) {
            Ok(_) => Ok(Reply::Done),
            Err(e) => Err(CmdError::Anchor(e)),
        }
    }

    /// Apply a process-table snapshot that a collaborator gathered: either
    /// mark every running process, or re-derive the whole mark set from the
    /// processes the current policy marks.
    pub fn apply_process_snapshot(&mut self, refresh: bool, pids: &Vec<i32>) -> (r: Reply)
        requires
            old(self).wf(),
        ensures
            final(self).wf(),
            final(self).same_but_marks(old(self)),
            r is Done,
            refresh ==> final(self).marks@ == nz_set(pids@),
            !refresh ==> final(self).marks@ == old(self).marks@.union(nz_set(pids@)),
    {
        if refresh {
            self.marks.refresh(pids);
        } else {
            self.marks.mark_all(pids);
        }
        Reply::Done
    }

    /// All stores equal but the mark registry.
    pub open spec fn same_but_marks(&self, pre: &ControlPlane) -> bool {
        &&& self.anchor == pre.anchor
        &&& self.umount_config == pre.umount_config
        &&& self.umount_live == pre.umount_live
        &&& self.modules == pre.modules
    }
}

/// What a `config set` with a determined value must have done.
pub open spec fn config_set_post(
    pre: ControlPlane,
    post: ControlPlane,
    id: Seq<char>,
    key: Seq<char>,
    value: Seq<char>,
    temp: bool,
    r: Result<Reply, CmdError>,
) -> bool {
    match r {
        Err(CmdError::Config(ConfigError::InvalidKey(k))) => !valid_key_seq(key) && k@ == key
            && post == pre,
        Err(CmdError::Config(ConfigError::InvalidValue)) => valid_key_seq(key)
            && !valid_value_seq(value) && post == pre,
        Ok(Reply::Done) => valid_key_seq(key) && valid_value_seq(value) && post.same_but_modules(
            &pre,
        ) && mods_map(post.modules@) == mods_map(pre.modules@).insert(
            id,
            cfg_after_set(module_cfg(pre.modules@, id), key, value, chosen_tier(temp)),
        ),
        _ => false,
    }
}

/// What a `config get` must have answered.
pub open spec fn config_get_post(
    plane: ControlPlane,
    id: Seq<char>,
    key: Seq<char>,
    r: Result<Reply, CmdError>,
) -> bool {
    let cfg = module_cfg(plane.modules@, id);
    let m = merged(assoc_map(cfg.0), assoc_map(cfg.1));
    match r {
        Ok(Reply::Text(v)) => m.contains_key(key) && v@ == m[key],
        Err(CmdError::Config(ConfigError::KeyNotFound(k))) => !m.contains_key(key) && k@ == key,
        _ => false,
    }
}

/// What a configuration command must have done, given the resolved module
/// identity.
pub open spec fn config_cmd_post(
    pre: ControlPlane,
    post: ControlPlane,
    id: Seq<char>,
    c: ConfigCmd,
    r: Result<Reply, CmdError>,
) -> bool {
    match c {
        ConfigCmd::Get { key } => post == pre && config_get_post(pre, id, key@, r),
        ConfigCmd::SetVal { key, value, stdin, temp } => match value {
            Some(v) => if !stdin {
                config_set_post(pre, post, id, key@, v@, temp, r)
            } else {
                config_set_delegated(pre, post, key, temp, r)
            },
            None => config_set_delegated(pre, post, key, temp, r),
        },
        ConfigCmd::List => match r {
            Ok(Reply::Entries(v)) => post == pre && ({
                let cfg = module_cfg(pre.modules@, id);
                entries_view(v@) == merged_seq(cfg.0, cfg.1)
            }),
            _ => false,
        },
        ConfigCmd::Delete { key, temp } => r == Ok::<Reply, CmdError>(Reply::Done)
            && post.same_but_modules(&pre) && mods_map(post.modules@) == mods_map(
            pre.modules@,
        ).insert(id, cfg_after_delete(module_cfg(pre.modules@, id), key@, chosen_tier(temp))),
        ConfigCmd::Clear { temp } => r == Ok::<Reply, CmdError>(Reply::Done)
            && post.same_but_modules(&pre) && mods_map(post.modules@) == mods_map(
            pre.modules@,
        ).insert(id, cfg_after_clear(module_cfg(pre.modules@, id), chosen_tier(temp))),
    }
}

/// A `config set` whose value must come from the bulk input stream: the key
/// is still validated before any read, then the read is delegated.
pub open spec fn config_set_delegated(
    pre: ControlPlane,
    post: ControlPlane,
    key: String,
    temp: bool,
    r: Result<Reply, CmdError>,
) -> bool {
    if !valid_key_seq(key@) {
        post == pre && r == Err::<Reply, CmdError>(
            CmdError::Config(ConfigError::InvalidKey(key)),
        )
    } else {
        post == pre && r == Ok::<Reply, CmdError>(
            Reply::Delegate(CollabRequest::ReadValueStream { key, temp }),
        )
    }
}

impl ControlPlane {
    /// All stores equal but the persisted umount-exclusion list.
    pub open spec fn same_but_umount_config(&self, pre: &ControlPlane) -> bool {
        &&& self.anchor == pre.anchor
        &&& self.umount_live == pre.umount_live
        &&& self.marks == pre.marks
        &&& self.modules == pre.modules
    }

    /// All stores equal but the live kernel umount list.
    pub open spec fn same_but_umount_live(&self, pre: &ControlPlane) -> bool {
        &&& self.anchor == pre.anchor
        &&& self.umount_config == pre.umount_config
        &&& self.marks == pre.marks
        &&& self.modules == pre.modules
    }

    /// All stores equal but the trust anchor.
    pub open spec fn same_but_anchor(&self, pre: &ControlPlane) -> bool {
        &&& self.umount_config == pre.umount_config
        &&& self.umount_live == pre.umount_live
        &&& self.marks == pre.marks
        &&& self.modules == pre.modules
    }
}

/// The whole contract of one routed invocation: what each request variant
/// does to the stores, which requests are delegated untouched, and which
/// preconditions reject a request before any effect.
pub open spec fn execute_post(
    pre: ControlPlane,
    post: ControlPlane,
    ctx: Invocation,
    cmd: Command,
    r: Result<Reply, CmdError>,
) -> bool {
    match cmd {
        Command::Module(m) => if !ctx.ns_ready {
            post == pre && r == Err::<Reply, CmdError>(CmdError::NamespaceSwitchFailed)
        } else {
            match m {
                ModuleCmd::Install { zip } => post == pre && r == Ok::<Reply, CmdError>(
                    Reply::Delegate(CollabRequest::ModuleInstall { zip }),
                ),
                ModuleCmd::UndoUninstall { id } => post == pre && r == Ok::<Reply, CmdError>(
                    Reply::Delegate(CollabRequest::ModuleUndoUninstall { id }),
                ),
                ModuleCmd::Uninstall { id } => post == pre && r == Ok::<Reply, CmdError>(
                    Reply::Delegate(CollabRequest::ModuleUninstall { id }),
                ),
                ModuleCmd::Enable { id } => post == pre && r == Ok::<Reply, CmdError>(
                    Reply::Delegate(CollabRequest::ModuleEnable { id }),
                ),
                ModuleCmd::Disable { id } => post == pre && r == Ok::<Reply, CmdError>(
                    Reply::Delegate(CollabRequest::ModuleDisable { id }),
                ),
                ModuleCmd::Action { id } => post == pre && r == Ok::<Reply, CmdError>(
                    Reply::Delegate(CollabRequest::ModuleAction { id }),
                ),
                ModuleCmd::List => post == pre && r == Ok::<Reply, CmdError>(
                    Reply::Delegate(CollabRequest::ModuleList),
                ),
                ModuleCmd::Config(c) => match ctx.module_id {
                    None => post == pre && r == Err::<Reply, CmdError>(
                        CmdError::MissingModuleContext,
                    ),
                    Some(mid) => config_cmd_post(pre, post, mid@, c, r),
                },
            }
        },
        Command::UmountConfig(u) => match u {
            UmountConfigCmd::Add { mnt, flags } => r == Ok::<Reply, CmdError>(Reply::Done)
                && post.umount_config@ == mounts_after_add(pre.umount_config@, mnt@, flags)
                && post.same_but_umount_config(&pre),
            UmountConfigCmd::Del { mnt } => r == Ok::<Reply, CmdError>(Reply::Done)
                && post.umount_config@ == mounts_after_del(pre.umount_config@, mnt@)
                && post.same_but_umount_config(&pre),
            UmountConfigCmd::Clear => r == Ok::<Reply, CmdError>(Reply::Done)
                && post.umount_config@ == Seq::<(Seq<char>, u32)>::empty()
                && post.same_but_umount_config(&pre),
            UmountConfigCmd::List => match r {
                Ok(Reply::Mounts(v)) => post == pre && v@.len() == pre.umount_config@.len()
                    && forall|i: int| 0 <= i < v@.len() ==> (#[trigger] v@[i])@
                    == pre.umount_config@[i],
                _ => false,
            },
        },
        Command::Kernel(kc) => match kc {
            KernelCmd::NukeExt4Sysfs { mnt } => post == pre && r == Ok::<Reply, CmdError>(
                Reply::Delegate(CollabRequest::NukeExt4Sysfs { mnt }),
            ),
            KernelCmd::Umount(u) => match u {
                UmountCmd::Add { mnt, flags } => r == Ok::<Reply, CmdError>(Reply::Done)
                    && post.umount_live@ == mounts_after_add(pre.umount_live@, mnt@, flags)
                    && post.same_but_umount_live(&pre),
                UmountCmd::Del { mnt } => r == Ok::<Reply, CmdError>(Reply::Done)
                    && post.umount_live@ == mounts_after_del(pre.umount_live@, mnt@)
                    && post.same_but_umount_live(&pre),
                UmountCmd::Wipe => r == Ok::<Reply, CmdError>(Reply::Done) && post.umount_live@
                    == Seq::<(Seq<char>, u32)>::empty() && post.same_but_umount_live(&pre),
                UmountCmd::List => match r {
                    Ok(Reply::Json(s)) => post == pre && s@ == json_mount_list(pre.umount_live@),
                    _ => false,
                },
            },
            KernelCmd::DynamicManager(d) => match d {
                DynamicManagerCmd::Get => match r {
                    Ok(Reply::Anchor { binding }) => post == pre && (binding is Some <==> pre.anchor@
                        is Some) && (binding matches Some(p) ==> pre.anchor@ == Some((p.0, p.1@))),
                    _ => false,
                },
                DynamicManagerCmd::SetRaw { size, hash } => post.anchor@ == anchor_after_set(
                    pre.anchor@,
                    size,
                    encode_utf8(hash@),
                ) && post.same_but_anchor(&pre) && (r == Ok::<Reply, CmdError>(Reply::Done) <==>
                encode_utf8(hash@).len() == HASH_LEN) && (encode_utf8(hash@).len() != HASH_LEN
                    ==> r == Err::<Reply, CmdError>(CmdError::Anchor(AnchorError::InvalidHashLength))),
                DynamicManagerCmd::SetFromApp { apk } => post == pre && r == Ok::<Reply, CmdError>(
                    Reply::Delegate(CollabRequest::ExtractForAnchor { apk }),
                ),
                DynamicManagerCmd::Clear => r == Ok::<Reply, CmdError>(Reply::Done) && post.anchor@
                    is None && post.same_but_anchor(&pre),
            },
            KernelCmd::NotifyModuleMounted => post == pre && r == Ok::<Reply, CmdError>(
                Reply::Delegate(CollabRequest::NotifyModuleMounted),
            ),
        },
        Command::Init(x) => post == pre && r == Ok::<Reply, CmdError>(
            Reply::Delegate(CollabRequest::InitTrigger(x)),
        ),
        Command::Sepolicy(x) => post == pre && r == Ok::<Reply, CmdError>(
            Reply::Delegate(CollabRequest::Sepolicy(x)),
        ),
        Command::Profile(x) => post == pre && r == Ok::<Reply, CmdError>(
            Reply::Delegate(CollabRequest::Profile(x)),
        ),
        Command::Feature(x) => post == pre && r == Ok::<Reply, CmdError>(
            Reply::Delegate(CollabRequest::Feature(x)),
        ),
        Command::BootInfo(x) => post == pre && r == Ok::<Reply, CmdError>(
            Reply::Delegate(CollabRequest::BootInfo(x)),
        ),
        Command::Kpm(x) => post == pre && r == Ok::<Reply, CmdError>(
            Reply::Delegate(CollabRequest::Kpm(x)),
        ),
        Command::Debug(d) => match d {
            DebugCmd::SetManager { apk } => match r {
                Ok(Reply::Delegate(CollabRequest::SetManager { apk: a })) => post == pre && a@ == (
                match apk {
                    Some(s) => s@,
                    None => "com.resukisu.resukisu"@,
                }),
                _ => false,
            },
            DebugCmd::GetSign { apk } => post == pre && r == Ok::<Reply, CmdError>(
                Reply::Delegate(CollabRequest::GetSignature { apk }),
            ),
            DebugCmd::Su { global_mnt } => post == pre && r == Ok::<Reply, CmdError>(
                Reply::Delegate(CollabRequest::RootShell { global_mnt }),
            ),
            DebugCmd::Version => post == pre && r == Ok::<Reply, CmdError>(
                Reply::Delegate(CollabRequest::KernelVersion),
            ),
            DebugCmd::Test => post == pre && r == Ok::<Reply, CmdError>(
                Reply::Delegate(CollabRequest::EnsureBinaries),
            ),
            DebugCmd::Mark(mc) => match mc {
                MarkCmd::Get { pid } => if pid == 0 {
                    match r {
                        Ok(Reply::MarkCount(c)) => post == pre && c == pre.marks@.len(),
                        _ => false,
                    }
                } else {
                    match r {
                        Ok(Reply::Marked(b)) => post == pre && b == pre.marks@.contains(pid),
                        _ => false,
                    }
                },
                MarkCmd::Mark { pid } => if pid == 0 {
                    post == pre && r == Ok::<Reply, CmdError>(
                        Reply::Delegate(CollabRequest::ListProcesses { refresh: false }),
                    )
                } else {
                    r == Ok::<Reply, CmdError>(Reply::Done) && post.marks@ == pre.marks@.insert(pid)
                        && post.same_but_marks(&pre)
                },
                MarkCmd::Unmark { pid } => if pid == 0 {
                    r == Ok::<Reply, CmdError>(Reply::Done) && post.marks@ == Set::<i32>::empty()
                        && post.same_but_marks(&pre)
                } else {
                    r == Ok::<Reply, CmdError>(Reply::Done) && post.marks@ == pre.marks@.remove(pid)
                        && post.same_but_marks(&pre)
                },
                MarkCmd::Refresh => post == pre && r == Ok::<Reply, CmdError>(
                    Reply::Delegate(CollabRequest::ListProcesses { refresh: true }),
                ),
            },
        },
    }
}

/// Whether this request may only be dispatched after the execution context
/// has switched into the mount namespace of process 1: module operations
/// need filesystem visibility consistent with early boot.
pub fn requires_init_mount_namespace(cmd: &Command) -> (r: bool)
    ensures
        r == (cmd matches Command::Module(_)),
{
    match cmd {
        Command::Module(_) => true,
        _ => false,
    }
}

/// Route one decoded request: enforce its preconditions, run the one leaf
/// operation against the owned stores, or hand the work to a collaborator
/// with the stores untouched.
pub fn execute(plane: &mut ControlPlane, ctx: &Invocation, cmd: Command) -> (r: Result<
    Reply,
    CmdError,
>)
    requires
        old(plane).wf(),
    ensures
        final(plane).wf(),
        execute_post(*old(plane), *final(plane), *ctx, cmd, r),
{
    match cmd {
        Command::Module(m) => {
            if !ctx.ns_ready {
                return Err(CmdError::NamespaceSwitchFailed);
            }
            match m {
                ModuleCmd::Install { zip } => Ok(
                    Reply::Delegate(CollabRequest::ModuleInstall { zip }),
                ),
                ModuleCmd::UndoUninstall { id } => Ok(
                    Reply::Delegate(CollabRequest::ModuleUndoUninstall { id }),
                ),
                ModuleCmd::Uninstall { id } => Ok(
                    Reply::Delegate(CollabRequest::ModuleUninstall { id }),
                ),
                ModuleCmd::Enable { id } => Ok(Reply::Delegate(CollabRequest::ModuleEnable { id })),
                ModuleCmd::Disable { id } => Ok(
                    Reply::Delegate(CollabRequest::ModuleDisable { id }),
                ),
                ModuleCmd::Action { id } => Ok(Reply::Delegate(CollabRequest::ModuleAction { id })),
                ModuleCmd::List => Ok(Reply::Delegate(CollabRequest::ModuleList)),
                ModuleCmd::Config(c) => {
                    let id = match &ctx.module_id {
                        Some(s) => s,
                        None => {
                            return Err(CmdError::MissingModuleContext);
                        },
                    };
                    match c {
                        ConfigCmd::Get { key } => plane.config_get(id, &key),
                        ConfigCmd::SetVal { key, value, stdin, temp } => match value {
                            Some(v) => {
                                if !stdin {
                                    plane.config_set_value(id, &key, &v, temp)
                                } else {
                                    if !validate_key(&key) {
                                        Err(CmdError::Config(ConfigError::InvalidKey(key)))
                                    } else {
                                        Ok(
                                            Reply::Delegate(
                                                CollabRequest::ReadValueStream { key, temp },
                                            ),
                                        )
                                    }
                                }
                            },
                            None => {
                                if !validate_key(&key) {
                                    Err(CmdError::Config(ConfigError::InvalidKey(key)))
                                } else {
                                    Ok(
                                        Reply::Delegate(
                                            CollabRequest::ReadValueStream { key, temp },
                                        ),
                                    )
                                }
                            },
                        },
                        ConfigCmd::List => Ok(Reply::Entries(plane.config_list(id))),
                        ConfigCmd::Delete { key, temp } => Ok(plane.config_delete(id, &key, temp)),
                        ConfigCmd::Clear { temp } => Ok(plane.config_clear(id, temp)),
                    }
                },
            }
        },
        Command::UmountConfig(u) => match u {
            UmountConfigCmd::Add { mnt, flags } => {
                plane.umount_config.add(mnt, flags);
                Ok(Reply::Done)
            },
            UmountConfigCmd::Del { mnt } => {
                plane.umount_config.del(&mnt);
                Ok(Reply::Done)
            },
            UmountConfigCmd::Clear => {
                plane.umount_config.wipe();
                Ok(Reply::Done)
            },
            UmountConfigCmd::List => Ok(Reply::Mounts(plane.umount_config.list())),
        },
        Command::Kernel(kc) => match kc {
            KernelCmd::NukeExt4Sysfs { mnt } => Ok(
                Reply::Delegate(CollabRequest::NukeExt4Sysfs { mnt }),
            ),
            KernelCmd::Umount(u) => match u {
                UmountCmd::Add { mnt, flags } => {
                    plane.umount_live.add(mnt, flags);
                    Ok(Reply::Done)
                },
                UmountCmd::Del { mnt } => {
                    plane.umount_live.del(&mnt);
                    Ok(Reply::Done)
                },
                UmountCmd::Wipe => {
                    plane.umount_live.wipe();
                    Ok(Reply::Done)
                },
                UmountCmd::List => Ok(Reply::Json(plane.umount_live.list_json())),
            },
            KernelCmd::DynamicManager(d) => match d {
                DynamicManagerCmd::Get => Ok(Reply::Anchor { binding: plane.anchor.get() }),
                DynamicManagerCmd::SetRaw { size, hash } => plane.anchor_set(size, &hash),
                DynamicManagerCmd::SetFromApp { apk } => Ok(
                    Reply::Delegate(CollabRequest::ExtractForAnchor { apk }),
                ),
                DynamicManagerCmd::Clear => {
                    plane.anchor.clear();
                    Ok(Reply::Done)
                },
            },
            KernelCmd::NotifyModuleMounted => Ok(
                Reply::Delegate(CollabRequest::NotifyModuleMounted),
            ),
        },
        Command::Init(x) => Ok(Reply::Delegate(CollabRequest::InitTrigger(x))),
        Command::Sepolicy(x) => Ok(Reply::Delegate(CollabRequest::Sepolicy(x))),
        Command::Profile(x) => Ok(Reply::Delegate(CollabRequest::Profile(x))),
        Command::Feature(x) => Ok(Reply::Delegate(CollabRequest::Feature(x))),
        Command::BootInfo(x) => Ok(Reply::Delegate(CollabRequest::BootInfo(x))),
        Command::Kpm(x) => Ok(Reply::Delegate(CollabRequest::Kpm(x))),
        Command::Debug(d) => match d {
            DebugCmd::SetManager { apk } => {
                let resolved = match apk {
                    Some(s) => s,
                    None => String::from_str("com.resukisu.resukisu"),
                };
                Ok(Reply::Delegate(CollabRequest::SetManager { apk: resolved }))
            },
            DebugCmd::GetSign { apk } => Ok(Reply::Delegate(CollabRequest::GetSignature { apk })),
            DebugCmd::Su { global_mnt } => Ok(
                Reply::Delegate(CollabRequest::RootShell { global_mnt }),
            ),
            DebugCmd::Version => Ok(Reply::Delegate(CollabRequest::KernelVersion)),
            DebugCmd::Test => Ok(Reply::Delegate(CollabRequest::EnsureBinaries)),
            DebugCmd::Mark(mc) => match mc {
                MarkCmd::Get { pid } => {
                    if pid == 0 {
                        Ok(Reply::MarkCount(plane.marks.count()))
                    } else {
                        Ok(Reply::Marked(plane.marks.is_marked(pid)))
                    }
                },
                MarkCmd::Mark { pid } => {
                    if pid == 0 {
                        Ok(Reply::Delegate(CollabRequest::ListProcesses { refresh: false }))
                    } else {
                        plane.marks.mark_one(pid);
                        Ok(Reply::Done)
                    }
                },
                MarkCmd::Unmark { pid } => {
                    if pid == 0 {
                        plane.marks.unmark_all();
                        Ok(Reply::Done)
                    } else {
                        plane.marks.unmark_one(pid);
                        Ok(Reply::Done)
                    }
                },
                MarkCmd::Refresh => Ok(
                    Reply::Delegate(CollabRequest::ListProcesses { refresh: true }),
                ),
            },
        },
    }
}


} // verus!
