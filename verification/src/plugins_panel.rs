//! The plugins panel: one row per installed plugin, with its manifest's
//! name, version, worlds and the capabilities the user approved, and how its
//! last load went.

use vstd::prelude::*;
use crate::problem::{concat, Problem};
use crate::text::{join_with, joined, str_eq, views_of};

verus! {

/// The panel's window title.
pub const PANEL_TITLE: &'static str = "Plugins";

/// What the list shows when nothing is installed.
pub const EMPTY_LABEL: &'static str = "No plugins installed";

/// What the capabilities column shows for a plugin that asks for nothing
/// beyond the bare sandbox.
pub const NO_CAPABILITIES: &'static str = "sandboxed";

/// How a plugin's last load went.
pub enum LoadStatus {
    /// Switched off, so it was never loaded.
    Disabled,
    /// Enabled, but no load has been attempted in this process yet.
    NotLoaded,
    /// The last load succeeded, and this is what it contributed.
    Loaded { generation: u64, commands: usize, effects: usize, tools: usize },
    /// The last load or hot reload failed; `generation` counts the loads
    /// that succeeded before.
    Failed { generation: u64, error: Problem },
}

/// The word the status column shows.
pub open spec fn status_label(s: LoadStatus) -> Seq<char> {
    match s {
        LoadStatus::Disabled => "disabled"@,
        LoadStatus::NotLoaded => "not loaded"@,
        LoadStatus::Loaded { .. } => "loaded"@,
        LoadStatus::Failed { .. } => "failed"@,
    }
}

impl LoadStatus {
    /// The short word the status column shows.
    pub fn label(&self) -> (r: &'static str)
        ensures
            r@ == status_label(*self),
    {
        match self {
            LoadStatus::Disabled => "disabled",
            LoadStatus::NotLoaded => "not loaded",
            LoadStatus::Loaded { .. } => "loaded",
            LoadStatus::Failed { .. } => "failed",
        }
    }

    /// Whether the last attempt to load failed.
    pub fn is_failed(&self) -> (r: bool)
        ensures
            r == (*self is Failed),
    {
        match self {
            LoadStatus::Failed { .. } => true,
            _ => false,
        }
    }

    /// The failure, when there is one.
    pub fn error(&self) -> (r: Option<&Problem>)
        ensures
            match r {
                Some(e) => *self matches LoadStatus::Failed { error, .. } && *e == error,
                None => !(*self is Failed),
            },
    {
        match self {
            LoadStatus::Failed { error, .. } => Some(error),
            _ => None,
        }
    }
}

/// What the host knows of one plugin's loads in this process.
pub struct ReloadStatus {
    /// The plugin it is about.
    pub id: String,
    /// How many times it has loaded.
    pub generation: u64,
    /// Menu commands the loaded version registers.
    pub commands: usize,
    /// Effects it declares.
    pub effects: usize,
    /// MCP tools it contributes.
    pub tools: usize,
    /// Whether it is a watched development install.
    pub dev: bool,
    /// Why the last attempt failed, when it did.
    pub error: Option<Problem>,
}

/// What a plugin asked the sandbox for.
pub struct Capabilities {
    /// Directories it may read.
    pub fs_read: Vec<String>,
    /// Directories it may write.
    pub fs_write: Vec<String>,
    /// Whether it may use the network.
    pub network: bool,
    /// Whether it may compile shaders.
    pub shaders: bool,
}

/// How a plugin last loaded, given whether it is switched on and the status
/// the host kept for it: a failure shows whatever the switch, a plugin the
/// host never tried is disabled or not loaded by its switch.
pub open spec fn load_status_of(enabled: bool, status: Option<ReloadStatus>) -> LoadStatus {
    match status {
        None => if enabled {
            LoadStatus::NotLoaded
        } else {
            LoadStatus::Disabled
        },
        Some(s) => match s.error {
            Some(e) => LoadStatus::Failed { generation: s.generation, error: e },
            None => if !enabled {
                LoadStatus::Disabled
            } else {
                LoadStatus::Loaded {
                    generation: s.generation,
                    commands: s.commands,
                    effects: s.effects,
                    tools: s.tools,
                }
            },
        },
    }
}

/// How a plugin last loaded.
pub fn load_status(enabled: bool, status: Option<ReloadStatus>) -> (r: LoadStatus)
    ensures
        r == load_status_of(enabled, status),
{
    match status {
        None => if enabled {
            LoadStatus::NotLoaded
        } else {
            LoadStatus::Disabled
        },
        Some(s) => match s.error {
            Some(e) => LoadStatus::Failed { generation: s.generation, error: e },
            None => if !enabled {
                LoadStatus::Disabled
            } else {
                LoadStatus::Loaded {
                    generation: s.generation,
                    commands: s.commands,
                    effects: s.effects,
                    tools: s.tools,
                }
            },
        },
    }
}

/// One installed plugin as the panel shows it.
pub struct PluginRow {
    /// The plugin's id.
    pub id: String,
    /// The display name from its manifest.
    pub name: String,
    /// Its own version.
    pub version: String,
    /// The directory holding its manifest.
    pub directory: String,
    /// Whether it is switched on.
    pub enabled: bool,
    /// Whether it is a development install.
    pub dev: bool,
    /// The worlds its manifest declares, by name.
    pub worlds: Vec<String>,
    /// What it asked the sandbox for.
    pub capabilities: Capabilities,
    /// How its last load went.
    pub status: LoadStatus,
}

/// An installed plugin as the scan found it, with what its manifest says.
pub struct ScannedPlugin {
    /// The plugin's id.
    pub id: String,
    /// The display name from its manifest.
    pub name: String,
    /// Its own version.
    pub version: String,
    /// The directory holding its manifest.
    pub directory: String,
    /// Whether it is switched on.
    pub enabled: bool,
    /// Whether it is linked in for development.
    pub dev: bool,
    /// The worlds its manifest declares, by name.
    pub worlds: Vec<String>,
    /// What it asked the sandbox for.
    pub capabilities: Capabilities,
}

/// The status the host keeps for the plugin `id`: with several, the last
/// one given wins, as a map keyed by id keeps the last insert.
pub fn status_for(statuses: &[ReloadStatus], id: &str) -> (r: Option<usize>)
    ensures
        match r {
            Some(k) => k < statuses@.len() && statuses@[k as int].id@ == id@ && forall|j: int|
                k < j < statuses@.len() ==> (#[trigger] statuses@[j]).id@ != id@,
            None => forall|j: int|
                0 <= j < statuses@.len() ==> (#[trigger] statuses@[j]).id@ != id@,
        },
{
    let mut i: usize = statuses.len();
    while i > 0
        invariant
            i <= statuses@.len(),
            forall|j: int| i <= j < statuses@.len() ==> (#[trigger] statuses@[j]).id@ != id@,
        decreases i,
    {
        i = i - 1;
        if str_eq(statuses[i].id.as_str(), id) {
            return Some(i);
        }
    }
    None
}

/// What the capabilities column says: each grant in a fixed order, or that
/// the plugin is sandboxed when it asks for nothing.
pub open spec fn capability_parts(c: Capabilities) -> Seq<Seq<char>> {
    (if c.fs_read@.len() > 0 {
        seq!["read "@ + joined(views_of(c.fs_read@), " "@)]
    } else {
        Seq::empty()
    }) + (if c.fs_write@.len() > 0 {
        seq!["write "@ + joined(views_of(c.fs_write@), " "@)]
    } else {
        Seq::empty()
    }) + (if c.network {
        seq!["network"@]
    } else {
        Seq::empty()
    }) + (if c.shaders {
        seq!["shaders"@]
    } else {
        Seq::empty()
    })
}

impl PluginRow {
    /// The row for `plugin`, given the status the host kept for it: a dev
    /// install is one the scan or the host says is.
    pub fn new(plugin: ScannedPlugin, status: Option<ReloadStatus>) -> (r: PluginRow)
        ensures
            r.id == plugin.id,
            r.name == plugin.name,
            r.version == plugin.version,
            r.directory == plugin.directory,
            r.enabled == plugin.enabled,
            r.dev == (plugin.dev || (status matches Some(s) && s.dev)),
            r.worlds == plugin.worlds,
            r.capabilities == plugin.capabilities,
            r.status == load_status_of(plugin.enabled, status),
    {
        let dev = plugin.dev || match &status {
            Some(s) => s.dev,
            None => false,
        };
        let status = load_status(plugin.enabled, status);
        PluginRow {
            id: plugin.id,
            name: plugin.name,
            version: plugin.version,
            directory: plugin.directory,
            enabled: plugin.enabled,
            dev,
            worlds: plugin.worlds,
            capabilities: plugin.capabilities,
            status,
        }
    }

    /// The worlds as one comma-separated line.
    pub fn worlds_label(&self) -> (r: String)
        ensures
            r@ == joined(views_of(self.worlds@), ", "@),
    {
        join_with(self.worlds.as_slice(), ", ")
    }

    /// What the plugin asked the sandbox for, as one line; directories are
    /// named rather than counted.
    pub fn capabilities_label(&self) -> (r: String)
        ensures
            r@ == if capability_parts(self.capabilities).len() == 0 {
                NO_CAPABILITIES@
            } else {
                joined(capability_parts(self.capabilities), ", "@)
            },
    {
        let c = &self.capabilities;
        let mut parts: Vec<String> = Vec::new();
        if c.fs_read.len() > 0 {
            parts.push(concat("read ", join_with(c.fs_read.as_slice(), " ").as_str()));
        }
        if c.fs_write.len() > 0 {
            parts.push(concat("write ", join_with(c.fs_write.as_slice(), " ").as_str()));
        }
        if c.network {
            parts.push("network".to_string());
        }
        if c.shaders {
            parts.push("shaders".to_string());
        }
        assert(views_of(parts@) =~= capability_parts(*c));
        if parts.len() == 0 {
            return NO_CAPABILITIES.to_string();
        }
        join_with(parts.as_slice(), ", ")
    }

    /// The heading line: name, version and, for a dev install, that it is
    /// one.
    pub fn title(&self) -> (r: String)
        ensures
            r@ == self.name@ + " "@ + self.version@ + if self.dev {
                " (dev)"@
            } else {
                Seq::<char>::empty()
            },
    {
        let head = concat(self.name.as_str(), " ");
        let t = concat(head.as_str(), self.version.as_str());
        if self.dev {
            concat(t.as_str(), " (dev)")
        } else {
            proof {
                assert(t@ =~= t@ + Seq::<char>::empty());
            }
            t
        }
    }
}

/// A directory that would not scan, and why.
pub struct LoadFailure {
    /// The directory.
    pub path: String,
    /// Why it would not load.
    pub error: Problem,
}

/// The plugins panel: one row per installed plugin, plus one per directory
/// that would not scan.
pub struct PluginsPanel {
    /// Whether the window is showing.
    pub open: bool,
    rows: Vec<PluginRow>,
    failures: Vec<LoadFailure>,
}

impl PluginsPanel {
    /// Whether the window is showing.
    pub closed spec fn spec_open(&self) -> bool {
        self.open
    }

    /// The rows, in the scan's id order.
    pub closed spec fn spec_rows(&self) -> Seq<PluginRow> {
        self.rows@
    }

    /// The directories that would not scan.
    pub closed spec fn spec_failures(&self) -> Seq<LoadFailure> {
        self.failures@
    }

    /// A closed panel with nothing in it.
    pub fn new() -> (r: PluginsPanel)
        ensures
            !r.spec_open(),
            r.spec_rows().len() == 0,
            r.spec_failures().len() == 0,
    {
        PluginsPanel { open: false, rows: Vec::new(), failures: Vec::new() }
    }

    /// Opens the panel if it is closed, and closes it if it is open.
    pub fn toggle(&mut self)
        ensures
            final(self).spec_open() == !old(self).spec_open(),
            final(self).spec_rows() == old(self).spec_rows(),
            final(self).spec_failures() == old(self).spec_failures(),
    {
        self.open = !self.open;
    }

    /// The list built straight from rows.
    pub fn set_rows(&mut self, rows: Vec<PluginRow>, failures: Vec<LoadFailure>)
        ensures
            final(self).spec_open() == old(self).spec_open(),
            final(self).spec_rows() == rows@,
            final(self).spec_failures() == failures@,
    {
        self.rows = rows;
        self.failures = failures;
    }

    /// The installed plugins.
    pub fn rows(&self) -> (r: &[PluginRow])
        ensures
            r@ == self.spec_rows(),
    {
        self.rows.as_slice()
    }

    /// The directories that would not scan.
    pub fn failures(&self) -> (r: &[LoadFailure])
        ensures
            r@ == self.spec_failures(),
    {
        self.failures.as_slice()
    }

    /// The row for one plugin, if it is installed: the first with its id.
    pub fn row(&self, id: &str) -> (r: Option<&PluginRow>)
        ensures
            match r {
                Some(row) => exists|i: int|
                    0 <= i < self.spec_rows().len() && *row == self.spec_rows()[i] && row.id@ == id@
                        && forall|j: int| 0 <= j < i ==> (#[trigger] self.spec_rows()[j]).id@ != id@,
                None => forall|i: int| 0 <= i < self.spec_rows().len() ==> (#[trigger] self.spec_rows()[i]).id@ != id@,
            },
    {
        let mut i: usize = 0;
        while i < self.rows.len()
            invariant
                i <= self.rows@.len(),
                forall|j: int| 0 <= j < i ==> (#[trigger] self.rows@[j]).id@ != id@,
            decreases self.rows@.len() - i,
        {
            if str_eq(self.rows[i].id.as_str(), id) {
                return Some(&self.rows[i]);
            }
            i = i + 1;
        }
        None
    }

    /// Whether anything at all is installed or broken.
    pub fn is_empty(&self) -> (r: bool)
        ensures
            r == (self.spec_rows().len() == 0 && self.spec_failures().len() == 0),
    {
        self.rows.len() == 0 && self.failures.len() == 0
    }

    /// Whether anything on the list needs attention: a directory that would
    /// not scan, or a plugin whose last load failed.
    pub fn has_problems(&self) -> (r: bool)
        ensures
            r == (self.spec_failures().len() > 0 || exists|i: int|
                0 <= i < self.spec_rows().len() && (#[trigger] self.spec_rows()[i]).status is Failed),
    {
        if self.failures.len() > 0 {
            return true;
        }
        let mut i: usize = 0;
        while i < self.rows.len()
            invariant
                i <= self.rows@.len(),
                self.failures@.len() == 0,
                forall|j: int| 0 <= j < i ==> !((#[trigger] self.rows@[j]).status is Failed),
            decreases self.rows@.len() - i,
        {
            if self.rows[i].status.is_failed() {
                return true;
            }
            i = i + 1;
        }
        false
    }
}

} // verus!
