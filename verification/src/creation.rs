use vstd::prelude::*;

use crate::arch::Arch;
use crate::catalog::{recs, ConfigIndex, Os};
use crate::selection::{
    arch_picked, edition_picked, release_picked, OptionSelection,
};

verus! {

/// What only the host can answer, read by the caller when an operating
/// system is chosen and handed in with the event: the recommended resource
/// defaults and the starting output directory.
#[derive(Clone, Debug, PartialEq)]
pub struct HostInfo {
    /// Recommended RAM for a new machine, in MiB.
    pub ram_mib: u64,
    /// Recommended number of CPU cores for a new machine.
    pub cpu_cores: usize,
    /// The directory new machines go to by default.
    pub directory: String,
}

/// Which screen the wizard is on.
#[derive(Clone, Debug, PartialEq)]
pub enum Page {
    Loading,
    SelectOS,
    Options,
    Error(String),
}

/// One event for the wizard: the catalog arriving, a pick of operating
/// system, release, edition, or architecture, a numeric or directory
/// assignment, or the request to open the directory picker. Events whose
/// payload the host produces (the catalog, the host defaults, the picked
/// directory) carry it as plain values.
#[derive(Debug, PartialEq)]
pub enum Message {
    /// Nothing to do; also what a cancelled directory pick comes back as.
    Noop,
    OSList(Result<Vec<Os>, String>),
    SelectedOS(Os, HostInfo),
    SelectedRelease(String),
    SelectedEdition(String),
    SelectedArch(Arch),
    /// Sets the RAM field, in MiB.
    SetRAM(u64),
    SetCPUCores(usize),
    /// Asks for the external directory picker to be opened.
    SelectVMDir,
    SelectedDir(String),
}

/// The outside work the caller owes after an update: nothing, or running
/// the external directory picker, whose outcome comes back as a
/// [`Message::SelectedDir`] or, on cancellation, a [`Message::Noop`].
#[derive(Clone, Copy, Debug, PartialEq, Eq, Structural)]
pub enum Action {
    Idle,
    PickDirectory,
}

/// The wizard: the catalog of operating systems once it has arrived, the
/// current screen, and the selection state once an operating system has
/// been chosen.
#[derive(Clone, Debug, PartialEq)]
pub struct Creation {
    pub os_list: Vec<Os>,
    pub page: Page,
    pub options: Option<OptionSelection>,
}

impl Creation {
    /// Selection state, when present, satisfies the engine invariant.
    pub open spec fn wf(self) -> bool {
        self.options matches Some(o) ==> o.consistent()
    }

    /// A fresh wizard: loading, no catalog, no selection state.
    pub fn new() -> (c: Creation)
        ensures
            c.os_list@.len() == 0,
            c.page is Loading,
            c.options is None,
            c.wf(),
    {
        Creation { os_list: Vec::new(), page: Page::Loading, options: None }
    }

    /// Handles one event to completion and says what outside work the
    /// caller owes. Catalog picks run the constraint cascade; numeric and
    /// directory assignments are direct and propagate nothing; choosing an
    /// operating system rebuilds the index and resets the three selections
    /// to none, with all three choice lists derived from the new records
    /// alone.
    pub fn update(&mut self, message: Message) -> (action: Action)
        ensures
            old(self).wf() ==> final(self).wf(),
            action == (if message is SelectVMDir {
                Action::PickDirectory
            } else {
                Action::Idle
            }),
            message is Noop || message is SelectVMDir ==> *final(self) == *old(self),
            message matches Message::OSList(r) ==> final(self).options == old(self).options
                && match r {
                Ok(list) => final(self).os_list == list && final(self).page is SelectOS,
                Err(e) => final(self).os_list == old(self).os_list && final(self).page
                    == Page::Error(e),
            },
            message matches Message::SelectedOS(os, host) ==> ({
                &&& final(self).os_list == old(self).os_list
                &&& final(self).page is Options
                &&& final(self).options matches Some(o)
                &&& o.index@ == recs(os.releases@)
                &&& o.release is None
                &&& o.edition is None
                &&& o.arch is None
                &&& o.consistent()
                &&& o.cpu_cores == (if host.cpu_cores >= 1 {
                    host.cpu_cores
                } else {
                    1
                })
                &&& o.ram_mib == (if host.ram_mib >= 256 {
                    host.ram_mib
                } else {
                    256
                })
                &&& o.directory@ == (match old(self).options {
                    Some(prev) => prev.directory@,
                    None => host.directory@,
                })
            }),
            message matches Message::SelectedRelease(r) ==> same_catalog_page(
                *old(self),
                *final(self),
            ) && (match old(self).options {
                Some(o) => final(self).options matches Some(p) && release_picked(o, p, r@),
                None => *final(self) == *old(self),
            }),
            message matches Message::SelectedEdition(e) ==> same_catalog_page(
                *old(self),
                *final(self),
            ) && (match old(self).options {
                Some(o) => final(self).options matches Some(p) && edition_picked(o, p, e@),
                None => *final(self) == *old(self),
            }),
            message matches Message::SelectedArch(a) ==> same_catalog_page(
                *old(self),
                *final(self),
            ) && (match old(self).options {
                Some(o) => final(self).options matches Some(p) && arch_picked(o, p, a),
                None => *final(self) == *old(self),
            }),
            message matches Message::SetRAM(v) ==> same_catalog_page(*old(self), *final(self))
                && (match old(self).options {
                Some(o) => final(self).options == Some(
                    OptionSelection { ram_mib: v, ..o },
                ),
                None => *final(self) == *old(self),
            }),
            message matches Message::SetCPUCores(v) ==> same_catalog_page(*old(self), *final(self))
                && (match old(self).options {
                Some(o) => final(self).options == Some(
                    OptionSelection { cpu_cores: v, ..o },
                ),
                None => *final(self) == *old(self),
            }),
            message matches Message::SelectedDir(d) ==> same_catalog_page(*old(self), *final(self))
                && (match old(self).options {
                Some(o) => final(self).options == Some(
                    OptionSelection { directory: d, ..o },
                ),
                None => *final(self) == *old(self),
            }),
    {
        match message {
            Message::Noop => Action::Idle,
            Message::OSList(list) => {
                match list {
                    Ok(os_list) => {
                        self.os_list = os_list;
                        self.page = Page::SelectOS;
                    },
                    Err(e) => {
                        self.page = Page::Error(e);
                    },
                }
                Action::Idle
            },
            Message::SelectedOS(os, host) => {
                let index = ConfigIndex::new(os.releases);
                let release_list = index.releases_for(None, &None);
                let edition_list = index.editions_for(None, &None);
                let arch_list = index.archs_for(&None, &None);
                let cpu_cores: usize = if host.cpu_cores >= 1 {
                    host.cpu_cores
                } else {
                    1
                };
                let ram_mib: u64 = if host.ram_mib >= 256 {
                    host.ram_mib
                } else {
                    256
                };
                // The directory is the one independent field that survives
                // an operating-system change; the host default seeds it
                // only the first time.
                let directory: String = match &self.options {
                    Some(prev) => prev.directory.clone(),
                    None => host.directory,
                };
                self.options = Some(
                    OptionSelection {
                        index,
                        release_list,
                        release: None,
                        edition_list,
                        edition: None,
                        arch_list,
                        arch: None,
                        cpu_cores,
                        ram_mib,
                        directory,
                    },
                );
                self.page = Page::Options;
                Action::Idle
            },
            Message::SelectedRelease(release) => {
                if let Some(options) = &mut self.options {
                    options.set_release(release);
                }
                Action::Idle
            },
            Message::SelectedEdition(edition) => {
                if let Some(options) = &mut self.options {
                    options.set_edition(edition);
                }
                Action::Idle
            },
            Message::SelectedArch(arch) => {
                if let Some(options) = &mut self.options {
                    options.set_arch(arch);
                }
                Action::Idle
            },
            Message::SetRAM(ram_mib) => {
                if let Some(options) = &mut self.options {
                    options.ram_mib = ram_mib;
                }
                Action::Idle
            },
            Message::SetCPUCores(cpu_cores) => {
                if let Some(options) = &mut self.options {
                    options.cpu_cores = cpu_cores;
                }
                Action::Idle
            },
            Message::SelectVMDir => Action::PickDirectory,
            Message::SelectedDir(directory) => {
                if let Some(options) = &mut self.options {
                    options.directory = directory;
                }
                Action::Idle
            },
        }
    }
}

/// The catalog list and the page are untouched.
pub open spec fn same_catalog_page(pre: Creation, post: Creation) -> bool {
    post.os_list == pre.os_list && post.page == pre.page
}

} // verus!
