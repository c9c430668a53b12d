use vm_wizard::arch::Arch;
use vm_wizard::catalog::{ConfigRecord, Os};
use vm_wizard::creation::{Action, Creation, HostInfo, Message, Page};

fn rec(release: Option<&str>, edition: Option<&str>, arch: Arch) -> ConfigRecord {
    ConfigRecord {
        release: release.map(str::to_string),
        edition: edition.map(str::to_string),
        arch,
    }
}

fn names(v: &[&str]) -> Vec<String> {
    v.iter().map(|s| s.to_string()).collect()
}

fn alpine() -> Os {
    Os {
        pretty_name: "Alpine".to_string(),
        homepage: Some("https://alpinelinux.org".to_string()),
        releases: vec![
            rec(Some("3.18"), None, Arch::X86_64),
            rec(Some("3.18"), None, Arch::Aarch64),
            rec(Some("edge"), None, Arch::X86_64),
        ],
    }
}

fn ubuntu_like() -> Os {
    Os {
        pretty_name: "Ubuntu".to_string(),
        homepage: None,
        releases: vec![
            rec(Some("22.04"), Some("desktop"), Arch::X86_64),
            rec(Some("22.04"), Some("server"), Arch::X86_64),
            rec(Some("22.04"), Some("server"), Arch::Aarch64),
            rec(Some("24.04"), Some("desktop"), Arch::X86_64),
        ],
    }
}

fn host() -> HostInfo {
    HostInfo {
        ram_mib: 4096,
        cpu_cores: 4,
        directory: "/home/user/vms".to_string(),
    }
}

fn wizard_on(os: Os) -> Creation {
    let mut c = Creation::new();
    c.update(Message::OSList(Ok(vec![os.clone()])));
    c.update(Message::SelectedOS(os, host()));
    c
}

#[test]
fn loading_then_os_list() {
    let mut c = Creation::new();
    assert!(matches!(c.page, Page::Loading));
    assert!(c.os_list.is_empty());
    let act = c.update(Message::OSList(Ok(vec![alpine()])));
    assert_eq!(act, Action::Idle);
    assert!(matches!(c.page, Page::SelectOS));
    assert_eq!(c.os_list.len(), 1);
    assert_eq!(c.os_list[0].pretty_name, "Alpine");
}

#[test]
fn catalog_load_failure_is_terminal_error() {
    let mut c = Creation::new();
    c.update(Message::OSList(Err("mirror unreachable".to_string())));
    assert_eq!(c.page, Page::Error("mirror unreachable".to_string()));
    assert!(c.options.is_none());
}

#[test]
fn alpine_initial_lists() {
    let c = wizard_on(alpine());
    assert!(matches!(c.page, Page::Options));
    let o = c.options.as_ref().unwrap();
    assert_eq!(o.release_list, names(&["3.18", "edge"]));
    assert_eq!(o.arch_list, vec![Arch::X86_64, Arch::Aarch64]);
    assert_eq!(o.edition_list, None);
    assert_eq!(o.release, None);
    assert_eq!(o.edition, None);
    assert_eq!(o.arch, None);
    assert_eq!(o.cpu_cores, 4);
    assert_eq!(o.ram_mib, 4096);
    assert_eq!(o.directory, "/home/user/vms".to_string());
}

#[test]
fn arch_pick_narrows_releases() {
    let mut c = wizard_on(alpine());
    c.update(Message::SelectedArch(Arch::Aarch64));
    let o = c.options.as_ref().unwrap();
    assert_eq!(o.arch, Some(Arch::Aarch64));
    // "edge" exists only on x86_64, so it drops out of the offered list.
    assert_eq!(o.release_list, names(&["3.18"]));
}

#[test]
fn arch_pick_clears_unreachable_release() {
    let mut c = wizard_on(alpine());
    c.update(Message::SelectedRelease("edge".to_string()));
    assert_eq!(c.options.as_ref().unwrap().release, Some("edge".to_string()));
    c.update(Message::SelectedArch(Arch::Aarch64));
    let o = c.options.as_ref().unwrap();
    assert_eq!(o.arch, Some(Arch::Aarch64));
    assert_eq!(o.release, None);
    assert_eq!(o.release_list, names(&["3.18"]));
}

#[test]
fn unknown_release_is_cleared_at_once() {
    let mut c = wizard_on(alpine());
    c.update(Message::SelectedRelease("9.99".to_string()));
    let o = c.options.as_ref().unwrap();
    assert_eq!(o.release, None);
    assert_eq!(o.release_list, names(&["3.18", "edge"]));
}

#[test]
fn new_os_resets_selections() {
    let mut c = Creation::new();
    c.update(Message::OSList(Ok(vec![alpine(), ubuntu_like()])));
    c.update(Message::SelectedOS(alpine(), host()));
    c.update(Message::SelectedRelease("3.18".to_string()));
    c.update(Message::SelectedArch(Arch::Aarch64));
    assert_eq!(c.options.as_ref().unwrap().release, Some("3.18".to_string()));

    c.update(Message::SelectedOS(
        ubuntu_like(),
        HostInfo { ram_mib: 2048, cpu_cores: 2, directory: "/elsewhere".to_string() },
    ));
    let o = c.options.as_ref().unwrap();
    // Nothing carries over: the three selections reset and all three lists
    // come from the new records alone.
    assert_eq!(o.release, None);
    assert_eq!(o.edition, None);
    assert_eq!(o.arch, None);
    assert_eq!(o.release_list, names(&["22.04", "24.04"]));
    assert_eq!(o.edition_list, Some(names(&["desktop", "server"])));
    assert_eq!(o.arch_list, vec![Arch::X86_64, Arch::Aarch64]);
    // The numeric fields re-seed from the host, but the directory is the
    // one field that survives an operating-system change.
    assert_eq!(o.ram_mib, 2048);
    assert_eq!(o.cpu_cores, 2);
    assert_eq!(o.directory, "/home/user/vms".to_string());
}

#[test]
fn refresh_is_idempotent() {
    let mut c = wizard_on(ubuntu_like());
    c.update(Message::SelectedRelease("22.04".to_string()));
    c.update(Message::SelectedEdition("server".to_string()));
    let mut o = c.options.clone().unwrap();
    o.refresh();
    let once = o.clone();
    o.refresh();
    assert_eq!(o, once);
}

#[test]
fn clearing_arch_restores_lists() {
    let mut c = wizard_on(ubuntu_like());
    c.update(Message::SelectedRelease("22.04".to_string()));
    let before = c.options.clone().unwrap();

    c.update(Message::SelectedArch(Arch::Aarch64));
    let narrowed = c.options.clone().unwrap();
    assert_eq!(narrowed.release, Some("22.04".to_string()));
    assert_eq!(narrowed.edition_list, Some(names(&["server"])));

    let o = c.options.as_mut().unwrap();
    o.clear_arch();
    // The lists depend only on the currently set fields, not on the picks
    // in between: they return to exactly what they were before the
    // architecture was set.
    assert_eq!(o.release, before.release);
    assert_eq!(o.release_list, before.release_list);
    assert_eq!(o.edition_list, before.edition_list);
    assert_eq!(o.arch_list, before.arch_list);
}

#[test]
fn absent_edition_list_forces_clear() {
    let mut c = wizard_on(ubuntu_like());
    c.update(Message::SelectedEdition("desktop".to_string()));
    assert_eq!(
        c.options.as_ref().unwrap().edition,
        Some("desktop".to_string())
    );
    // Every aarch64 record is a "server" edition, so constraining to
    // aarch64 leaves no "desktop" anywhere: the edition is evicted, and
    // the offered editions narrow to what aarch64 has.
    c.update(Message::SelectedArch(Arch::Aarch64));
    let o = c.options.as_ref().unwrap();
    assert_eq!(o.arch, Some(Arch::Aarch64));
    assert_eq!(o.edition, None);
    assert_eq!(o.edition_list, Some(names(&["server"])));
}

#[test]
fn edition_list_goes_absent_and_clears() {
    let os = Os {
        pretty_name: "Mixed".to_string(),
        homepage: None,
        releases: vec![
            rec(Some("A"), Some("e1"), Arch::X86_64),
            rec(Some("B"), None, Arch::Aarch64),
        ],
    };
    let mut c = wizard_on(os);
    c.update(Message::SelectedEdition("e1".to_string()));
    assert_eq!(c.options.as_ref().unwrap().edition, Some("e1".to_string()));
    // On aarch64 no record has an edition at all: the list becomes absent,
    // and absence forces the selection clear.
    c.update(Message::SelectedArch(Arch::Aarch64));
    let o = c.options.as_ref().unwrap();
    assert_eq!(o.arch, Some(Arch::Aarch64));
    assert_eq!(o.edition, None);
    assert_eq!(o.edition_list, None);
    assert_eq!(o.release_list, names(&["B"]));
}

#[test]
fn edition_pick_evicts_conflicting_release() {
    let os = Os {
        pretty_name: "Paired".to_string(),
        homepage: None,
        releases: vec![
            rec(Some("A"), Some("x"), Arch::X86_64),
            rec(Some("B"), Some("e"), Arch::X86_64),
        ],
    };
    let mut c = wizard_on(os);
    c.update(Message::SelectedRelease("A".to_string()));
    // Under release A only edition "x" is offered, but the pick is
    // authoritative: choosing "e" evicts the conflicting release and then
    // survives, since it is offered once no release constrains the records.
    c.update(Message::SelectedEdition("e".to_string()));
    let o = c.options.as_ref().unwrap();
    assert_eq!(o.edition, Some("e".to_string()));
    assert_eq!(o.release, None);
    assert_eq!(o.release_list, names(&["B"]));
    assert_eq!(o.edition_list, Some(names(&["x", "e"])));
}

#[test]
fn numeric_and_directory_fields_are_independent() {
    let mut c = wizard_on(alpine());
    c.update(Message::SelectedRelease("3.18".to_string()));
    c.update(Message::SetRAM(8192));
    c.update(Message::SetCPUCores(8));
    c.update(Message::SelectedDir("/mnt/vms".to_string()));
    let o = c.options.as_ref().unwrap();
    assert_eq!(o.ram_mib, 8192);
    assert_eq!(o.cpu_cores, 8);
    assert_eq!(o.directory, "/mnt/vms".to_string());
    // No propagation: the catalog selections and lists are untouched.
    assert_eq!(o.release, Some("3.18".to_string()));
    assert_eq!(o.release_list, names(&["3.18", "edge"]));
}

#[test]
fn directory_pick_request_and_cancellation() {
    let mut c = wizard_on(alpine());
    let before = c.options.clone();
    let act = c.update(Message::SelectVMDir);
    assert_eq!(act, Action::PickDirectory);
    assert_eq!(c.options, before);
    // Cancellation comes back as a no-op event.
    let act = c.update(Message::Noop);
    assert_eq!(act, Action::Idle);
    assert_eq!(c.options, before);
}

#[test]
fn host_defaults_are_floored() {
    let mut c = Creation::new();
    c.update(Message::OSList(Ok(vec![alpine()])));
    c.update(Message::SelectedOS(
        alpine(),
        HostInfo { ram_mib: 0, cpu_cores: 0, directory: String::new() },
    ));
    let o = c.options.as_ref().unwrap();
    assert_eq!(o.cpu_cores, 1);
    assert_eq!(o.ram_mib, 256);
}

#[test]
fn build_readiness() {
    let mut c = wizard_on(alpine());
    assert!(!c.options.as_ref().unwrap().build_ready());
    c.update(Message::SelectedRelease("3.18".to_string()));
    assert!(!c.options.as_ref().unwrap().build_ready());
    // Alpine offers no editions, so release plus architecture is enough.
    c.update(Message::SelectedArch(Arch::Aarch64));
    assert!(c.options.as_ref().unwrap().build_ready());

    let mut c = wizard_on(ubuntu_like());
    c.update(Message::SelectedRelease("22.04".to_string()));
    c.update(Message::SelectedArch(Arch::X86_64));
    // Editions are offered here, so one must be picked too.
    assert!(!c.options.as_ref().unwrap().build_ready());
    c.update(Message::SelectedEdition("server".to_string()));
    assert!(c.options.as_ref().unwrap().build_ready());
}

#[test]
fn picks_before_os_selection_are_ignored() {
    let mut c = Creation::new();
    c.update(Message::OSList(Ok(vec![alpine()])));
    c.update(Message::SelectedRelease("3.18".to_string()));
    c.update(Message::SetRAM(1024));
    assert!(c.options.is_none());
    assert!(matches!(c.page, Page::SelectOS));
}
