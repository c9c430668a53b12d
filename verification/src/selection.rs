use vstd::prelude::*;

use crate::arch::Arch;
use crate::catalog::{
    arch_present, archs_of, contains_arch, contains_str, editions_of, lemma_arch_present_monotone,
    lemma_archs_of_members, lemma_editions_of_membership, lemma_editions_of_monotone,
    lemma_releases_of_membership, lemma_releases_of_monotone, opt_chars, rec_matches, releases_of,
    strs, ConfigIndex, RecordView,
};

verus! {

/// The mutable heart of the engine: the three catalog-derived selections
/// with their valid-choice lists, the two independent numeric settings,
/// and the output directory.
#[derive(Clone, Debug, PartialEq)]
pub struct OptionSelection {
    /// The index over the chosen operating system's records.
    pub index: ConfigIndex,
    /// Valid release names under the current arch and edition selections.
    pub release_list: Vec<String>,
    /// The selected release, if any.
    pub release: Option<String>,
    /// Valid edition names under the current arch and release selections;
    /// absent, not empty, when no matching record has an edition.
    pub edition_list: Option<Vec<String>>,
    /// The selected edition, if any.
    pub edition: Option<String>,
    /// Architectures present under the current release and edition
    /// selections, in the fixed canonical order.
    pub arch_list: Vec<Arch>,
    /// The selected architecture, if any.
    pub arch: Option<Arch>,
    /// CPU cores to give the machine; independent, never touched by the
    /// cascade.
    pub cpu_cores: usize,
    /// RAM to give the machine, in MiB; independent, never touched by the
    /// cascade.
    pub ram_mib: u64,
    /// Where to put the built image; independent, never touched by the
    /// cascade.
    pub directory: String,
}

impl OptionSelection {
    /// The selected release as characters.
    pub open spec fn release_chars(self) -> Option<Seq<char>> {
        opt_chars(self.release)
    }

    /// The selected edition as characters.
    pub open spec fn edition_chars(self) -> Option<Seq<char>> {
        opt_chars(self.edition)
    }

    /// The edition choice list as characters, if present.
    pub open spec fn edition_list_chars(self) -> Option<Seq<Seq<char>>> {
        match self.edition_list {
            Some(l) => Some(strs(l@)),
            None => None,
        }
    }

    /// The three choice lists are exactly the projections of the catalog
    /// filtered by the other two selections — never by the field the list
    /// is for — and the edition list is absent exactly when its projection
    /// is empty.
    pub open spec fn lists_consistent(self) -> bool {
        &&& strs(self.release_list@) == releases_of(self.index@, self.arch, self.edition_chars())
        &&& (self.edition_list is None <==> editions_of(
            self.index@,
            self.arch,
            self.release_chars(),
        ).len() == 0)
        &&& (self.edition_list matches Some(l) ==> strs(l@) == editions_of(
            self.index@,
            self.arch,
            self.release_chars(),
        ))
        &&& self.arch_list@ == archs_of(self.index@, self.release_chars(), self.edition_chars())
    }

    /// Every set selection appears in its own choice list.
    pub open spec fn selections_valid(self) -> bool {
        &&& (self.release matches Some(r) ==> strs(self.release_list@).contains(r@))
        &&& (self.edition matches Some(e) ==> (self.edition_list matches Some(l) && strs(
            l@,
        ).contains(e@)))
        &&& (self.arch matches Some(a) ==> self.arch_list@.contains(a))
    }

    /// The state invariant that holds after every engine run: the choice
    /// lists are derived from the catalog and the other selections, and no
    /// selection is outside its list.
    pub open spec fn consistent(self) -> bool {
        self.lists_consistent() && self.selections_valid()
    }

    /// How many of the three catalog fields are set.
    pub open spec fn set_field_count(self) -> nat {
        (if self.release is Some {
            1 as nat
        } else {
            0 as nat
        }) + (if self.edition is Some {
            1 as nat
        } else {
            0 as nat
        }) + (if self.arch is Some {
            1 as nat
        } else {
            0 as nat
        })
    }
}

/// The catalog index, the numeric settings and the directory are the same
/// in both states: the cascade never touches them.
pub open spec fn keeps_environment(pre: OptionSelection, post: OptionSelection) -> bool {
    &&& post.index@ == pre.index@
    &&& post.cpu_cores == pre.cpu_cores
    &&& post.ram_mib == pre.ram_mib
    &&& post.directory@ == pre.directory@
}

/// The selection is either untouched or cleared to `None`.
pub open spec fn narrows_str(post: Option<String>, pre: Option<String>) -> bool {
    post is None || opt_chars(post) == opt_chars(pre)
}

/// The selection is either untouched or cleared to `None`.
pub open spec fn narrows_arch(post: Option<Arch>, pre: Option<Arch>) -> bool {
    post is None || post == pre
}

/// The two states hold the same values everywhere, up to the characters of
/// their strings.
pub open spec fn same_state(a: OptionSelection, b: OptionSelection) -> bool {
    &&& keeps_environment(a, b)
    &&& opt_chars(a.release) == opt_chars(b.release)
    &&& strs(a.release_list@) == strs(b.release_list@)
    &&& opt_chars(a.edition) == opt_chars(b.edition)
    &&& a.edition_list_chars() == b.edition_list_chars()
    &&& a.arch == b.arch
    &&& a.arch_list@ == b.arch_list@
}

/// What the cascade leaves of a release selection: it survives exactly
/// when it is offered under the starting architecture and edition
/// constraints, and is cleared in the first pass otherwise.
pub open spec fn release_fate(
    cat: Seq<RecordView>,
    release: Option<Seq<char>>,
    arch: Option<Arch>,
    edition: Option<Seq<char>>,
) -> Option<Seq<char>> {
    match release {
        Some(r) => if releases_of(cat, arch, edition).contains(r) {
            Some(r)
        } else {
            None
        },
        None => None,
    }
}

/// What the cascade leaves of an edition selection: it survives exactly
/// when it is offered under the starting architecture and whatever release
/// the first pass leaves standing (`release_left`), and is cleared
/// otherwise — in particular whenever the edition list goes absent.
pub open spec fn edition_fate(
    cat: Seq<RecordView>,
    edition: Option<Seq<char>>,
    arch: Option<Arch>,
    release_left: Option<Seq<char>>,
) -> Option<Seq<char>> {
    match edition {
        Some(e) => if editions_of(cat, arch, release_left).contains(e) {
            Some(e)
        } else {
            None
        },
        None => None,
    }
}

/// What the cascade leaves of an architecture selection: it survives
/// exactly when some record of the catalog has that architecture at all,
/// because any release or edition that excluded it is itself evicted
/// first.
pub open spec fn arch_fate(cat: Seq<RecordView>, arch: Option<Arch>) -> Option<Arch> {
    match arch {
        Some(a) => if arch_present(cat, None, None, a) {
            Some(a)
        } else {
            None
        },
        None => None,
    }
}

/// No pass of the cascade has touched the three selections yet.
spec fn untouched(s: OptionSelection, o: OptionSelection) -> bool {
    s.release == o.release && s.edition == o.edition && s.arch == o.arch
}

/// The loop measure of the cascade: every pass that changes something
/// clears at least one field, and the pass after the last change is final.
spec fn refresh_measure(s: OptionSelection, changed: bool) -> nat {
    s.set_field_count() + if changed {
        1 as nat
    } else {
        0 as nat
    }
}

impl OptionSelection {
    /// Recomputes the three choice lists and evicts now-invalid selections,
    /// cascading until a fixed point is reached.
    ///
    /// Each pass recomputes a field's choice list from the catalog filtered
    /// by the other two selections and clears the field if its value is no
    /// longer offered; clearing widens the other lists, so passes repeat
    /// until nothing changes. Selections are only ever cleared, never set,
    /// and each one's fate is exact: the release survives iff offered under
    /// the starting constraints, the edition iff offered beside whatever
    /// the release check leaves, and the architecture iff any record has it
    /// at all. A state already consistent is left unchanged, which makes
    /// the cascade idempotent.
    pub fn refresh(&mut self)
        ensures
            keeps_environment(*old(self), *final(self)),
            final(self).consistent(),
            narrows_str(final(self).release, old(self).release),
            narrows_str(final(self).edition, old(self).edition),
            narrows_arch(final(self).arch, old(self).arch),
            opt_chars(final(self).release) == release_fate(
                old(self).index@,
                old(self).release_chars(),
                old(self).arch,
                old(self).edition_chars(),
            ),
            opt_chars(final(self).edition) == edition_fate(
                old(self).index@,
                old(self).edition_chars(),
                old(self).arch,
                release_fate(
                    old(self).index@,
                    old(self).release_chars(),
                    old(self).arch,
                    old(self).edition_chars(),
                ),
            ),
            final(self).arch == arch_fate(old(self).index@, old(self).arch),
            old(self).consistent() ==> same_state(*final(self), *old(self)),
    {
        let ghost cat = old(self).index@;
        let ghost rfate = release_fate(
            cat,
            old(self).release_chars(),
            old(self).arch,
            old(self).edition_chars(),
        );
        let ghost efate = edition_fate(cat, old(self).edition_chars(), old(self).arch, rfate);
        let ghost afate = arch_fate(cat, old(self).arch);
        let mut changed = true;
        while changed
            invariant
                keeps_environment(*old(self), *self),
                cat == old(self).index@,
                rfate == release_fate(
                    cat,
                    old(self).release_chars(),
                    old(self).arch,
                    old(self).edition_chars(),
                ),
                efate == edition_fate(cat, old(self).edition_chars(), old(self).arch, rfate),
                afate == arch_fate(cat, old(self).arch),
                narrows_str(self.release, old(self).release),
                narrows_str(self.edition, old(self).edition),
                narrows_arch(self.arch, old(self).arch),
                rfate is Some ==> opt_chars(self.release) == rfate,
                old(self).release is Some && rfate is None ==> (untouched(*self, *old(self))
                    || self.release is None),
                efate is Some ==> opt_chars(self.edition) == efate,
                old(self).edition is Some && efate is None ==> (untouched(*self, *old(self))
                    || self.edition is None),
                afate is Some ==> self.arch == old(self).arch,
                old(self).consistent() ==> same_state(*self, *old(self)),
                !changed ==> self.consistent(),
            decreases refresh_measure(*self, changed),
        {
            changed = false;
            let ghost pre = *self;

            let releases = self.index.releases_for(self.arch, &self.edition);
            proof {
                if rfate is Some {
                    lemma_releases_of_monotone(
                        cat,
                        old(self).arch,
                        old(self).edition_chars(),
                        pre.arch,
                        opt_chars(pre.edition),
                        old(self).release->0@,
                    );
                }
            }
            let mut cleared_release = false;
            match &self.release {
                Some(r) => {
                    if !contains_str(&releases, r) {
                        cleared_release = true;
                    }
                },
                None => {},
            }
            if cleared_release {
                self.release = None;
                changed = true;
            }
            self.release_list = releases;

            let editions = self.index.editions_for(self.arch, &self.release);
            proof {
                if efate is Some {
                    if self.release is Some {
                        assert(rfate == opt_chars(self.release));
                    }
                    lemma_editions_of_monotone(
                        cat,
                        old(self).arch,
                        rfate,
                        pre.arch,
                        opt_chars(self.release),
                        old(self).edition->0@,
                    );
                }
            }
            let mut cleared_edition = false;
            match (&self.edition, &editions) {
                (Some(e), Some(el)) => {
                    if !contains_str(el, e) {
                        cleared_edition = true;
                    }
                },
                (Some(_), None) => {
                    cleared_edition = true;
                },
                _ => {},
            }
            if cleared_edition {
                self.edition = None;
                changed = true;
            }
            self.edition_list = editions;

            let archs = self.index.archs_for(&self.release, &self.edition);
            proof {
                // An architecture present anywhere in the catalog is present
                // under the selections the pass leaves standing: whatever
                // release or edition survived its own check this pass did so
                // under the architecture constraint, so some record carries
                // both it and the architecture.
                if afate is Some && self.arch is Some {
                    let a0 = old(self).arch->0;
                    let rel_now = opt_chars(self.release);
                    let ed_now = opt_chars(self.edition);
                    if self.release is Some {
                        let rv = self.release->0@;
                        lemma_releases_of_membership(cat, pre.arch, opt_chars(pre.edition), rv);
                        let i = choose|i: int|
                            0 <= i < cat.len() && rec_matches(
                                #[trigger] cat[i],
                                pre.arch,
                                None,
                                opt_chars(pre.edition),
                            ) && cat[i].release == Some(rv);
                        assert(rec_matches(cat[i], None, rel_now, ed_now) && cat[i].arch == a0);
                        assert(arch_present(cat, rel_now, ed_now, a0));
                    } else if self.edition is Some {
                        let ev = self.edition->0@;
                        lemma_editions_of_membership(cat, pre.arch, rel_now, ev);
                        let j = choose|j: int|
                            0 <= j < cat.len() && rec_matches(
                                #[trigger] cat[j],
                                pre.arch,
                                rel_now,
                                None,
                            ) && cat[j].edition == Some(ev);
                        assert(rec_matches(cat[j], None, rel_now, ed_now) && cat[j].arch == a0);
                        assert(arch_present(cat, rel_now, ed_now, a0));
                    } else {
                        assert(arch_present(cat, rel_now, ed_now, a0));
                    }
                    lemma_archs_of_members(cat, rel_now, ed_now);
                }
            }
            let mut cleared_arch = false;
            match self.arch {
                Some(a) => {
                    if !contains_arch(&archs, a) {
                        cleared_arch = true;
                    }
                },
                None => {},
            }
            if cleared_arch {
                self.arch = None;
                changed = true;
            }
            self.arch_list = archs;
        }
        proof {
            // A selection the cascade owes a clearing to cannot have
            // survived: an untouched final state would be consistent with
            // the starting lists, which do not offer it.
            if old(self).release is Some && rfate is None && self.release is Some {
                assert(untouched(*self, *old(self)));
                assert(releases_of(cat, old(self).arch, old(self).edition_chars()).contains(
                    old(self).release->0@,
                ));
                assert(false);
            }
            if old(self).edition is Some && efate is None && self.edition is Some {
                assert(untouched(*self, *old(self)));
                if old(self).release is Some && rfate is None {
                    assert(releases_of(cat, old(self).arch, old(self).edition_chars()).contains(
                        old(self).release->0@,
                    ));
                    assert(false);
                }
                assert(rfate == old(self).release_chars());
                assert(editions_of(cat, old(self).arch, rfate).contains(old(self).edition->0@));
                assert(false);
            }
            if old(self).arch is Some && afate is None && self.arch is Some {
                lemma_archs_of_members(cat, opt_chars(self.release), opt_chars(self.edition));
                lemma_arch_present_monotone(
                    cat,
                    opt_chars(self.release),
                    opt_chars(self.edition),
                    None,
                    None,
                    self.arch->0,
                );
                assert(false);
            }
        }
    }
}

/// What picking a release does: the pick survives exactly when the catalog
/// offered it under the constraints in force at the pick, and the fates of
/// the other two selections are pinned as for any cascade.
pub open spec fn release_picked(pre: OptionSelection, post: OptionSelection, r: Seq<char>) -> bool {
    let rf = release_fate(pre.index@, Some(r), pre.arch, pre.edition_chars());
    &&& keeps_environment(pre, post)
    &&& post.consistent()
    &&& opt_chars(post.release) == rf
    &&& opt_chars(post.edition) == edition_fate(pre.index@, pre.edition_chars(), pre.arch, rf)
    &&& post.arch == arch_fate(pre.index@, pre.arch)
}

/// What picking an edition does: the pick survives exactly when the
/// catalog offers it under the architecture in force and whatever release
/// the new edition constraint leaves standing; the release survives
/// exactly when it is offered under the new edition.
pub open spec fn edition_picked(pre: OptionSelection, post: OptionSelection, e: Seq<char>) -> bool {
    let rf = release_fate(pre.index@, pre.release_chars(), pre.arch, Some(e));
    &&& keeps_environment(pre, post)
    &&& post.consistent()
    &&& opt_chars(post.release) == rf
    &&& opt_chars(post.edition) == edition_fate(pre.index@, Some(e), pre.arch, rf)
    &&& post.arch == arch_fate(pre.index@, pre.arch)
}

/// What picking an architecture does: the pick survives exactly when some
/// record of the catalog has that architecture at all — also when the
/// selections in force at the pick excluded it, since those are evicted by
/// the cascade; the release survives exactly when it is offered under the
/// new architecture.
pub open spec fn arch_picked(pre: OptionSelection, post: OptionSelection, a: Arch) -> bool {
    let rf = release_fate(pre.index@, pre.release_chars(), Some(a), pre.edition_chars());
    &&& keeps_environment(pre, post)
    &&& post.consistent()
    &&& opt_chars(post.release) == rf
    &&& opt_chars(post.edition) == edition_fate(pre.index@, pre.edition_chars(), Some(a), rf)
    &&& post.arch == arch_fate(pre.index@, Some(a))
}

impl OptionSelection {
    /// Sets the release and runs the cascade.
    pub fn set_release(&mut self, release: String)
        ensures
            release_picked(*old(self), *final(self), release@),
    {
        self.release = Some(release);
        self.refresh();
    }

    /// Sets the edition and runs the cascade.
    pub fn set_edition(&mut self, edition: String)
        ensures
            edition_picked(*old(self), *final(self), edition@),
    {
        self.edition = Some(edition);
        self.refresh();
    }

    /// Sets the architecture and runs the cascade.
    pub fn set_arch(&mut self, arch: Arch)
        ensures
            arch_picked(*old(self), *final(self), arch),
    {
        self.arch = Some(arch);
        self.refresh();
    }

    /// Clears the release and runs the cascade. Clearing only relaxes the
    /// constraints, so the other two selections survive.
    pub fn clear_release(&mut self)
        requires
            old(self).consistent(),
        ensures
            keeps_environment(*old(self), *final(self)),
            final(self).consistent(),
            final(self).release is None,
            opt_chars(final(self).edition) == opt_chars(old(self).edition),
            final(self).arch == old(self).arch,
    {
        let ghost pre = *old(self);
        self.release = None;
        proof {
            if pre.edition is Some {
                lemma_editions_of_monotone(
                    pre.index@,
                    pre.arch,
                    pre.release_chars(),
                    pre.arch,
                    None,
                    pre.edition->0@,
                );
            }
            if pre.arch is Some {
                lemma_archs_of_members(pre.index@, pre.release_chars(), pre.edition_chars());
                lemma_arch_present_monotone(
                    pre.index@,
                    pre.release_chars(),
                    pre.edition_chars(),
                    None,
                    None,
                    pre.arch->0,
                );
            }
        }
        self.refresh();
    }

    /// Clears the edition and runs the cascade; the other two selections
    /// survive.
    pub fn clear_edition(&mut self)
        requires
            old(self).consistent(),
        ensures
            keeps_environment(*old(self), *final(self)),
            final(self).consistent(),
            final(self).edition is None,
            opt_chars(final(self).release) == opt_chars(old(self).release),
            final(self).arch == old(self).arch,
    {
        let ghost pre = *old(self);
        self.edition = None;
        proof {
            if pre.release is Some {
                lemma_releases_of_monotone(
                    pre.index@,
                    pre.arch,
                    pre.edition_chars(),
                    pre.arch,
                    None,
                    pre.release->0@,
                );
            }
            if pre.arch is Some {
                lemma_archs_of_members(pre.index@, pre.release_chars(), pre.edition_chars());
                lemma_arch_present_monotone(
                    pre.index@,
                    pre.release_chars(),
                    pre.edition_chars(),
                    None,
                    None,
                    pre.arch->0,
                );
            }
        }
        self.refresh();
    }

    /// Clears the architecture and runs the cascade; the other two
    /// selections survive. Together with the purity of the choice lists
    /// this is what restores the lists a narrower architecture had hidden.
    pub fn clear_arch(&mut self)
        requires
            old(self).consistent(),
        ensures
            keeps_environment(*old(self), *final(self)),
            final(self).consistent(),
            final(self).arch is None,
            opt_chars(final(self).release) == opt_chars(old(self).release),
            opt_chars(final(self).edition) == opt_chars(old(self).edition),
    {
        let ghost pre = *old(self);
        self.arch = None;
        proof {
            if pre.release is Some {
                lemma_releases_of_monotone(
                    pre.index@,
                    pre.arch,
                    pre.edition_chars(),
                    None,
                    pre.edition_chars(),
                    pre.release->0@,
                );
            }
            if pre.edition is Some {
                lemma_editions_of_monotone(
                    pre.index@,
                    pre.arch,
                    pre.release_chars(),
                    None,
                    pre.release_chars(),
                    pre.edition->0@,
                );
            }
        }
        self.refresh();
    }
}

impl OptionSelection {
    /// Is every catalog field a build needs set: release and architecture,
    /// and an edition wherever the catalog offers editions? Only then is
    /// the state handed to the downstream build stage.
    pub open spec fn build_ready_spec(self) -> bool {
        &&& self.release is Some
        &&& self.arch is Some
        &&& (self.edition_list is Some ==> self.edition is Some)
    }

    /// Whether the selection is complete enough to build from.
    pub fn build_ready(&self) -> (b: bool)
        ensures
            b == self.build_ready_spec(),
    {
        self.release.is_some() && self.arch.is_some() && (self.edition_list.is_none()
            || self.edition.is_some())
    }
}

/// The choice lists of a consistent state are a pure function of the
/// catalog and the currently set fields, not of the history of picks that
/// led to them: two consistent states over the same catalog with the same
/// selections have the same lists.
pub proof fn lemma_lists_pure(a: OptionSelection, b: OptionSelection)
    requires
        a.consistent(),
        b.consistent(),
        a.index@ == b.index@,
        opt_chars(a.release) == opt_chars(b.release),
        opt_chars(a.edition) == opt_chars(b.edition),
        a.arch == b.arch,
    ensures
        strs(a.release_list@) == strs(b.release_list@),
        a.edition_list_chars() == b.edition_list_chars(),
        a.arch_list@ == b.arch_list@,
{
}

} // verus!
