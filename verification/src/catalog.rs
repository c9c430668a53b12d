use vstd::prelude::*;

use crate::arch::Arch;

verus! {

/// One buildable combination offered by an operating system: an optional
/// release name, an optional edition name, and a target architecture.
/// The combination identifies a buildable target; several records may share
/// any single field.
#[derive(Clone, Debug, PartialEq)]
pub struct ConfigRecord {
    pub release: Option<String>,
    pub edition: Option<String>,
    pub arch: Arch,
}

/// The mathematical value of a [`ConfigRecord`]: the two optional name
/// fields as character sequences, plus the architecture.
pub ghost struct RecordView {
    pub release: Option<Seq<char>>,
    pub edition: Option<Seq<char>>,
    pub arch: Arch,
}

/// An optional string, seen as an optional character sequence.
pub open spec fn opt_chars(o: Option<String>) -> Option<Seq<char>> {
    match o {
        Some(s) => Some(s@),
        None => None,
    }
}

/// A list of strings, seen as a sequence of character sequences.
pub open spec fn strs(v: Seq<String>) -> Seq<Seq<char>> {
    v.map_values(|s: String| s@)
}

/// A list of records, seen as a sequence of record views.
pub open spec fn recs(v: Seq<ConfigRecord>) -> Seq<RecordView> {
    v.map_values(|r: ConfigRecord| r@)
}

impl View for ConfigRecord {
    type V = RecordView;

    open spec fn view(&self) -> RecordView {
        RecordView {
            release: opt_chars(self.release),
            edition: opt_chars(self.edition),
            arch: self.arch,
        }
    }
}

/// An operating system of the catalog: a display name, an optional
/// homepage, and the ordered configuration records it owns.
#[derive(Clone, Debug, PartialEq)]
pub struct Os {
    pub pretty_name: String,
    pub homepage: Option<String>,
    pub releases: Vec<ConfigRecord>,
}

/// Does a record satisfy the given constraints? An unset constraint admits
/// every record; a set release or edition constraint admits only records
/// whose field is present and equal; a set architecture constraint admits
/// only records with that architecture.
pub open spec fn rec_matches(
    r: RecordView,
    arch: Option<Arch>,
    release: Option<Seq<char>>,
    edition: Option<Seq<char>>,
) -> bool {
    &&& (arch matches Some(a) ==> r.arch == a)
    &&& (release matches Some(rl) ==> r.release == Some(rl))
    &&& (edition matches Some(e) ==> r.edition == Some(e))
}

/// The release names projected from the records that match the given
/// architecture and edition constraints, skipping records without a
/// release, keeping only the first occurrence of each name, in record
/// order. Records whose release is absent never contribute a name but do
/// count as matches for the other two projections.
pub open spec fn releases_of(
    cat: Seq<RecordView>,
    arch: Option<Arch>,
    edition: Option<Seq<char>>,
) -> Seq<Seq<char>>
    decreases cat.len(),
{
    if cat.len() == 0 {
        Seq::empty()
    } else {
        let prev = releases_of(cat.drop_last(), arch, edition);
        let r = cat.last();
        if rec_matches(r, arch, None, edition) && r.release is Some && !prev.contains(
            r.release->0,
        ) {
            prev.push(r.release->0)
        } else {
            prev
        }
    }
}

/// The edition names projected from the records that match the given
/// architecture and release constraints, skipping records without an
/// edition, keeping only the first occurrence of each name, in record
/// order.
pub open spec fn editions_of(
    cat: Seq<RecordView>,
    arch: Option<Arch>,
    release: Option<Seq<char>>,
) -> Seq<Seq<char>>
    decreases cat.len(),
{
    if cat.len() == 0 {
        Seq::empty()
    } else {
        let prev = editions_of(cat.drop_last(), arch, release);
        let r = cat.last();
        if rec_matches(r, arch, release, None) && r.edition is Some && !prev.contains(
            r.edition->0,
        ) {
            prev.push(r.edition->0)
        } else {
            prev
        }
    }
}

/// Does some record match the given release and edition constraints and
/// target architecture `a`?
pub open spec fn arch_present(
    cat: Seq<RecordView>,
    release: Option<Seq<char>>,
    edition: Option<Seq<char>>,
    a: Arch,
) -> bool {
    exists|i: int|
        0 <= i < cat.len() && rec_matches(#[trigger] cat[i], None, release, edition)
            && cat[i].arch == a
}

/// The fixed three-element architecture universe filtered to those present
/// among the records matching the given release and edition constraints.
/// The canonical order x86_64, aarch64, riscv64 is always kept.
pub open spec fn archs_of(
    cat: Seq<RecordView>,
    release: Option<Seq<char>>,
    edition: Option<Seq<char>>,
) -> Seq<Arch> {
    let s0 = if arch_present(cat, release, edition, Arch::X86_64) {
        seq![Arch::X86_64]
    } else {
        Seq::empty()
    };
    let s1 = if arch_present(cat, release, edition, Arch::Aarch64) {
        s0.push(Arch::Aarch64)
    } else {
        s0
    };
    if arch_present(cat, release, edition, Arch::Riscv64) {
        s1.push(Arch::Riscv64)
    } else {
        s1
    }
}

/// In-memory view over one operating system's configuration records;
/// answers the filtered unique-projection queries that the choice lists
/// are derived from.
#[derive(Clone, Debug, PartialEq)]
pub struct ConfigIndex {
    pub records: Vec<ConfigRecord>,
}

impl View for ConfigIndex {
    type V = Seq<RecordView>;

    open spec fn view(&self) -> Seq<RecordView> {
        recs(self.records@)
    }
}

/// Does the list hold a string with exactly these characters?
pub fn contains_str(v: &Vec<String>, x: &String) -> (b: bool)
    ensures
        b == strs(v@).contains(x@),
{
    let n: usize = v.len();
    for i in 0..n
        invariant
            n == v@.len(),
            forall|j: int| 0 <= j < i ==> strs(v@)[j] != x@,
    {
        if v[i].eq(x) {
            proof {
                assert(strs(v@)[i as int] == x@);
            }
            return true;
        }
    }
    false
}

/// Does the list hold this architecture?
pub fn contains_arch(v: &Vec<Arch>, x: Arch) -> (b: bool)
    ensures
        b == v@.contains(x),
{
    let n: usize = v.len();
    for i in 0..n
        invariant
            n == v@.len(),
            forall|j: int| 0 <= j < i ==> v@[j] != x,
    {
        if v[i] == x {
            return true;
        }
    }
    false
}

/// Does a record satisfy the given constraints?
fn matches_constraints(
    r: &ConfigRecord,
    arch: Option<Arch>,
    release: &Option<String>,
    edition: &Option<String>,
) -> (b: bool)
    ensures
        b == rec_matches(r@, arch, opt_chars(*release), opt_chars(*edition)),
{
    let arch_ok: bool = match arch {
        None => true,
        Some(a) => r.arch == a,
    };
    let release_ok: bool = match release {
        None => true,
        Some(want) => match &r.release {
            None => false,
            Some(have) => have.eq(want),
        },
    };
    let edition_ok: bool = match edition {
        None => true,
        Some(want) => match &r.edition {
            None => false,
            Some(have) => have.eq(want),
        },
    };
    arch_ok && release_ok && edition_ok
}

impl ConfigIndex {
    /// Builds the index over one operating system's records.
    pub fn new(records: Vec<ConfigRecord>) -> (idx: ConfigIndex)
        ensures
            idx@ == recs(records@),
    {
        ConfigIndex { records }
    }

    /// Projects the unique release names of the records matching the given
    /// architecture and edition constraints, in first-seen order.
    pub fn releases_for(&self, arch: Option<Arch>, edition: &Option<String>) -> (out: Vec<String>)
        ensures
            strs(out@) == releases_of(self@, arch, opt_chars(*edition)),
    {
        let mut out: Vec<String> = Vec::new();
        let n: usize = self.records.len();
        for i in 0..n
            invariant
                n == self.records@.len(),
                strs(out@) == releases_of(self@.take(i as int), arch, opt_chars(*edition)),
        {
            proof {
                assert(self@.take(i + 1).drop_last() =~= self@.take(i as int));
                assert(self@.take(i + 1).last() == self@[i as int]);
            }
            let rec = &self.records[i];
            if matches_constraints(rec, arch, &None, edition) {
                if let Some(rel) = &rec.release {
                    if !contains_str(&out, rel) {
                        let ghost prev = out@;
                        out.push(rel.clone());
                        proof {
                            assert(strs(out@) =~= strs(prev).push(rel@));
                        }
                    }
                }
            }
        }
        proof {
            assert(self@.take(n as int) =~= self@);
        }
        out
    }

    /// Projects the unique edition names of the records matching the given
    /// architecture and release constraints, in first-seen order. Returns
    /// `None`, not an empty list, when no matching record has an edition,
    /// so that a caller can hide the edition selector.
    pub fn editions_for(&self, arch: Option<Arch>, release: &Option<String>) -> (out: Option<
        Vec<String>,
    >)
        ensures
            out matches Some(v) ==> strs(v@) == editions_of(self@, arch, opt_chars(*release))
                && v@.len() > 0,
            out is None ==> editions_of(self@, arch, opt_chars(*release)).len() == 0,
    {
        let mut list: Vec<String> = Vec::new();
        let n: usize = self.records.len();
        for i in 0..n
            invariant
                n == self.records@.len(),
                strs(list@) == editions_of(self@.take(i as int), arch, opt_chars(*release)),
        {
            proof {
                assert(self@.take(i + 1).drop_last() =~= self@.take(i as int));
                assert(self@.take(i + 1).last() == self@[i as int]);
            }
            let rec = &self.records[i];
            if matches_constraints(rec, arch, release, &None) {
                if let Some(ed) = &rec.edition {
                    if !contains_str(&list, ed) {
                        let ghost prev = list@;
                        list.push(ed.clone());
                        proof {
                            assert(strs(list@) =~= strs(prev).push(ed@));
                        }
                    }
                }
            }
        }
        proof {
            assert(self@.take(n as int) =~= self@);
        }
        if list.len() == 0 {
            None
        } else {
            Some(list)
        }
    }

    /// Does some record match the given release and edition constraints and
    /// target architecture `a`?
    fn has_arch(&self, release: &Option<String>, edition: &Option<String>, a: Arch) -> (b: bool)
        ensures
            b == arch_present(self@, opt_chars(*release), opt_chars(*edition), a),
    {
        let n: usize = self.records.len();
        for i in 0..n
            invariant
                n == self.records@.len(),
                forall|j: int|
                    0 <= j < i ==> !(rec_matches(
                        #[trigger] self@[j],
                        None,
                        opt_chars(*release),
                        opt_chars(*edition),
                    ) && self@[j].arch == a),
        {
            let rec = &self.records[i];
            if matches_constraints(rec, None, release, edition) && rec.arch == a {
                proof {
                    assert(rec_matches(self@[i as int], None, opt_chars(*release), opt_chars(*edition))
                        && self@[i as int].arch == a);
                }
                return true;
            }
        }
        false
    }

    /// Filters the fixed architecture universe, in its canonical order, to
    /// those present among the records matching the given release and
    /// edition constraints.
    pub fn archs_for(&self, release: &Option<String>, edition: &Option<String>) -> (out: Vec<Arch>)
        ensures
            out@ == archs_of(self@, opt_chars(*release), opt_chars(*edition)),
    {
        let mut out: Vec<Arch> = Vec::new();
        if self.has_arch(release, edition, Arch::X86_64) {
            out.push(Arch::X86_64);
        }
        let ghost s0 = out@;
        if self.has_arch(release, edition, Arch::Aarch64) {
            out.push(Arch::Aarch64);
        }
        let ghost s1 = out@;
        if self.has_arch(release, edition, Arch::Riscv64) {
            out.push(Arch::Riscv64);
        }
        proof {
            assert(out@ =~= archs_of(self@, opt_chars(*release), opt_chars(*edition)));
        }
        out
    }
}

/// A pushed sequence holds exactly the old names and the pushed one.
proof fn lemma_push_contains<T>(s: Seq<T>, v: T, x: T)
    ensures
        s.push(v).contains(x) <==> s.contains(x) || v == x,
{
    if s.contains(x) {
        let k = choose|k: int| 0 <= k < s.len() && s[k] == x;
        assert(s.push(v)[k] == x);
    }
    if v == x {
        assert(s.push(v)[s.len() as int] == x);
    }
    if s.push(v).contains(x) {
        let k = choose|k: int| 0 <= k < s.push(v).len() && s.push(v)[k] == x;
        if k < s.len() {
            assert(s[k] == x);
        }
    }
}

/// The release projection never repeats a name: only the first occurrence
/// is kept.
pub proof fn lemma_releases_of_no_duplicates(
    cat: Seq<RecordView>,
    arch: Option<Arch>,
    edition: Option<Seq<char>>,
)
    ensures
        releases_of(cat, arch, edition).no_duplicates(),
    decreases cat.len(),
{
    if cat.len() == 0 {
    } else {
        let sub = cat.drop_last();
        lemma_releases_of_no_duplicates(sub, arch, edition);
        let prev = releases_of(sub, arch, edition);
        let r = cat.last();
        if rec_matches(r, arch, None, edition) && r.release is Some && !prev.contains(
            r.release->0,
        ) {
            let v = r.release->0;
            let cur = prev.push(v);
            assert forall|i: int, j: int|
                0 <= i < cur.len() && 0 <= j < cur.len() && i != j implies cur[i] != cur[j] by {
                if i < prev.len() && j < prev.len() {
                } else if j == prev.len() && cur[i] == v {
                    assert(prev.contains(v));
                } else if i == prev.len() && cur[j] == v {
                    assert(prev.contains(v));
                }
            }
        }
    }
}

/// The edition projection never repeats a name: only the first occurrence
/// is kept.
pub proof fn lemma_editions_of_no_duplicates(
    cat: Seq<RecordView>,
    arch: Option<Arch>,
    release: Option<Seq<char>>,
)
    ensures
        editions_of(cat, arch, release).no_duplicates(),
    decreases cat.len(),
{
    if cat.len() == 0 {
    } else {
        let sub = cat.drop_last();
        lemma_editions_of_no_duplicates(sub, arch, release);
        let prev = editions_of(sub, arch, release);
        let r = cat.last();
        if rec_matches(r, arch, release, None) && r.edition is Some && !prev.contains(
            r.edition->0,
        ) {
            let v = r.edition->0;
            let cur = prev.push(v);
            assert forall|i: int, j: int|
                0 <= i < cur.len() && 0 <= j < cur.len() && i != j implies cur[i] != cur[j] by {
                if i < prev.len() && j < prev.len() {
                } else if j == prev.len() && cur[i] == v {
                    assert(prev.contains(v));
                } else if i == prev.len() && cur[j] == v {
                    assert(prev.contains(v));
                }
            }
        }
    }
}

/// The filtered architecture universe never repeats an architecture.
pub proof fn lemma_archs_of_no_duplicates(
    cat: Seq<RecordView>,
    release: Option<Seq<char>>,
    edition: Option<Seq<char>>,
)
    ensures
        archs_of(cat, release, edition).no_duplicates(),
{
}

/// Every name in the release projection is the release of some matching
/// record, and conversely; this is what connects clearing decisions to the
/// catalog.
pub proof fn lemma_releases_of_membership(
    cat: Seq<RecordView>,
    arch: Option<Arch>,
    edition: Option<Seq<char>>,
    x: Seq<char>,
)
    ensures
        releases_of(cat, arch, edition).contains(x) <==> exists|i: int|
            0 <= i < cat.len() && rec_matches(#[trigger] cat[i], arch, None, edition)
                && cat[i].release == Some(x),
    decreases cat.len(),
{
    if cat.len() == 0 {
    } else {
        let sub = cat.drop_last();
        lemma_releases_of_membership(sub, arch, edition, x);
        let prev = releases_of(sub, arch, edition);
        let r = cat.last();
        let cur = releases_of(cat, arch, edition);
        let pushed = rec_matches(r, arch, None, edition) && r.release is Some && !prev.contains(
            r.release->0,
        );
        if pushed {
            lemma_push_contains(prev, r.release->0, x);
        }
        if cur.contains(x) {
            if prev.contains(x) {
                let i = choose|i: int|
                    0 <= i < sub.len() && rec_matches(#[trigger] sub[i], arch, None, edition)
                        && sub[i].release == Some(x);
                assert(cat[i] == sub[i]);
                assert(rec_matches(cat[i], arch, None, edition) && cat[i].release == Some(x));
            } else {
                assert(pushed && r.release->0 == x);
                assert(rec_matches(cat[cat.len() - 1], arch, None, edition) && cat[cat.len()
                    - 1].release == Some(x));
            }
        }
        if exists|i: int|
            0 <= i < cat.len() && rec_matches(#[trigger] cat[i], arch, None, edition)
                && cat[i].release == Some(x) {
            let i = choose|i: int|
                0 <= i < cat.len() && rec_matches(#[trigger] cat[i], arch, None, edition)
                    && cat[i].release == Some(x);
            if i == cat.len() - 1 {
                if !prev.contains(x) {
                    assert(pushed);
                }
                assert(cur.contains(x));
            } else {
                assert(sub[i] == cat[i]);
                assert(rec_matches(sub[i], arch, None, edition) && sub[i].release == Some(x));
                assert(prev.contains(x));
                assert(cur.contains(x));
            }
        }
    }
}

/// Same as [`lemma_releases_of_membership`], for the edition projection.
pub proof fn lemma_editions_of_membership(
    cat: Seq<RecordView>,
    arch: Option<Arch>,
    release: Option<Seq<char>>,
    x: Seq<char>,
)
    ensures
        editions_of(cat, arch, release).contains(x) <==> exists|i: int|
            0 <= i < cat.len() && rec_matches(#[trigger] cat[i], arch, release, None)
                && cat[i].edition == Some(x),
    decreases cat.len(),
{
    if cat.len() == 0 {
    } else {
        let sub = cat.drop_last();
        lemma_editions_of_membership(sub, arch, release, x);
        let prev = editions_of(sub, arch, release);
        let r = cat.last();
        let cur = editions_of(cat, arch, release);
        let pushed = rec_matches(r, arch, release, None) && r.edition is Some && !prev.contains(
            r.edition->0,
        );
        if pushed {
            lemma_push_contains(prev, r.edition->0, x);
        }
        if cur.contains(x) {
            if prev.contains(x) {
                let i = choose|i: int|
                    0 <= i < sub.len() && rec_matches(#[trigger] sub[i], arch, release, None)
                        && sub[i].edition == Some(x);
                assert(cat[i] == sub[i]);
                assert(rec_matches(cat[i], arch, release, None) && cat[i].edition == Some(x));
            } else {
                assert(pushed && r.edition->0 == x);
                assert(rec_matches(cat[cat.len() - 1], arch, release, None) && cat[cat.len()
                    - 1].edition == Some(x));
            }
        }
        if exists|i: int|
            0 <= i < cat.len() && rec_matches(#[trigger] cat[i], arch, release, None)
                && cat[i].edition == Some(x) {
            let i = choose|i: int|
                0 <= i < cat.len() && rec_matches(#[trigger] cat[i], arch, release, None)
                    && cat[i].edition == Some(x);
            if i == cat.len() - 1 {
                if !prev.contains(x) {
                    assert(pushed);
                }
                assert(cur.contains(x));
            } else {
                assert(sub[i] == cat[i]);
                assert(rec_matches(sub[i], arch, release, None) && sub[i].edition == Some(x));
                assert(prev.contains(x));
                assert(cur.contains(x));
            }
        }
    }
}

/// Is the second constraint at most as strict as the first: either unset,
/// or the same value?
pub open spec fn relaxes<T>(wider: Option<T>, tighter: Option<T>) -> bool {
    wider is None || wider == tighter
}

/// Relaxing the architecture or edition constraint never loses a release
/// name: the projection only widens. This is why clearing one field cannot
/// evict a selection in another field that was already reachable.
pub proof fn lemma_releases_of_monotone(
    cat: Seq<RecordView>,
    arch1: Option<Arch>,
    edition1: Option<Seq<char>>,
    arch2: Option<Arch>,
    edition2: Option<Seq<char>>,
    x: Seq<char>,
)
    requires
        relaxes(arch2, arch1),
        relaxes(edition2, edition1),
        releases_of(cat, arch1, edition1).contains(x),
    ensures
        releases_of(cat, arch2, edition2).contains(x),
{
    lemma_releases_of_membership(cat, arch1, edition1, x);
    lemma_releases_of_membership(cat, arch2, edition2, x);
    let i = choose|i: int|
        0 <= i < cat.len() && rec_matches(#[trigger] cat[i], arch1, None, edition1)
            && cat[i].release == Some(x);
    assert(rec_matches(cat[i], arch2, None, edition2));
}

/// Same as [`lemma_releases_of_monotone`], for the edition projection.
pub proof fn lemma_editions_of_monotone(
    cat: Seq<RecordView>,
    arch1: Option<Arch>,
    release1: Option<Seq<char>>,
    arch2: Option<Arch>,
    release2: Option<Seq<char>>,
    x: Seq<char>,
)
    requires
        relaxes(arch2, arch1),
        relaxes(release2, release1),
        editions_of(cat, arch1, release1).contains(x),
    ensures
        editions_of(cat, arch2, release2).contains(x),
{
    lemma_editions_of_membership(cat, arch1, release1, x);
    lemma_editions_of_membership(cat, arch2, release2, x);
    let i = choose|i: int|
        0 <= i < cat.len() && rec_matches(#[trigger] cat[i], arch1, release1, None)
            && cat[i].edition == Some(x);
    assert(rec_matches(cat[i], arch2, release2, None));
}

/// Relaxing the release or edition constraint keeps every architecture
/// present.
pub proof fn lemma_arch_present_monotone(
    cat: Seq<RecordView>,
    release1: Option<Seq<char>>,
    edition1: Option<Seq<char>>,
    release2: Option<Seq<char>>,
    edition2: Option<Seq<char>>,
    a: Arch,
)
    requires
        relaxes(release2, release1),
        relaxes(edition2, edition1),
        arch_present(cat, release1, edition1, a),
    ensures
        arch_present(cat, release2, edition2, a),
{
    let i = choose|i: int|
        0 <= i < cat.len() && rec_matches(#[trigger] cat[i], None, release1, edition1)
            && cat[i].arch == a;
    assert(rec_matches(cat[i], None, release2, edition2));
}

/// The filtered architecture universe holds exactly the present
/// architectures.
pub proof fn lemma_archs_of_members(
    cat: Seq<RecordView>,
    release: Option<Seq<char>>,
    edition: Option<Seq<char>>,
)
    ensures
        forall|a: Arch|
            archs_of(cat, release, edition).contains(a) <==> arch_present(
                cat,
                release,
                edition,
                a,
            ),
{
    let s = archs_of(cat, release, edition);
    assert forall|a: Arch| s.contains(a) <==> arch_present(cat, release, edition, a) by {
        if arch_present(cat, release, edition, a) {
            match a {
                Arch::X86_64 => assert(s[0] == a),
                Arch::Aarch64 => {
                    if arch_present(cat, release, edition, Arch::X86_64) {
                        assert(s[1] == a);
                    } else {
                        assert(s[0] == a);
                    }
                },
                Arch::Riscv64 => assert(s[s.len() - 1] == a),
            }
        }
        if s.contains(a) {
            let i = choose|i: int| 0 <= i < s.len() && s[i] == a;
        }
    }
}

} // verus!
