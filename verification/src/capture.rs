//! Which files count as a finished capture, and which captures are new.
//!
//! Paths and file names are byte strings: the encoded bytes of the
//! operating system's path strings.

use vstd::prelude::*;
use crate::bytes::{ascii_lower, lower_equals, bytes_eq, lower_eq};

verus! {

/// One entry of a capture directory listing.
pub struct CaptureEntry {
    /// The full path of the entry.
    pub path: Vec<u8>,
    /// The entry's file name (the last component of `path`).
    pub name: Vec<u8>,
}

/// Index of the last `.` among the first `n` bytes of `name`, or -1.
pub open spec fn last_dot_before(name: Seq<u8>, n: int) -> int
    decreases n,
{
    if n <= 0 {
        -1
    } else if name[n - 1] == 46u8 {
        n - 1
    } else {
        last_dot_before(name, n - 1)
    }
}

/// The extension of a file name: what follows its last `.`, when that dot is
/// not the name's first byte (so `.bashrc` and `noext` have none).
pub open spec fn extension_of(name: Seq<u8>) -> Option<Seq<u8>> {
    let d = last_dot_before(name, name.len() as int);
    if d >= 1 {
        Some(name.subrange(d + 1, name.len() as int))
    } else {
        None
    }
}

/// The extensions that the operating systems' capture tools write
/// (screenshots and recordings), in lower case.
pub open spec fn capture_extensions() -> Seq<Seq<u8>> {
    seq![
        seq![112u8, 110u8, 103u8],  // png
        seq![106u8, 112u8, 103u8],  // jpg
        seq![106u8, 112u8, 101u8, 103u8],  // jpeg
        seq![103u8, 105u8, 102u8],  // gif
        seq![116u8, 105u8, 102u8, 102u8],  // tiff
        seq![104u8, 101u8, 105u8, 99u8],  // heic
        seq![112u8, 100u8, 102u8],  // pdf
        seq![109u8, 111u8, 118u8],  // mov
        seq![109u8, 112u8, 52u8],  // mp4
        seq![109u8, 52u8, 118u8],  // m4v
        seq![119u8, 101u8, 98u8, 109u8],  // webm
    ]
}

/// A file name names a capture when its extension, ignoring case, is one of
/// the capture extensions.
pub open spec fn spec_is_capture_file(name: Seq<u8>) -> bool {
    match extension_of(name) {
        Some(ext) => exists|k: int|
            0 <= k < capture_extensions().len() && lower_equals(ext, #[trigger] capture_extensions()[k]),
        None => false,
    }
}

pub open spec fn is_capture_entry(e: CaptureEntry) -> bool {
    spec_is_capture_file(e.name@)
}

proof fn lemma_last_dot_bounds(name: Seq<u8>, n: int)
    requires
        0 <= n <= name.len(),
    ensures
        -1 <= last_dot_before(name, n) < n,
        last_dot_before(name, n) >= 0 ==> name[last_dot_before(name, n)] == 46u8,
    decreases n,
{
    if n > 0 && name[n - 1] != 46u8 {
        lemma_last_dot_bounds(name, n - 1);
    }
}

fn last_dot(name: &[u8]) -> (d: Option<usize>)
    ensures
        match d {
            Some(i) => i as int == last_dot_before(name@, name@.len() as int) && i < name.len(),
            None => last_dot_before(name@, name@.len() as int) == -1,
        },
{
    let mut n: usize = name.len();
    while n > 0
        invariant
            n <= name@.len(),
            last_dot_before(name@, name@.len() as int) == last_dot_before(name@, n as int),
        decreases n,
    {
        if name[n - 1] == 46u8 {
            proof {
                lemma_last_dot_bounds(name@, n as int);
            }
            return Some(n - 1);
        }
        n = n - 1;
    }
    None
}

fn matches_capture_extension(ext: &[u8]) -> (r: bool)
    ensures
        r == exists|k: int|
            0 <= k < capture_extensions().len() && lower_equals(ext@, #[trigger] capture_extensions()[k]),
{
    let exts: Vec<Vec<u8>> = vec![
        vec![112u8, 110u8, 103u8],
        vec![106u8, 112u8, 103u8],
        vec![106u8, 112u8, 101u8, 103u8],
        vec![103u8, 105u8, 102u8],
        vec![116u8, 105u8, 102u8, 102u8],
        vec![104u8, 101u8, 105u8, 99u8],
        vec![112u8, 100u8, 102u8],
        vec![109u8, 111u8, 118u8],
        vec![109u8, 112u8, 52u8],
        vec![109u8, 52u8, 118u8],
        vec![119u8, 101u8, 98u8, 109u8],
    ];
    assert(exts@.len() == capture_extensions().len());
    assert(forall|k: int| 0 <= k < exts@.len() ==> #[trigger] exts@[k]@ == capture_extensions()[k]);
    let mut k: usize = 0;
    while k < exts.len()
        invariant
            exts@.len() == capture_extensions().len(),
            forall|j: int| 0 <= j < exts@.len() ==> #[trigger] exts@[j]@ == capture_extensions()[j],
            k <= exts@.len(),
            forall|j: int| 0 <= j < k ==> !lower_equals(ext@, #[trigger] capture_extensions()[j]),
        decreases exts@.len() - k,
    {
        if lower_eq(ext, exts[k].as_slice()) {
            return true;
        }
        k = k + 1;
    }
    false
}

/// Whether a file with this name is a screenshot or recording: its
/// extension is one the capture tools produce, in any letter case.
pub fn is_capture_file(name: &[u8]) -> (r: bool)
    ensures
        r == spec_is_capture_file(name@),
{
    match last_dot(name) {
        Some(d) => {
            if d >= 1 {
                let ext = crate::bytes::copy_from(name, d + 1);
                matches_capture_extension(ext.as_slice())
            } else {
                false
            }
        },
        None => false,
    }
}

/// The paths of the capture files in a directory listing, taken when the
/// watcher starts; nothing occurs in it twice.
pub struct CaptureSet {
    paths: Vec<Vec<u8>>,
}

proof fn lemma_last_dot_of_joined(stem: Seq<u8>, e: Seq<u8>, n: int)
    requires
        forall|i: int| 0 <= i < e.len() ==> #[trigger] e[i] != 46u8,
        stem.len() + 1 <= n <= stem.len() + 1 + e.len(),
    ensures
        last_dot_before(stem + seq![46u8] + e, n) == stem.len(),
    decreases n,
{
    let name = stem + seq![46u8] + e;
    if n > stem.len() + 1 {
        assert(name[n - 1] == e[n - 1 - stem.len() - 1]);
        lemma_last_dot_of_joined(stem, e, n - 1);
    } else {
        assert(name[n - 1] == 46u8);
    }
}

/// The extension of `stem.e`, for a non-empty stem and an `e` without dots,
/// is `e`.
pub proof fn lemma_extension_of_joined(stem: Seq<u8>, e: Seq<u8>)
    requires
        stem.len() >= 1,
        forall|i: int| 0 <= i < e.len() ==> #[trigger] e[i] != 46u8,
    ensures
        extension_of(stem + seq![46u8] + e) == Some(e),
{
    let name = stem + seq![46u8] + e;
    lemma_last_dot_of_joined(stem, e, name.len() as int);
    assert(name.subrange(stem.len() + 1 as int, name.len() as int) =~= e);
}

/// `e`, read without regard to ASCII letter case, is one of png, jpg, jpeg,
/// gif, tiff, heic, pdf, mov, mp4, m4v, webm.
pub open spec fn is_listed_capture_extension(e: Seq<u8>) -> bool {
    ||| lower_equals(e, seq![112u8, 110u8, 103u8])  // png
    ||| lower_equals(e, seq![106u8, 112u8, 103u8])  // jpg
    ||| lower_equals(e, seq![106u8, 112u8, 101u8, 103u8])  // jpeg
    ||| lower_equals(e, seq![103u8, 105u8, 102u8])  // gif
    ||| lower_equals(e, seq![116u8, 105u8, 102u8, 102u8])  // tiff
    ||| lower_equals(e, seq![104u8, 101u8, 105u8, 99u8])  // heic
    ||| lower_equals(e, seq![112u8, 100u8, 102u8])  // pdf
    ||| lower_equals(e, seq![109u8, 111u8, 118u8])  // mov
    ||| lower_equals(e, seq![109u8, 112u8, 52u8])  // mp4
    ||| lower_equals(e, seq![109u8, 52u8, 118u8])  // m4v
    ||| lower_equals(e, seq![119u8, 101u8, 98u8, 109u8])  // webm
}

/// Every screenshot and recording extension counts, in any letter case:
/// a name `stem.e` with a non-empty stem, and `e` without dots equal up to
/// case to one of png, jpg, jpeg, gif, tiff, heic, pdf, mov, mp4, m4v or
/// webm, is a capture file. Conversely a capture file's extension is one
/// of these.
pub proof fn lemma_capture_extensions_recognised(stem: Seq<u8>, e: Seq<u8>, name: Seq<u8>)
    requires
        stem.len() >= 1,
        forall|i: int| 0 <= i < e.len() ==> #[trigger] e[i] != 46u8,
    ensures
        is_listed_capture_extension(e) ==> spec_is_capture_file(stem + seq![46u8] + e),
        spec_is_capture_file(name) ==> (extension_of(name) matches Some(x)
            && is_listed_capture_extension(x)),
{
    lemma_extension_of_joined(stem, e);
    let c = capture_extensions();
    assert(c[0] == seq![112u8, 110u8, 103u8]);
    assert(c[1] == seq![106u8, 112u8, 103u8]);
    assert(c[2] == seq![106u8, 112u8, 101u8, 103u8]);
    assert(c[3] == seq![103u8, 105u8, 102u8]);
    assert(c[4] == seq![116u8, 105u8, 102u8, 102u8]);
    assert(c[5] == seq![104u8, 101u8, 105u8, 99u8]);
    assert(c[6] == seq![112u8, 100u8, 102u8]);
    assert(c[7] == seq![109u8, 111u8, 118u8]);
    assert(c[8] == seq![109u8, 112u8, 52u8]);
    assert(c[9] == seq![109u8, 52u8, 118u8]);
    assert(c[10] == seq![119u8, 101u8, 98u8, 109u8]);
    if spec_is_capture_file(name) {
        let x = extension_of(name)->0;
        let k = choose|k: int| 0 <= k < c.len() && lower_equals(x, #[trigger] c[k]);
        assert(c.len() == 11);
        assert(0 <= k < 11);
    }
}

/// Only the extension decides, and not its letter case: two file names whose
/// extensions are equal once lower-cased in ASCII are both captures or both
/// not; a name without extension is no capture.
pub proof fn lemma_only_extension_decides(a: Seq<u8>, b: Seq<u8>)
    ensures
        extension_of(a) is None ==> !spec_is_capture_file(a),
        (extension_of(a) matches Some(ea) && extension_of(b) matches Some(eb) && ea.len() == eb.len()
            && forall|i: int| 0 <= i < ea.len() ==> ascii_lower(#[trigger] ea[i]) == ascii_lower(eb[i]))
            ==> spec_is_capture_file(a) == spec_is_capture_file(b),
{
    if let (Some(ea), Some(eb)) = (extension_of(a), extension_of(b)) {
        if ea.len() == eb.len() && forall|i: int|
            0 <= i < ea.len() ==> ascii_lower(#[trigger] ea[i]) == ascii_lower(eb[i]) {
            assert forall|k: int| 0 <= k < capture_extensions().len() implies lower_equals(
                ea,
                #[trigger] capture_extensions()[k],
            ) == lower_equals(eb, capture_extensions()[k]) by {
                let t = capture_extensions()[k];
                if lower_equals(ea, t) {
                    assert forall|i: int| 0 <= i < eb.len() implies ascii_lower(#[trigger] eb[i])
                        == t[i] by {
                        assert(ascii_lower(ea[i]) == t[i]);
                    }
                }
                if lower_equals(eb, t) {
                    assert forall|i: int| 0 <= i < ea.len() implies ascii_lower(#[trigger] ea[i])
                        == t[i] by {
                        assert(ascii_lower(eb[i]) == t[i]);
                    }
                }
            }
            if spec_is_capture_file(a) {
                let k = choose|k: int|
                    0 <= k < capture_extensions().len() && lower_equals(
                        ea,
                        #[trigger] capture_extensions()[k],
                    );
                assert(lower_equals(eb, capture_extensions()[k]));
            }
            if spec_is_capture_file(b) {
                let k = choose|k: int|
                    0 <= k < capture_extensions().len() && lower_equals(
                        eb,
                        #[trigger] capture_extensions()[k],
                    );
                assert(lower_equals(ea, capture_extensions()[k]));
            }
        }
    }
}

/// The contents of a sequence of byte vectors.
pub open spec fn byte_strings(v: Seq<Vec<u8>>) -> Seq<Seq<u8>> {
    v.map_values(|p: Vec<u8>| p@)
}

/// The paths of the capture entries of a listing.
pub open spec fn spec_snapshot(entries: Seq<CaptureEntry>) -> Set<Seq<u8>> {
    Set::new(
        |p: Seq<u8>|
            exists|i: int|
                0 <= i < entries.len() && is_capture_entry(#[trigger] entries[i]) && entries[i].path@
                    == p,
    )
}

/// The first capture entry of a listing whose path is not in `baseline`.
pub open spec fn spec_find_new_capture(entries: Seq<CaptureEntry>, baseline: Set<Seq<u8>>) -> Option<
    Seq<u8>,
>
    decreases entries.len(),
{
    if entries.len() == 0 {
        None
    } else if is_capture_entry(entries[0]) && !baseline.contains(entries[0].path@) {
        Some(entries[0].path@)
    } else {
        spec_find_new_capture(entries.drop_first(), baseline)
    }
}

impl CaptureSet {
    /// The paths held, as a sequence.
    pub closed spec fn paths_view(self) -> Seq<Seq<u8>> {
        byte_strings(self.paths@)
    }

    #[verifier::type_invariant]
    closed spec fn no_duplicates(self) -> bool {
        self.paths_view().no_duplicates()
    }

    /// The set of paths held.
    pub closed spec fn view(self) -> Set<Seq<u8>> {
        self.paths_view().to_set()
    }

    /// Number of paths held.
    pub fn len(&self) -> (n: usize)
        ensures
            n == self.view().len(),
    {
        proof {
            use_type_invariant(self);
            self.paths_view().unique_seq_to_set();
        }
        self.paths.len()
    }

    /// Whether `path` is held.
    pub fn contains(&self, path: &[u8]) -> (r: bool)
        ensures
            r == self.view().contains(path@),
    {
        let mut i: usize = 0;
        while i < self.paths.len()
            invariant
                i <= self.paths@.len(),
                forall|j: int| 0 <= j < i ==> self.paths@[j]@ != path@,
            decreases self.paths@.len() - i,
        {
            if bytes_eq(self.paths[i].as_slice(), path) {
                assert(self.paths_view()[i as int] == path@);
                return true;
            }
            i = i + 1;
        }
        assert(!self.paths_view().contains(path@));
        false
    }
}

proof fn lemma_find_none_when_all_known(entries: Seq<CaptureEntry>, baseline: Set<Seq<u8>>)
    requires
        forall|j: int|
            0 <= j < entries.len() && is_capture_entry(#[trigger] entries[j]) ==> baseline.contains(
                entries[j].path@,
            ),
    ensures
        spec_find_new_capture(entries, baseline) is None,
    decreases entries.len(),
{
    if entries.len() > 0 {
        assert forall|j: int|
            0 <= j < entries.drop_first().len() && is_capture_entry(
                #[trigger] entries.drop_first()[j],
            ) implies baseline.contains(entries.drop_first()[j].path@) by {
            assert(entries.drop_first()[j] == entries[j + 1]);
        }
        lemma_find_none_when_all_known(entries.drop_first(), baseline);
    }
}

/// Right after the snapshot, nothing is new: looking for a new capture in
/// the very listing the baseline was taken from finds none.
pub proof fn lemma_snapshot_has_no_new_capture(entries: Seq<CaptureEntry>)
    ensures
        spec_find_new_capture(entries, spec_snapshot(entries)) is None,
{
    assert forall|j: int|
        0 <= j < entries.len() && is_capture_entry(#[trigger] entries[j]) implies spec_snapshot(
        entries,
    ).contains(entries[j].path@) by {}
    lemma_find_none_when_all_known(entries, spec_snapshot(entries));
}

/// What is reported as new is a capture file of the listing that is not in
/// the baseline.
pub proof fn lemma_found_capture_is_new(entries: Seq<CaptureEntry>, baseline: Set<Seq<u8>>)
    ensures
        spec_find_new_capture(entries, baseline) matches Some(p) ==> {
            &&& !baseline.contains(p)
            &&& exists|i: int|
                0 <= i < entries.len() && is_capture_entry(#[trigger] entries[i]) && entries[i].path@
                    == p
        },
    decreases entries.len(),
{
    if entries.len() > 0 {
        lemma_found_capture_is_new(entries.drop_first(), baseline);
        if is_capture_entry(entries[0]) && !baseline.contains(entries[0].path@) {
            assert(is_capture_entry(entries[0]));
        } else if let Some(p) = spec_find_new_capture(entries.drop_first(), baseline) {
            let i = choose|i: int|
                0 <= i < entries.drop_first().len() && is_capture_entry(
                    #[trigger] entries.drop_first()[i],
                ) && entries.drop_first()[i].path@ == p;
            assert(entries[i + 1] == entries.drop_first()[i]);
        }
    }
}

/// Whether entry `j` of a listing is a capture file, judged by its name's
/// extension alone, whose path is missing from `baseline`.
pub open spec fn is_new_capture_at(entries: Seq<CaptureEntry>, baseline: Set<Seq<u8>>, j: int) -> bool {
    0 <= j < entries.len() && spec_is_capture_file(entries[j].name@) && !baseline.contains(
        entries[j].path@,
    )
}

/// A new capture is never missed, and the first one wins: if some entry of
/// the listing has a capture extension and a path outside the baseline,
/// the search reports the path of the first such entry, whatever else the
/// names hold; if none has, it reports nothing.
pub proof fn lemma_find_reports_first_new_capture(
    entries: Seq<CaptureEntry>,
    baseline: Set<Seq<u8>>,
)
    ensures
        (exists|j: int| is_new_capture_at(entries, baseline, j)) <==> spec_find_new_capture(
            entries,
            baseline,
        ) is Some,
        forall|j: int|
            #![trigger is_new_capture_at(entries, baseline, j)]
            is_new_capture_at(entries, baseline, j) && (forall|k: int|
                0 <= k < j ==> !is_new_capture_at(entries, baseline, k)) ==> spec_find_new_capture(
                entries,
                baseline,
            ) == Some(entries[j].path@),
    decreases entries.len(),
{
    if entries.len() > 0 {
        let rest = entries.drop_first();
        lemma_find_reports_first_new_capture(rest, baseline);
        assert forall|j: int| 0 <= j < rest.len() implies is_new_capture_at(rest, baseline, j)
            == is_new_capture_at(entries, baseline, j + 1) by {
            assert(rest[j] == entries[j + 1]);
        }
        if is_new_capture_at(entries, baseline, 0) {
            assert forall|j: int|
                is_new_capture_at(entries, baseline, j) && (forall|k: int|
                    0 <= k < j ==> !is_new_capture_at(entries, baseline, k)) implies spec_find_new_capture(
                entries,
                baseline,
            ) == Some(entries[j].path@) by {
                if j > 0 {
                    assert(!is_new_capture_at(entries, baseline, 0));
                }
            }
        } else {
            if exists|j: int| is_new_capture_at(entries, baseline, j) {
                let j = choose|j: int| is_new_capture_at(entries, baseline, j);
                assert(is_new_capture_at(rest, baseline, j - 1));
            }
            if spec_find_new_capture(entries, baseline) is Some {
                let j = choose|j: int| is_new_capture_at(rest, baseline, j);
                assert(is_new_capture_at(entries, baseline, j + 1));
            }
            assert forall|j: int|
                is_new_capture_at(entries, baseline, j) && (forall|k: int|
                    0 <= k < j ==> !is_new_capture_at(entries, baseline, k)) implies spec_find_new_capture(
                entries,
                baseline,
            ) == Some(entries[j].path@) by {
                assert(is_new_capture_at(rest, baseline, j - 1));
                assert forall|k: int| 0 <= k < j - 1 implies !is_new_capture_at(rest, baseline, k) by {
                    assert(!is_new_capture_at(entries, baseline, k + 1));
                }
                assert(rest[j - 1] == entries[j]);
            }
        }
    }
}

/// The baseline holds exactly the paths of the entries whose names have a
/// capture extension, whatever else the names hold.
pub proof fn lemma_snapshot_holds_every_capture(entries: Seq<CaptureEntry>, p: Seq<u8>)
    ensures
        spec_snapshot(entries).contains(p) <==> exists|j: int|
            0 <= j < entries.len() && spec_is_capture_file(entries[j].name@) && entries[j].path@ == p,
{
    if exists|j: int|
        0 <= j < entries.len() && spec_is_capture_file(entries[j].name@) && entries[j].path@ == p {
        let j = choose|j: int|
            0 <= j < entries.len() && spec_is_capture_file(entries[j].name@) && entries[j].path@ == p;
        assert(is_capture_entry(entries[j]));
    }
}

/// The paths of the capture files among `entries`: the baseline of files
/// that already existed when the watcher started.
pub fn snapshot_captures(entries: &Vec<CaptureEntry>) -> (set: CaptureSet)
    ensures
        set.view() == spec_snapshot(entries@),
        forall|p: Seq<u8>|
            #[trigger] set.view().contains(p) <==> exists|j: int|
                0 <= j < entries@.len() && spec_is_capture_file(entries@[j].name@) && entries@[j].path@
                    == p,
{
    let mut paths: Vec<Vec<u8>> = Vec::new();
    let mut i: usize = 0;
    while i < entries.len()
        invariant
            i <= entries@.len(),
            byte_strings(paths@).no_duplicates(),
            forall|p: Seq<u8>|
                #[trigger] byte_strings(paths@).contains(p) <==> exists|j: int|
                    0 <= j < i && is_capture_entry(#[trigger] entries@[j]) && entries@[j].path@ == p,
        decreases entries@.len() - i,
    {
        let e = &entries[i];
        let ghost before = byte_strings(paths@);
        if is_capture_file(e.name.as_slice()) {
            let probe = CaptureSet { paths };
            let present = probe.contains(e.path.as_slice());
            paths = probe.paths;
            assert(present == before.contains(e.path@)) by {
                assert(before.to_set().contains(e.path@) == before.contains(e.path@));
            }
            if !present {
                let p = e.path.clone();
                paths.push(p);
                assert(byte_strings(paths@) =~= before.push(e.path@));
                assert forall|q: Seq<u8>| #[trigger] byte_strings(paths@).contains(q) <==> (
                before.contains(q) || q == e.path@) by {
                    if q == e.path@ {
                        assert(byte_strings(paths@)[before.len() as int] == q);
                    }
                    if before.contains(q) {
                        let k = choose|k: int| 0 <= k < before.len() && before[k] == q;
                        assert(byte_strings(paths@)[k] == q);
                    }
                    if byte_strings(paths@).contains(q) && q != e.path@ {
                        let k = choose|k: int| 0 <= k < byte_strings(paths@).len() && byte_strings(paths@)[k] == q;
                        assert(before[k] == q);
                    }
                }
            }
        }
        assert forall|q: Seq<u8>| #[trigger] byte_strings(paths@).contains(q) <==> exists|j: int|
            0 <= j < i + 1 && is_capture_entry(#[trigger] entries@[j]) && entries@[j].path@ == q by {
            if byte_strings(paths@).contains(q) && !before.contains(q) {
                assert(is_capture_entry(entries@[i as int]) && entries@[i as int].path@ == q);
            }
        }
        i = i + 1;
    }
    let set = CaptureSet { paths };
    assert(set.view() =~= spec_snapshot(entries@));
    assert forall|p: Seq<u8>| #[trigger] set.view().contains(p) <==> exists|j: int|
        0 <= j < entries@.len() && spec_is_capture_file(entries@[j].name@) && entries@[j].path@ == p by {
        lemma_snapshot_holds_every_capture(entries@, p);
    }
    set
}

/// The first capture file among `entries` (in listing order) that is not in
/// the baseline, if any: a capture that completed since the watcher started.
pub fn find_new_capture(entries: &Vec<CaptureEntry>, baseline: &CaptureSet) -> (found: Option<
    Vec<u8>,
>)
    ensures
        found matches Some(p) ==> spec_find_new_capture(entries@, baseline.view()) == Some(p@),
        found is None ==> spec_find_new_capture(entries@, baseline.view()) is None,
        (exists|j: int| is_new_capture_at(entries@, baseline.view(), j)) <==> found is Some,
        forall|j: int|
            #![trigger is_new_capture_at(entries@, baseline.view(), j)]
            is_new_capture_at(entries@, baseline.view(), j) && (forall|k: int|
                0 <= k < j ==> !is_new_capture_at(entries@, baseline.view(), k)) ==> (found matches Some(
                p,
            ) && p@ == entries@[j].path@),
{
    let mut i: usize = 0;
    assert(entries@.skip(0) =~= entries@);
    while i < entries.len()
        invariant
            i <= entries@.len(),
            spec_find_new_capture(entries@, baseline.view()) == spec_find_new_capture(
                entries@.skip(i as int),
                baseline.view(),
            ),
        decreases entries@.len() - i,
    {
        let e = &entries[i];
        assert(entries@.skip(i as int)[0] == entries@[i as int]);
        assert(entries@.skip(i as int).drop_first() =~= entries@.skip(i + 1));
        if is_capture_file(e.name.as_slice()) && !baseline.contains(e.path.as_slice()) {
            proof {
                lemma_find_reports_first_new_capture(entries@, baseline.view());
            }
            return Some(e.path.clone());
        }
        i = i + 1;
    }
    proof {
        lemma_find_reports_first_new_capture(entries@, baseline.view());
    }
    None
}

} // verus!
