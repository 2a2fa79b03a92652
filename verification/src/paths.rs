//! Path equality by components, as `Path` compares paths: separators are
//! collapsed, trailing separators and `.` components (after the first)
//! are ignored.
//!
//! Paths are byte strings (the encoded bytes of the system's path strings).
//! On Windows both `/` and `\` separate components, and a drive prefix
//! such as `C:` is compared without regard to the letter's case; network and
//! verbatim prefixes (`\\server\share`, `\\?\`) are not told apart from
//! ordinary components.

use vstd::prelude::*;
use crate::bytes::{bytes_eq, copy_from};
use crate::capture::byte_strings;
use crate::dirs::{Platform, is_separator, has_drive};

verus! {

/// Length of the first component of `s`: the bytes before its first
/// separator.
pub open spec fn first_sep(p: Platform, s: Seq<u8>) -> nat
    decreases s.len(),
{
    if s.len() == 0 || is_separator(p, s[0]) {
        0
    } else {
        1 + first_sep(p, s.drop_first())
    }
}

/// Where the first component ends.
pub proof fn lemma_first_sep(p: Platform, s: Seq<u8>)
    ensures
        first_sep(p, s) <= s.len(),
        first_sep(p, s) < s.len() ==> is_separator(p, s[first_sep(p, s) as int]),
        forall|k: int| 0 <= k < first_sep(p, s) ==> !is_separator(p, #[trigger] s[k]),
    decreases s.len(),
{
    if s.len() > 0 && !is_separator(p, s[0]) {
        lemma_first_sep(p, s.drop_first());
        assert forall|k: int| 0 <= k < first_sep(p, s) implies !is_separator(p, #[trigger] s[k]) by {
            if k > 0 {
                assert(s[k] == s.drop_first()[k - 1]);
            }
        }
    }
}

/// A component that names something: not empty and not `.`.
pub open spec fn is_normal_component(c: Seq<u8>) -> bool {
    c.len() > 0 && c != seq![46u8]
}

/// The named components of `s`, in order: what lies between separators,
/// leaving out empty and `.` components.
pub open spec fn normal_components(p: Platform, s: Seq<u8>) -> Seq<Seq<u8>>
    decreases s.len(),
{
    let d = first_sep(p, s);
    let head = s.take(d as int);
    proof {
        lemma_first_sep(p, s);
    }
    let tail = if d < s.len() {
        normal_components(p, s.skip(d + 1 as int))
    } else {
        Seq::<Seq<u8>>::empty()
    };
    if is_normal_component(head) {
        seq![head] + tail
    } else {
        tail
    }
}

/// The path starts at the root.
pub open spec fn has_root(p: Platform, s: Seq<u8>) -> bool {
    s.len() > 0 && is_separator(p, s[0])
}

/// The path starts with a `.` component (`.` or `./...`).
pub open spec fn leading_cur_dir(p: Platform, s: Seq<u8>) -> bool {
    !has_root(p, s) && s.len() > 0 && s[0] == 46u8 && (s.len() == 1 || is_separator(p, s[1]))
}

/// A drive prefix in upper case, or nothing.
pub open spec fn drive_component(p: Platform, s: Seq<u8>) -> Seq<u8> {
    if has_drive(p, s) {
        seq![if 97 <= s[0] <= 122 { (s[0] - 32) as u8 } else { s[0] }, 58u8]
    } else {
        Seq::<u8>::empty()
    }
}

/// What follows the drive prefix.
pub open spec fn after_prefix(p: Platform, s: Seq<u8>) -> Seq<u8> {
    if has_drive(p, s) {
        s.skip(2)
    } else {
        s
    }
}

/// `a` and `b` name the same path: same drive, same root, same leading
/// `.`, same named components.
pub open spec fn same_path(p: Platform, a: Seq<u8>, b: Seq<u8>) -> bool {
    let ra = after_prefix(p, a);
    let rb = after_prefix(p, b);
    &&& drive_component(p, a) == drive_component(p, b)
    &&& has_root(p, ra) == has_root(p, rb)
    &&& leading_cur_dir(p, ra) == leading_cur_dir(p, rb)
    &&& normal_components(p, ra) == normal_components(p, rb)
}

fn separator_at(p: Platform, b: u8) -> (r: bool)
    ensures
        r == is_separator(p, b),
{
    b == 47u8 || (matches!(p, Platform::Windows) && b == 92u8)
}

/// The named components of `s`.
pub fn components(p: Platform, s: &[u8]) -> (c: Vec<Vec<u8>>)
    ensures
        byte_strings(c@) == normal_components(p, s@),
{
    let n = s.len();
    let mut out: Vec<Vec<u8>> = Vec::new();
    let mut i: usize = 0;
    assert(s@.skip(0) =~= s@);
    loop
        invariant
            n == s@.len(),
            i <= n,
            byte_strings(out@) + normal_components(p, s@.skip(i as int)) == normal_components(
                p,
                s@,
            ),
        decreases n - i,
    {
        let start = i;
        while i < n && !separator_at(p, s[i])
            invariant
                n == s@.len(),
                start <= i <= n,
                forall|k: int| start <= k < i ==> !is_separator(p, #[trigger] s@[k]),
            decreases n - i,
        {
            i = i + 1;
        }
        let ghost t = s@.skip(start as int);
        proof {
            assert forall|k: int| 0 <= k < i - start implies !is_separator(p, #[trigger] t[k]) by {
                assert(t[k] == s@[k + start]);
            }
            if i < n {
                assert(t[i - start] == s@[i as int]);
            }
            lemma_first_sep_is(p, t, i - start);
            assert(t.take(i - start) =~= s@.subrange(start as int, i as int));
            if i < n {
                assert(t.skip(i - start + 1) =~= s@.skip(i + 1));
            }
        }
        let seg = copy_from_to(s, start, i);
        let normal = seg.len() > 0 && !(seg.len() == 1 && seg[0] == 46u8);
        proof {
            if seg@ == seq![46u8] {
                assert(seg@[0] == 46u8);
            }
            if seg.len() == 1 && seg@[0] == 46u8 {
                assert(seg@ =~= seq![46u8]);
            }
        }
        let ghost before = byte_strings(out@);
        if normal {
            out.push(seg);
            proof {
                assert(byte_strings(out@) =~= before.push(t.take(i - start)));
            }
        }
        if i == n {
            proof {
                assert(before + normal_components(p, t) =~= byte_strings(out@) + Seq::<
                    Seq<u8>,
                >::empty());
                assert(t == s@.skip(start as int));
            }
            return out;
        }
        proof {
            if normal {
                assert(before + (seq![t.take(i - start)] + normal_components(p, s@.skip(i + 1)))
                    =~= byte_strings(out@) + normal_components(p, s@.skip(i + 1)));
            }
        }
        i = i + 1;
    }
}

/// A component ends at the first separator.
pub proof fn lemma_first_sep_is(p: Platform, t: Seq<u8>, m: int)
    requires
        0 <= m <= t.len(),
        forall|k: int| 0 <= k < m ==> !is_separator(p, #[trigger] t[k]),
        m == t.len() || is_separator(p, t[m]),
    ensures
        first_sep(p, t) == m,
    decreases m,
{
    if m > 0 {
        assert forall|k: int| 0 <= k < m - 1 implies !is_separator(p, #[trigger] t.drop_first()[k]) by {
            assert(t.drop_first()[k] == t[k + 1]);
        }
        if m < t.len() {
            assert(t.drop_first()[m - 1] == t[m]);
        }
        lemma_first_sep_is(p, t.drop_first(), m - 1);
    }
}

/// Copies `s[from..to]`.
fn copy_from_to(s: &[u8], from: usize, to: usize) -> (r: Vec<u8>)
    requires
        from <= to <= s@.len(),
    ensures
        r@ == s@.subrange(from as int, to as int),
{
    let mut r: Vec<u8> = Vec::new();
    let mut i: usize = from;
    while i < to
        invariant
            from <= i <= to <= s@.len(),
            r@ == s@.subrange(from as int, i as int),
        decreases to - i,
    {
        r.push(s[i]);
        i = i + 1;
        assert(r@ =~= s@.subrange(from as int, i as int));
    }
    r
}

fn root_of(p: Platform, s: &[u8]) -> (r: bool)
    ensures
        r == has_root(p, s@),
{
    s.len() > 0 && separator_at(p, s[0])
}

fn cur_dir_of(p: Platform, s: &[u8]) -> (r: bool)
    ensures
        r == leading_cur_dir(p, s@),
{
    !root_of(p, s) && s.len() > 0 && s[0] == 46u8 && (s.len() == 1 || separator_at(p, s[1]))
}

fn drive_of(p: Platform, s: &[u8]) -> (d: Option<u8>)
    ensures
        d is Some == has_drive(p, s@),
        d matches Some(l) ==> drive_component(p, s@) == seq![l, 58u8],
{
    if matches!(p, Platform::Windows) && s.len() >= 2 && s[1] == 58u8 {
        if 65 <= s[0] && s[0] <= 90 {
            return Some(s[0]);
        }
        if 97 <= s[0] && s[0] <= 122 {
            return Some(s[0] - 32);
        }
    }
    None
}

/// Whether `a` and `b` name the same path, comparing them component by
/// component as `Path` does.
pub fn same_path_exec(p: Platform, a: &[u8], b: &[u8]) -> (r: bool)
    ensures
        r == same_path(p, a@, b@),
{
    let da = drive_of(p, a);
    let db = drive_of(p, b);
    let same_drive = match (da, db) {
        (Some(x), Some(y)) => x == y,
        (None, None) => true,
        _ => false,
    };
    proof {
        if da.is_some() != db.is_some() {
            assert(drive_component(p, a@).len() != drive_component(p, b@).len());
        }
        if let (Some(x), Some(y)) = (da, db) {
            if x != y {
                assert(drive_component(p, a@)[0] != drive_component(p, b@)[0]);
            }
        }
    }
    if !same_drive {
        return false;
    }
    let ra = if da.is_some() { copy_from(a, 2) } else { copy_from(a, 0) };
    let rb = if db.is_some() { copy_from(b, 2) } else { copy_from(b, 0) };
    assert(a@.subrange(0, a@.len() as int) =~= a@);
    assert(b@.subrange(0, b@.len() as int) =~= b@);
    assert(ra@ == after_prefix(p, a@));
    assert(rb@ == after_prefix(p, b@));
    same_rest(p, ra.as_slice(), rb.as_slice())
}

fn same_rest(p: Platform, a: &[u8], b: &[u8]) -> (r: bool)
    ensures
        r == (has_root(p, a@) == has_root(p, b@) && leading_cur_dir(p, a@) == leading_cur_dir(p, b@)
            && normal_components(p, a@) == normal_components(p, b@)),
{
    if root_of(p, a) != root_of(p, b) || cur_dir_of(p, a) != cur_dir_of(p, b) {
        return false;
    }
    let ca = components(p, a);
    let cb = components(p, b);
    if ca.len() != cb.len() {
        assert(byte_strings(ca@).len() != byte_strings(cb@).len());
        return false;
    }
    let mut k: usize = 0;
    while k < ca.len()
        invariant
            ca@.len() == cb@.len(),
            byte_strings(ca@) == normal_components(p, a@),
            byte_strings(cb@) == normal_components(p, b@),
            k <= ca@.len(),
            forall|j: int| 0 <= j < k ==> ca@[j]@ == cb@[j]@,
        decreases ca@.len() - k,
    {
        if !bytes_eq(ca[k].as_slice(), cb[k].as_slice()) {
            assert(byte_strings(ca@)[k as int] != byte_strings(cb@)[k as int]);
            assert(byte_strings(ca@) != byte_strings(cb@));
            return false;
        }
        k = k + 1;
    }
    assert(byte_strings(ca@) =~= byte_strings(cb@));
    true
}

} // verus!
