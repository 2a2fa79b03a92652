//! The directories where the operating systems' capture tools save
//! screenshots and recordings.
//!
//! Paths are byte strings (the encoded bytes of the system's path strings).

use vstd::prelude::*;
use crate::bytes::{extend, starts_with, copy_from};
use crate::paths::{
    after_prefix,
    first_sep,
    is_normal_component,
    lemma_first_sep,
    lemma_first_sep_is,
    normal_components,
    same_path,
    same_path_exec,
};
use crate::capture::byte_strings;
use crate::text::{spec_trim, trim};
use vstd::utf8::{encode_scalar, encode_utf8};

verus! {

/// The operating system whose capture folders are watched.
#[derive(Clone, Copy, Debug)]
pub enum Platform {
    MacOs,
    Windows,
    Linux,
    /// Any other system: no capture folder is known.
    Other,
}

/// The separator written between two path components.
pub open spec fn separator(p: Platform) -> u8 {
    match p {
        Platform::Windows => 92u8,  // '\'
        _ => 47u8,  // '/'
    }
}

/// Whether `b` separates path components (`/`, and also `\` on Windows).
pub open spec fn is_separator(p: Platform, b: u8) -> bool {
    b == 47u8 || (p is Windows && b == 92u8)
}

/// On Windows, `s` begins with a drive prefix such as `C:`.
pub open spec fn has_drive(p: Platform, s: Seq<u8>) -> bool {
    &&& p is Windows
    &&& s.len() >= 2
    &&& (65 <= s[0] <= 90 || 97 <= s[0] <= 122)
    &&& s[1] == 58u8
}

/// `rel` after `base`, with one separator between them unless `base` is
/// empty or already ends with one.
pub open spec fn plain_join(p: Platform, base: Seq<u8>, rel: Seq<u8>) -> Seq<u8> {
    if base.len() == 0 || is_separator(p, base.last()) {
        base + rel
    } else {
        base + seq![separator(p)] + rel
    }
}

/// `rel` joined onto `base`, as `PathBuf::push` joins them. An absolute
/// `rel` (on Windows: one with a drive prefix, or starting with `\\`)
/// stands on its own; on Windows a `rel` that starts with a separator keeps
/// only `base`'s drive, and a bare drive `C:` takes `rel` with no separator.
/// Otherwise `rel` goes after `base` with one separator between them.
/// (Windows network and verbatim prefixes of `base` are not kept when
/// `rel` starts with a separator.)
pub open spec fn spec_home_join(p: Platform, base: Seq<u8>, rel: Seq<u8>) -> Seq<u8> {
    if p is Windows {
        if has_drive(p, rel) || (rel.len() >= 2 && rel[0] == 92u8 && rel[1] == 92u8) {
            rel
        } else if rel.len() > 0 && is_separator(p, rel[0]) {
            if has_drive(p, base) {
                base.take(2) + rel
            } else {
                rel
            }
        } else if has_drive(p, base) && base.len() == 2 {
            base + rel
        } else {
            plain_join(p, base, rel)
        }
    } else if rel.len() > 0 && is_separator(p, rel[0]) {
        rel
    } else {
        plain_join(p, base, rel)
    }
}

fn drive_prefix(p: Platform, s: &[u8]) -> (r: bool)
    ensures
        r == has_drive(p, s@),
{
    matches!(p, Platform::Windows) && s.len() >= 2 && ((65 <= s[0] && s[0] <= 90) || (97 <= s[0]
        && s[0] <= 122)) && s[1] == 58u8
}

fn separator_of(p: Platform) -> (b: u8)
    ensures
        b == separator(p),
{
    match p {
        Platform::Windows => 92u8,
        _ => 47u8,
    }
}

fn separator_byte(p: Platform, b: u8) -> (r: bool)
    ensures
        r == is_separator(p, b),
{
    b == 47u8 || (matches!(p, Platform::Windows) && b == 92u8)
}

/// `rel` joined onto the home directory `home`.
pub fn home_join(p: Platform, home: &[u8], rel: &[u8]) -> (path: Vec<u8>)
    ensures
        path@ == spec_home_join(p, home@, rel@),
{
    let windows = matches!(p, Platform::Windows);
    let rooted = rel.len() > 0 && separator_byte(p, rel[0]);
    assert(rel@.subrange(0, rel@.len() as int) =~= rel@);
    if windows && (drive_prefix(p, rel) || (rel.len() >= 2 && rel[0] == 92u8 && rel[1] == 92u8)) {
        return copy_from(rel, 0);
    }
    if rooted {
        if windows && drive_prefix(p, home) {
            let mut path: Vec<u8> = Vec::new();
            path.push(home[0]);
            path.push(home[1]);
            assert(path@ =~= home@.take(2));
            extend(&mut path, rel);
            return path;
        }
        return copy_from(rel, 0);
    }
    let mut path = copy_from(home, 0);
    assert(home@.subrange(0, home@.len() as int) =~= home@);
    let bare_drive = windows && drive_prefix(p, home) && home.len() == 2;
    if home.len() > 0 && !separator_byte(p, home[home.len() - 1]) && !bare_drive {
        path.push(separator_of(p));
    }
    extend(&mut path, rel);
    path
}

pub open spec fn desktop() -> Seq<u8> {
    seq![68u8, 101u8, 115u8, 107u8, 116u8, 111u8, 112u8]
}

pub open spec fn pictures() -> Seq<u8> {
    seq![80u8, 105u8, 99u8, 116u8, 117u8, 114u8, 101u8, 115u8]
}

pub open spec fn screenshots() -> Seq<u8> {
    seq![83u8, 99u8, 114u8, 101u8, 101u8, 110u8, 115u8, 104u8, 111u8, 116u8, 115u8]
}

pub open spec fn videos() -> Seq<u8> {
    seq![86u8, 105u8, 100u8, 101u8, 111u8, 115u8]
}

pub open spec fn captures() -> Seq<u8> {
    seq![67u8, 97u8, 112u8, 116u8, 117u8, 114u8, 101u8, 115u8]
}

pub open spec fn screencasts() -> Seq<u8> {
    seq![83u8, 99u8, 114u8, 101u8, 101u8, 110u8, 99u8, 97u8, 115u8, 116u8, 115u8]
}

/// The folders, relative to home, where a system's capture tools save by
/// default: `Pictures\Screenshots` and `Videos\Captures` on Windows;
/// `Pictures`, `Pictures/Screenshots` and `Videos/Screencasts` on Linux.
pub open spec fn default_relative_dirs(p: Platform) -> Seq<Seq<u8>> {
    match p {
        Platform::Windows => seq![
            pictures() + seq![92u8] + screenshots(),
            videos() + seq![92u8] + captures(),
        ],
        Platform::Linux => seq![
            pictures(),
            pictures() + seq![47u8] + screenshots(),
            videos() + seq![47u8] + screencasts(),
        ],
        _ => seq![],
    }
}

/// The capture folders before duplicates are dropped. On macOS: the
/// configured screenshot location (the home's `Desktop` when none is set),
/// then the screen-recording location when one is set.
pub open spec fn candidate_dirs(
    p: Platform,
    home: Seq<u8>,
    screenshot_location: Option<Seq<u8>>,
    recording_location: Option<Seq<u8>>,
) -> Seq<Seq<u8>> {
    match p {
        Platform::MacOs => seq![
            match screenshot_location {
                Some(s) => s,
                None => spec_home_join(p, home, desktop()),
            },
        ] + match recording_location {
            Some(r) => seq![r],
            None => Seq::<Seq<u8>>::empty(),
        },
        _ => default_relative_dirs(p).map_values(|rel: Seq<u8>| spec_home_join(p, home, rel)),
    }
}

/// `s` with each run of consecutive entries that name the same path (as
/// [`same_path`] compares them) reduced to its first entry.
pub open spec fn dedup(p: Platform, s: Seq<Seq<u8>>) -> Seq<Seq<u8>>
    decreases s.len(),
{
    if s.len() == 0 {
        s
    } else {
        let d = dedup(p, s.drop_last());
        if d.len() > 0 && same_path(p, d.last(), s.last()) {
            d
        } else {
            d.push(s.last())
        }
    }
}

/// `v` with each run of consecutive entries that name the same path reduced
/// to its first entry: `Vec::dedup` on paths, which compares them as `Path`
/// does.
pub fn dedup_paths(p: Platform, v: Vec<Vec<u8>>) -> (out: Vec<Vec<u8>>)
    ensures
        byte_strings(out@) == dedup(p, byte_strings(v@)),
{
    let mut out: Vec<Vec<u8>> = Vec::new();
    let mut i: usize = 0;
    let ghost s = byte_strings(v@);
    assert(s.take(0) =~= Seq::<Seq<u8>>::empty());
    while i < v.len()
        invariant
            s == byte_strings(v@),
            i <= v@.len(),
            byte_strings(out@) == dedup(p, s.take(i as int)),
        decreases v@.len() - i,
    {
        assert(s.take(i + 1).drop_last() =~= s.take(i as int));
        assert(s.take(i + 1).last() == v@[i as int]@);
        let keep = if out.len() == 0 {
            true
        } else {
            proof {
                assert(byte_strings(out@).last() == out@[out@.len() - 1]@);
            }
            !same_path_exec(p, out[out.len() - 1].as_slice(), v[i].as_slice())
        };
        if keep {
            let ghost before = byte_strings(out@);
            out.push(copy_from(v[i].as_slice(), 0));
            assert(v[i as int]@.subrange(0, v[i as int]@.len() as int) =~= v[i as int]@);
            assert(byte_strings(out@) =~= before.push(v@[i as int]@));
        }
        i = i + 1;
    }
    assert(s.take(v@.len() as int) =~= s);
    out
}

/// The contents of an optional byte vector.
pub open spec fn opt_bytes(o: Option<Vec<u8>>) -> Option<Seq<u8>> {
    match o {
        Some(v) => Some(v@),
        None => None,
    }
}

fn word_pictures() -> (v: Vec<u8>)
    ensures
        v@ == pictures(),
{
    let v = vec![80u8, 105u8, 99u8, 116u8, 117u8, 114u8, 101u8, 115u8];
    assert(v@ =~= pictures());
    v
}

fn word_videos() -> (v: Vec<u8>)
    ensures
        v@ == videos(),
{
    let v = vec![86u8, 105u8, 100u8, 101u8, 111u8, 115u8];
    assert(v@ =~= videos());
    v
}

fn two_words(first: Vec<u8>, sep: u8, second: Vec<u8>) -> (v: Vec<u8>)
    ensures
        v@ == first@ + seq![sep] + second@,
{
    let mut v = first;
    v.push(sep);
    extend(&mut v, second.as_slice());
    v
}

/// The folders the capture tools of `platform` save into, as paths, with
/// consecutive duplicates dropped. `home` is the home directory (empty when
/// unknown); the two locations are the macOS screenshot and screen-recording
/// folders when they are configured.
pub fn capture_dirs(
    platform: Platform,
    home: &[u8],
    screenshot_location: Option<Vec<u8>>,
    recording_location: Option<Vec<u8>>,
) -> (dirs: Vec<Vec<u8>>)
    ensures
        byte_strings(dirs@) == dedup(
            platform,
            candidate_dirs(
                platform,
                home@,
                opt_bytes(screenshot_location),
                opt_bytes(recording_location),
            ),
        ),
        platform is MacOs ==> dirs@.len() >= 1 && dirs@[0]@ == match screenshot_location {
            Some(s) => s@,
            None => home_desktop(home@),
        },
{
    let ghost shot = opt_bytes(screenshot_location);
    let ghost rec = opt_bytes(recording_location);
    let mut dirs: Vec<Vec<u8>> = Vec::new();
    match platform {
        Platform::MacOs => {
            let first = match screenshot_location {
                Some(s) => s,
                None => {
                    let desk = vec![68u8, 101u8, 115u8, 107u8, 116u8, 111u8, 112u8];
                    assert(desk@ =~= desktop());
                    home_join(platform, home, desk.as_slice())
                },
            };
            dirs.push(first);
            match recording_location {
                Some(r) => {
                    dirs.push(r);
                },
                None => {},
            }
        },
        Platform::Windows => {
            let shots = vec![83u8, 99u8, 114u8, 101u8, 101u8, 110u8, 115u8, 104u8, 111u8, 116u8, 115u8];
            assert(shots@ =~= screenshots());
            let caps = vec![67u8, 97u8, 112u8, 116u8, 117u8, 114u8, 101u8, 115u8];
            assert(caps@ =~= captures());
            let a = two_words(word_pictures(), 92u8, shots);
            let b = two_words(word_videos(), 92u8, caps);
            dirs.push(home_join(platform, home, a.as_slice()));
            dirs.push(home_join(platform, home, b.as_slice()));
        },
        Platform::Linux => {
            let shots = vec![83u8, 99u8, 114u8, 101u8, 101u8, 110u8, 115u8, 104u8, 111u8, 116u8, 115u8];
            assert(shots@ =~= screenshots());
            let casts = vec![83u8, 99u8, 114u8, 101u8, 101u8, 110u8, 99u8, 97u8, 115u8, 116u8, 115u8];
            assert(casts@ =~= screencasts());
            let a = word_pictures();
            let b = two_words(word_pictures(), 47u8, shots);
            let c = two_words(word_videos(), 47u8, casts);
            dirs.push(home_join(platform, home, a.as_slice()));
            dirs.push(home_join(platform, home, b.as_slice()));
            dirs.push(home_join(platform, home, c.as_slice()));
        },
        Platform::Other => {},
    }
    assert(byte_strings(dirs@) =~= candidate_dirs(platform, home@, shot, rec));
    let out = dedup_paths(platform, dirs);
    proof {
        if platform is MacOs {
            lemma_macos_capture_dirs(home@, shot, rec);
            assert(byte_strings(out@)[0] == out@[0]@);
        }
    }
    out
}

/// The folder that one `defaults read com.apple.screencapture <key>` run
/// names: none when the command failed or printed only white space; a
/// leading `~/` stands for the home directory.
pub open spec fn spec_screencapture_default(
    succeeded: bool,
    stdout: Seq<char>,
    home: Seq<u8>,
) -> Option<Seq<u8>> {
    let raw = spec_trim(stdout);
    if !succeeded || raw.len() == 0 {
        None
    } else if raw.len() >= 2 && raw[0] == '~' && raw[1] == '/' {
        Some(spec_home_join(Platform::MacOs, home, encode_utf8(raw.skip(2))))
    } else {
        Some(encode_utf8(raw))
    }
}

/// The first byte of a character's UTF-8 encoding is an ASCII byte `b`
/// exactly when the character is `b`, and then it is the whole encoding.
proof fn lemma_ascii_leading_byte(c: char, b: u8)
    requires
        b < 0x80,
    ensures
        encode_scalar(c as u32).len() >= 1,
        (encode_scalar(c as u32)[0] == b) == (c as u32 == b as u32),
        c as u32 == b as u32 ==> encode_scalar(c as u32) == seq![b],
{
    let u = c as u32;
    if u <= 0x7F {
        assert((u & 0x7F) == u) by (bit_vector)
            requires
                u <= 0x7F,
        ;
        assert(((u & 0x7F) as u8) as u32 == (u & 0x7F));
    } else if u <= 0x7FF {
        let x = ((u >> 6) & 0x1F) as u8;
        assert(0xC0u8 | x >= 0xC0u8) by (bit_vector);
    } else if u <= 0xFFFF {
        let x = ((u >> 12) & 0x0F) as u8;
        assert(0xE0u8 | x >= 0xE0u8) by (bit_vector);
    } else {
        let x = ((u >> 18) & 0x7) as u8;
        assert(0xF0u8 | x >= 0xF0u8) by (bit_vector);
    }
}

/// Text starts with `~/` exactly when its UTF-8 bytes do, and then the bytes
/// after them encode the text after them.
proof fn lemma_tilde_slash_bytes(raw: Seq<char>)
    ensures
        ({
            let b = encode_utf8(raw);
            &&& (b.len() >= 2 && b[0] == 126u8 && b[1] == 47u8) == (raw.len() >= 2 && raw[0] == '~'
                && raw[1] == '/')
            &&& (raw.len() >= 2 && raw[0] == '~' && raw[1] == '/') ==> b.subrange(2, b.len() as int)
                == encode_utf8(raw.skip(2))
        }),
{
    let b = encode_utf8(raw);
    if raw.len() == 0 {
        assert(b.len() == 0);
    } else {
        let r1 = raw.drop_first();
        assert(b == encode_scalar(raw[0] as u32) + encode_utf8(r1));
        lemma_ascii_leading_byte(raw[0], 126u8);
        assert(b[0] == encode_scalar(raw[0] as u32)[0]);
        assert(('~' as u32) == 126u32);
        assert(('/' as u32) == 47u32);
        vstd::utf8::char_u32_cast(raw[0], raw[0] as u32);
        vstd::utf8::char_u32_cast('~', 126u32);
        if raw.len() >= 2 {
            vstd::utf8::char_u32_cast(raw[1], raw[1] as u32);
            vstd::utf8::char_u32_cast('/', 47u32);
        }
        if raw[0] == '~' {
            assert(b == seq![126u8] + encode_utf8(r1));
            if r1.len() == 0 {
                assert(encode_utf8(r1).len() == 0);
            } else {
                let r2 = r1.drop_first();
                assert(encode_utf8(r1) == encode_scalar(r1[0] as u32) + encode_utf8(r2));
                lemma_ascii_leading_byte(r1[0], 47u8);
                assert(b[1] == encode_scalar(r1[0] as u32)[0]);
                assert(r1[0] == raw[1]);
                if raw[1] == '/' {
                    assert(r2 =~= raw.skip(2));
                    assert(b.subrange(2, b.len() as int) =~= encode_utf8(r2));
                }
            }
        } else {
            assert(raw[0] as u32 != 126u32);
        }
    }
}

/// The macOS capture folder configured under one `com.apple.screencapture`
/// key, from the outcome of the `defaults read` command that queried it
/// (whether it succeeded, and what it printed).
pub fn screencapture_default(succeeded: bool, stdout: &str, home: &[u8]) -> (dir: Option<Vec<u8>>)
    ensures
        opt_bytes(dir) == spec_screencapture_default(succeeded, stdout@, home@),
{
    if !succeeded {
        return None;
    }
    let raw = trim(stdout);
    if raw.is_empty() {
        return None;
    }
    let b = raw.as_bytes();
    proof {
        lemma_tilde_slash_bytes(raw@);
    }
    let tilde_slash = [126u8, 47u8];
    if starts_with(b, tilde_slash.as_slice()) {
        assert(b@.subrange(0, 2) == seq![126u8, 47u8]);
        assert(b@[0] == b@.subrange(0, 2)[0]);
        assert(b@[1] == b@.subrange(0, 2)[1]);
        let rest = copy_from(b, 2);
        Some(home_join(Platform::MacOs, home, rest.as_slice()))
    } else {
        proof {
            if b@.len() >= 2 && b@[0] == 126u8 && b@[1] == 47u8 {
                assert(b@.subrange(0, 2) =~= seq![126u8, 47u8]);
            }
        }
        Some(copy_from(b, 0))
    }
}

proof fn lemma_dedup_first(p: Platform, s: Seq<Seq<u8>>)
    requires
        s.len() > 0,
    ensures
        dedup(p, s).len() > 0,
        dedup(p, s)[0] == s[0],
    decreases s.len(),
{
    let d = dedup(p, s.drop_last());
    if s.len() > 1 {
        lemma_dedup_first(p, s.drop_last());
        assert(s.drop_last()[0] == s[0]);
        assert(d.push(s.last())[0] == d[0]);
    } else {
        assert(s.drop_last().len() == 0);
        assert(d == s.drop_last());
        assert(d.len() == 0);
    }
}

proof fn lemma_dedup_single(p: Platform, x: Seq<u8>)
    ensures
        dedup(p, seq![x]) == seq![x],
{
    let s = seq![x];
    assert(s.drop_last().len() == 0);
    assert(dedup(p, s.drop_last()) == s.drop_last());
    assert(s.drop_last().push(x) =~= s);
}

/// The home folder's `Desktop`, where macOS saves screenshots by default.
pub open spec fn home_desktop(home: Seq<u8>) -> Seq<u8> {
    spec_home_join(Platform::MacOs, home, seq![68u8, 101u8, 115u8, 107u8, 116u8, 111u8, 112u8])
}

/// On macOS the screenshot folder comes first: the configured location
/// when there is one (whatever the recording location), the home's
/// `Desktop` otherwise. The recording location follows when it is set and
/// names another folder; when it names the same folder it is not listed
/// again.
pub proof fn lemma_macos_capture_dirs(
    home: Seq<u8>,
    screenshot_location: Option<Seq<u8>>,
    recording_location: Option<Seq<u8>>,
)
    ensures
        ({
            let p = Platform::MacOs;
            let d = dedup(p, candidate_dirs(p, home, screenshot_location, recording_location));
            let first = match screenshot_location {
                Some(s) => s,
                None => home_desktop(home),
            };
            &&& d.len() >= 1
            &&& d[0] == first
            &&& recording_location is None ==> d.len() == 1
            &&& recording_location matches Some(r) ==> (if same_path(p, first, r) {
                d.len() == 1
            } else {
                d.len() == 2 && d[1] == r
            })
        }),
{
    let p = Platform::MacOs;
    let c = candidate_dirs(p, home, screenshot_location, recording_location);
    assert(desktop() == seq![68u8, 101u8, 115u8, 107u8, 116u8, 111u8, 112u8]);
    lemma_dedup_first(p, c);
    if c.len() == 2 {
        assert(c.drop_last() =~= seq![c[0]]);
        lemma_dedup_single(p, c[0]);
        assert(c.last() == c[1]);
    } else {
        assert(c.len() == 1);
        assert(c =~= seq![c[0]]);
        lemma_dedup_single(p, c[0]);
    }
}

/// Dropping duplicates leaves no two entries next to each other that name
/// the same path.
pub proof fn lemma_dedup_no_adjacent_duplicates(p: Platform, s: Seq<Seq<u8>>)
    ensures
        forall|k: int|
            0 <= k < dedup(p, s).len() - 1 ==> !same_path(p, #[trigger] dedup(p, s)[k], dedup(p, s)[k + 1]),
    decreases s.len(),
{
    if s.len() > 0 {
        lemma_dedup_no_adjacent_duplicates(p, s.drop_last());
        let d = dedup(p, s.drop_last());
        if !(d.len() > 0 && same_path(p, d.last(), s.last())) {
            assert forall|k: int| 0 <= k < dedup(p, s).len() - 1 implies !same_path(
                p,
                #[trigger] dedup(p, s)[k],
                dedup(p, s)[k + 1],
            ) by {
                if k + 1 == dedup(p, s).len() - 1 {
                    assert(dedup(p, s)[k] == d.last());
                } else {
                    assert(dedup(p, s)[k] == d[k]);
                    assert(dedup(p, s)[k + 1] == d[k + 1]);
                }
            }
        }
    }
}

proof fn lemma_components_concat(p: Platform, a: Seq<u8>, sep: u8, b: Seq<u8>)
    requires
        is_separator(p, sep),
    ensures
        normal_components(p, a + seq![sep] + b) == normal_components(p, a) + normal_components(
            p,
            b,
        ),
    decreases a.len(),
{
    let x = a + seq![sep] + b;
    let d = first_sep(p, a);
    lemma_first_sep(p, a);
    lemma_first_sep(p, x);
    if d < a.len() {
        assert forall|k: int| 0 <= k < d implies !is_separator(p, #[trigger] x[k]) by {
            assert(x[k] == a[k]);
        }
        assert(x[d as int] == a[d as int]);
        lemma_first_sep_is(p, x, d as int);
        assert(x.take(d as int) =~= a.take(d as int));
        let a2 = a.skip(d + 1 as int);
        assert(x.skip(d + 1 as int) =~= a2 + seq![sep] + b);
        lemma_components_concat(p, a2, sep, b);
        assert(normal_components(p, x) =~= normal_components(p, a) + normal_components(p, b));
    } else {
        assert forall|k: int| 0 <= k < a.len() implies !is_separator(p, #[trigger] x[k]) by {
            assert(x[k] == a[k]);
        }
        assert(x[a.len() as int] == sep);
        lemma_first_sep_is(p, x, a.len() as int);
        assert(x.take(a.len() as int) =~= a);
        assert(a.take(d as int) =~= a);
        assert(x.skip(a.len() + 1 as int) =~= b);
        assert(normal_components(p, x) =~= normal_components(p, a) + normal_components(p, b));
    }
}

proof fn lemma_components_of_word(p: Platform, w: Seq<u8>)
    requires
        is_normal_component(w),
        forall|k: int| 0 <= k < w.len() ==> !is_separator(p, #[trigger] w[k]),
    ensures
        normal_components(p, w) == seq![w],
{
    lemma_first_sep_is(p, w, w.len() as int);
    assert(w.take(w.len() as int) =~= w);
    assert(normal_components(p, w) =~= seq![w]);
}

proof fn lemma_components_of_empty(p: Platform)
    ensures
        normal_components(p, Seq::<u8>::empty()) == Seq::<Seq<u8>>::empty(),
{
    let e = Seq::<u8>::empty();
    assert(first_sep(p, e) == 0);
    assert(e.take(0) =~= e);
    assert(!is_normal_component(e.take(0)));
}

proof fn lemma_components_of_plain_join(p: Platform, home: Seq<u8>, rel: Seq<u8>)
    ensures
        normal_components(p, plain_join(p, home, rel)) == normal_components(p, home)
            + normal_components(p, rel),
{
    if home.len() == 0 {
        lemma_components_of_empty(p);
        assert(home + rel =~= rel);
        assert(Seq::<Seq<u8>>::empty() + normal_components(p, rel) =~= normal_components(p, rel));
    } else if is_separator(p, home.last()) {
        let a = home.drop_last();
        assert(home =~= a + seq![home.last()] + Seq::<u8>::empty());
        assert(home + rel =~= a + seq![home.last()] + rel);
        lemma_components_concat(p, a, home.last(), Seq::<u8>::empty());
        lemma_components_concat(p, a, home.last(), rel);
        lemma_components_of_empty(p);
        assert(normal_components(p, a) + Seq::<Seq<u8>>::empty() =~= normal_components(p, a));
    } else {
        lemma_components_concat(p, home, separator(p), rel);
    }
}

/// Joining a relative path onto home appends its components to those that
/// follow home's drive.
proof fn lemma_components_of_join(p: Platform, home: Seq<u8>, rel: Seq<u8>)
    requires
        !(rel.len() > 0 && is_separator(p, rel[0])),
        forall|k: int| 0 <= k < rel.len() ==> #[trigger] rel[k] != 58u8,
    ensures
        normal_components(p, after_prefix(p, spec_home_join(p, home, rel))) == normal_components(
            p,
            after_prefix(p, home),
        ) + normal_components(p, rel),
{
    let j = spec_home_join(p, home, rel);
    if rel.len() >= 2 {
        assert(rel[1] != 58u8);
    }
    if !(p is Windows) {
        lemma_components_of_plain_join(p, home, rel);
    } else if has_drive(p, home) && home.len() == 2 {
        assert(j == home + rel);
        assert(j[0] == home[0] && j[1] == home[1]);
        assert(j.skip(2) =~= rel);
        assert(home.skip(2) =~= Seq::<u8>::empty());
        lemma_components_of_empty(p);
        assert(Seq::<Seq<u8>>::empty() + normal_components(p, rel) =~= normal_components(p, rel));
    } else if has_drive(p, home) {
        let h2 = home.skip(2);
        assert(j == plain_join(p, home, rel));
        assert(j[0] == home[0] && j[1] == home[1]);
        assert(h2.last() == home.last());
        assert(j.skip(2) =~= plain_join(p, h2, rel));
        lemma_components_of_plain_join(p, h2, rel);
    } else {
        assert(j == plain_join(p, home, rel));
        if home.len() >= 2 {
            assert(j[0] == home[0] && j[1] == home[1]);
        } else if home.len() == 1 {
            if is_separator(p, home[0]) {
                if rel.len() > 0 {
                    assert(j[1] == rel[0]);
                }
            } else {
                assert(j[1] == separator(p));
            }
        } else {
            assert(j =~= rel);
        }
        assert(!has_drive(p, j));
        lemma_components_of_plain_join(p, home, rel);
    }
}

proof fn lemma_join_no_colon(a: Seq<u8>, sep: u8, b: Seq<u8>)
    requires
        sep != 58u8,
        forall|k: int| 0 <= k < a.len() ==> #[trigger] a[k] != 58u8,
        forall|k: int| 0 <= k < b.len() ==> #[trigger] b[k] != 58u8,
    ensures
        forall|k: int| 0 <= k < (a + seq![sep] + b).len() ==> #[trigger] (a + seq![sep] + b)[k] != 58u8,
{
    assert forall|k: int| 0 <= k < (a + seq![sep] + b).len() implies #[trigger] (a + seq![sep]
        + b)[k] != 58u8 by {
        if k < a.len() {
            assert((a + seq![sep] + b)[k] == a[k]);
        } else if k == a.len() {
            assert((a + seq![sep] + b)[k] == sep);
        } else {
            assert((a + seq![sep] + b)[k] == b[k - a.len() - 1]);
        }
    }
}

proof fn lemma_no_adjacent_same_is_fixed(p: Platform, s: Seq<Seq<u8>>)
    requires
        forall|k: int| 0 <= k < s.len() - 1 ==> !same_path(p, #[trigger] s[k], s[k + 1]),
    ensures
        dedup(p, s) == s,
    decreases s.len(),
{
    if s.len() > 0 {
        let t = s.drop_last();
        assert forall|k: int| 0 <= k < t.len() - 1 implies !same_path(p, #[trigger] t[k], t[k + 1]) by {
            assert(t[k] == s[k] && t[k + 1] == s[k + 1]);
        }
        lemma_no_adjacent_same_is_fixed(p, t);
        if t.len() > 0 {
            assert(t.last() == s[s.len() - 2]);
        }
        assert(t.push(s.last()) =~= s);
    }
}

proof fn lemma_dedup_len(p: Platform, s: Seq<Seq<u8>>)
    ensures
        dedup(p, s).len() <= s.len(),
    decreases s.len(),
{
    if s.len() > 0 {
        lemma_dedup_len(p, s.drop_last());
    }
}

proof fn lemma_word_bytes(p: Platform)
    ensures
        forall|k: int| 0 <= k < pictures().len() ==> !is_separator(p, #[trigger] pictures()[k]),
        forall|k: int| 0 <= k < screenshots().len() ==> !is_separator(p, #[trigger] screenshots()[k]),
        forall|k: int| 0 <= k < videos().len() ==> !is_separator(p, #[trigger] videos()[k]),
        forall|k: int| 0 <= k < captures().len() ==> !is_separator(p, #[trigger] captures()[k]),
        forall|k: int| 0 <= k < screencasts().len() ==> !is_separator(p, #[trigger] screencasts()[k]),
        is_normal_component(pictures()),
        is_normal_component(screenshots()),
        is_normal_component(videos()),
        is_normal_component(captures()),
        is_normal_component(screencasts()),
        pictures() != videos(),
        forall|k: int| 0 <= k < pictures().len() ==> #[trigger] pictures()[k] != 58u8,
        forall|k: int| 0 <= k < screenshots().len() ==> #[trigger] screenshots()[k] != 58u8,
        forall|k: int| 0 <= k < videos().len() ==> #[trigger] videos()[k] != 58u8,
        forall|k: int| 0 <= k < captures().len() ==> #[trigger] captures()[k] != 58u8,
        forall|k: int| 0 <= k < screencasts().len() ==> #[trigger] screencasts()[k] != 58u8,
{
    assert(pictures()[0] != videos()[0]);
}

/// The capture folders are pairwise different paths: no folder is watched
/// twice, whatever the home directory and the configured locations. There
/// are three on Linux, two on Windows, one or two on macOS and none
/// elsewhere.
pub proof fn lemma_capture_dirs_distinct(
    p: Platform,
    home: Seq<u8>,
    screenshot_location: Option<Seq<u8>>,
    recording_location: Option<Seq<u8>>,
)
    ensures
        ({
            let d = dedup(p, candidate_dirs(p, home, screenshot_location, recording_location));
            &&& forall|i: int, j: int|
                0 <= i < j < d.len() ==> !same_path(p, #[trigger] d[i], #[trigger] d[j])
            &&& p is Linux ==> d.len() == 3
            &&& p is Windows ==> d.len() == 2
            &&& p is MacOs ==> 1 <= d.len() <= 2
            &&& p is Other ==> d.len() == 0
        }),
{
    let c = candidate_dirs(p, home, screenshot_location, recording_location);
    lemma_dedup_no_adjacent_duplicates(p, c);
    lemma_dedup_len(p, c);
    let d = dedup(p, c);
    match p {
        Platform::MacOs => {
            assert(c.len() <= 2);
            assert(c.len() >= 1);
            assert(d.len() >= 1);
        },
        Platform::Other => {
            assert(c.len() == 0);
        },
        _ => {
            lemma_word_bytes(p);
            let sep = separator(p);
            let rels = default_relative_dirs(p);
            assert forall|k: int| 0 <= k < rels.len() implies !(rels[k].len() > 0 && is_separator(
                p,
                #[trigger] rels[k][0],
            )) by {}
            let hc = normal_components(p, after_prefix(p, home));
            if p is Windows {
                let r0 = pictures() + seq![sep] + screenshots();
                let r1 = videos() + seq![sep] + captures();
                lemma_components_concat(p, pictures(), sep, screenshots());
                lemma_components_concat(p, videos(), sep, captures());
                lemma_components_of_word(p, pictures());
                lemma_components_of_word(p, screenshots());
                lemma_components_of_word(p, videos());
                lemma_components_of_word(p, captures());
                lemma_join_no_colon(pictures(), sep, screenshots());
                lemma_join_no_colon(videos(), sep, captures());
                lemma_components_of_join(p, home, r0);
                lemma_components_of_join(p, home, r1);
                assert(c[0] == spec_home_join(p, home, r0));
                assert(c[1] == spec_home_join(p, home, r1));
                assert(normal_components(p, after_prefix(p, c[0]))[hc.len() as int] == pictures());
                assert(normal_components(p, after_prefix(p, c[1]))[hc.len() as int] == videos());
                assert(!same_path(p, c[0], c[1]));
                assert(c.len() == 2);
            } else {
                let r1 = pictures() + seq![sep] + screenshots();
                let r2 = videos() + seq![sep] + screencasts();
                lemma_components_concat(p, pictures(), sep, screenshots());
                lemma_components_concat(p, videos(), sep, screencasts());
                lemma_components_of_word(p, pictures());
                lemma_components_of_word(p, screenshots());
                lemma_components_of_word(p, videos());
                lemma_components_of_word(p, screencasts());
                lemma_join_no_colon(pictures(), sep, screenshots());
                lemma_join_no_colon(videos(), sep, screencasts());
                lemma_components_of_join(p, home, pictures());
                lemma_components_of_join(p, home, r1);
                lemma_components_of_join(p, home, r2);
                assert(c[0] == spec_home_join(p, home, pictures()));
                assert(c[1] == spec_home_join(p, home, r1));
                assert(c[2] == spec_home_join(p, home, r2));
                let n0 = normal_components(p, after_prefix(p, c[0]));
                let n1 = normal_components(p, after_prefix(p, c[1]));
                let n2 = normal_components(p, after_prefix(p, c[2]));
                assert(n0.len() == hc.len() + 1);
                assert(n1.len() == hc.len() + 2);
                assert(n2.len() == hc.len() + 2);
                assert(n1[hc.len() as int] == pictures());
                assert(n2[hc.len() as int] == videos());
                assert(!same_path(p, c[0], c[1]));
                assert(!same_path(p, c[1], c[2]));
                assert(!same_path(p, c[0], c[2]));
                assert(c.len() == 3);
            }
            lemma_no_adjacent_same_is_fixed(p, c);
        },
    }
}

} // verus!
