//! Trimming and splitting text on Unicode white space.

use vstd::prelude::*;
use vstd::string::*;

verus! {

/// The characters with the Unicode `White_Space` property, which is what
/// `char::is_whitespace` tests.
pub open spec fn is_white_space(c: char) -> bool {
    let u = c as u32;
    ||| 0x09 <= u <= 0x0D
    ||| u == 0x20
    ||| u == 0x85
    ||| u == 0xA0
    ||| u == 0x1680
    ||| 0x2000 <= u <= 0x200A
    ||| u == 0x2028
    ||| u == 0x2029
    ||| u == 0x202F
    ||| u == 0x205F
    ||| u == 0x3000
}

/// Whether `c` is white space, as `char::is_whitespace` tells.
pub fn white_space(c: char) -> (r: bool)
    ensures
        r == is_white_space(c),
{
    let u = c as u32;
    (0x09 <= u && u <= 0x0D) || u == 0x20 || u == 0x85 || u == 0xA0 || u == 0x1680 || (0x2000 <= u
        && u <= 0x200A) || u == 0x2028 || u == 0x2029 || u == 0x202F || u == 0x205F || u == 0x3000
}

/// `s` without its leading white space.
pub open spec fn trim_start(s: Seq<char>) -> Seq<char>
    decreases s.len(),
{
    if s.len() > 0 && is_white_space(s[0]) {
        trim_start(s.drop_first())
    } else {
        s
    }
}

/// `s` without its trailing white space.
pub open spec fn trim_end(s: Seq<char>) -> Seq<char>
    decreases s.len(),
{
    if s.len() > 0 && is_white_space(s.last()) {
        trim_end(s.drop_last())
    } else {
        s
    }
}

/// `s` without leading and trailing white space.
pub open spec fn spec_trim(s: Seq<char>) -> Seq<char> {
    trim_end(trim_start(s))
}

proof fn lemma_trim_start_skip(s: Seq<char>, i: int)
    requires
        0 <= i <= s.len(),
        forall|j: int| 0 <= j < i ==> is_white_space(#[trigger] s[j]),
    ensures
        trim_start(s) == trim_start(s.skip(i)),
    decreases i,
{
    if i == 0 {
        assert(s.skip(0) =~= s);
    } else {
        assert(is_white_space(s[0]));
        assert(s.drop_first().skip(i - 1) =~= s.skip(i));
        assert forall|j: int| 0 <= j < i - 1 implies is_white_space(#[trigger] s.drop_first()[j]) by {
            assert(s.drop_first()[j] == s[j + 1]);
        }
        lemma_trim_start_skip(s.drop_first(), i - 1);
    }
}

proof fn lemma_trim_end_take(s: Seq<char>, k: int)
    requires
        0 <= k <= s.len(),
        forall|j: int| k <= j < s.len() ==> is_white_space(#[trigger] s[j]),
    ensures
        trim_end(s) == trim_end(s.take(k)),
    decreases s.len() - k,
{
    if k == s.len() {
        assert(s.take(k) =~= s);
    } else {
        assert(is_white_space(s[s.len() - 1]));
        assert(s.drop_last().take(k) =~= s.take(k));
        assert forall|j: int| k <= j < s.drop_last().len() implies is_white_space(
            #[trigger] s.drop_last()[j],
        ) by {
            assert(s.drop_last()[j] == s[j]);
        }
        lemma_trim_end_take(s.drop_last(), k);
    }
}

/// `s` with leading and trailing white space removed, as `str::trim` does.
pub fn trim(s: &str) -> (r: &str)
    ensures
        r@ == spec_trim(s@),
{
    let n = s.unicode_len();
    let mut i: usize = 0;
    while i < n && white_space(s.get_char(i))
        invariant
            n == s@.len(),
            i <= n,
            forall|j: int| 0 <= j < i ==> is_white_space(#[trigger] s@[j]),
        decreases n - i,
    {
        i = i + 1;
    }
    proof {
        lemma_trim_start_skip(s@, i as int);
    }
    let ghost rest = s@.skip(i as int);
    assert(trim_start(rest) == rest);
    let mut k: usize = n;
    while k > i && white_space(s.get_char(k - 1))
        invariant
            n == s@.len(),
            i <= k <= n,
            forall|j: int| k <= j < n ==> is_white_space(#[trigger] s@[j]),
        decreases k,
    {
        k = k - 1;
    }
    let r = s.substring_char(i, k);
    proof {
        assert forall|j: int| (k - i) <= j < rest.len() implies is_white_space(#[trigger] rest[j]) by {
            assert(rest[j] == s@[j + i]);
        }
        lemma_trim_end_take(rest, k - i);
        assert(rest.take(k - i) =~= s@.subrange(i as int, k as int));
        let t = rest.take(k - i);
        if t.len() > 0 {
            assert(t.last() == s@[k - 1]);
        }
        assert(trim_end(t) == t);
    }
    r
}

/// Whether `prefix` begins `s`.
pub fn has_prefix(s: &str, prefix: &str) -> (r: bool)
    ensures
        r == (prefix@.len() <= s@.len() && s@.take(prefix@.len() as int) == prefix@),
{
    let n = s.unicode_len();
    let m = prefix.unicode_len();
    if m > n {
        return false;
    }
    let mut k: usize = 0;
    while k < m
        invariant
            n == s@.len(),
            m == prefix@.len(),
            m <= n,
            k <= m,
            forall|j: int| 0 <= j < k ==> s@[j] == prefix@[j],
        decreases m - k,
    {
        if s.get_char(k) != prefix.get_char(k) {
            assert(s@.take(m as int)[k as int] != prefix@[k as int]);
            return false;
        }
        k = k + 1;
    }
    assert(s@.take(m as int) =~= prefix@);
    true
}

proof fn lemma_trim_end_prefix(u: Seq<char>)
    ensures
        trim_end(u).len() <= u.len(),
        forall|i: int| 0 <= i < trim_end(u).len() ==> #[trigger] trim_end(u)[i] == u[i],
    decreases u.len(),
{
    if u.len() > 0 && is_white_space(u.last()) {
        lemma_trim_end_prefix(u.drop_last());
    }
}

/// A trimmed text that is not empty starts with a character that is not
/// white space, so it has a first word.
pub proof fn lemma_trimmed_has_words(s: Seq<char>)
    requires
        spec_trim(s).len() > 0,
    ensures
        !is_white_space(spec_trim(s)[0]),
        trim_start(spec_trim(s)) == spec_trim(s),
        spec_words(spec_trim(s)).len() > 0,
{
    lemma_trim_start_len(s);
    lemma_trim_end_prefix(trim_start(s));
    let t = spec_trim(s);
    assert(t[0] == trim_start(s)[0]);
}

/// Number of characters before the first white space of `s`.
pub open spec fn first_word_len(s: Seq<char>) -> nat
    decreases s.len(),
{
    if s.len() > 0 && !is_white_space(s[0]) {
        1 + first_word_len(s.drop_first())
    } else {
        0
    }
}

/// Trimming the start shortens, and leaves a first character that is not
/// white space.
pub proof fn lemma_trim_start_len(s: Seq<char>)
    ensures
        trim_start(s).len() <= s.len(),
        trim_start(s).len() > 0 ==> !is_white_space(trim_start(s)[0]),
    decreases s.len(),
{
    if s.len() > 0 && is_white_space(s[0]) {
        lemma_trim_start_len(s.drop_first());
    }
}

/// A first word is no longer than the text.
pub proof fn lemma_first_word_len_bound(s: Seq<char>)
    ensures
        first_word_len(s) <= s.len(),
    decreases s.len(),
{
    if s.len() > 0 && !is_white_space(s[0]) {
        lemma_first_word_len_bound(s.drop_first());
    }
}

proof fn lemma_first_word_len(s: Seq<char>, m: int)
    requires
        0 <= m <= s.len(),
        forall|k: int| 0 <= k < m ==> !is_white_space(#[trigger] s[k]),
        m == s.len() || is_white_space(s[m]),
    ensures
        first_word_len(s) == m,
    decreases m,
{
    if m > 0 {
        assert forall|k: int| 0 <= k < m - 1 implies !is_white_space(#[trigger] s.drop_first()[k]) by {
            assert(s.drop_first()[k] == s[k + 1]);
        }
        if m < s.len() {
            assert(s.drop_first()[m - 1] == s[m]);
        }
        lemma_first_word_len(s.drop_first(), m - 1);
    }
}

/// The words of `s`: its maximal runs of characters that are not white
/// space, in order.
pub open spec fn spec_words(s: Seq<char>) -> Seq<Seq<char>>
    decreases s.len(),
{
    let t = trim_start(s);
    if t.len() == 0 {
        seq![]
    } else {
        let n = first_word_len(t);
        proof {
            lemma_trim_start_len(s);
            lemma_first_word_len_bound(t);
            assert(n >= 1);
            assert(t.skip(n as int).len() < s.len());
        }
        seq![t.take(n as int)] + spec_words(t.skip(n as int))
    }
}

/// The contents of a sequence of strings.
pub open spec fn string_views(v: Seq<String>) -> Seq<Seq<char>> {
    v.map_values(|w: String| w@)
}

/// The words of `s`, as `str::split_whitespace` yields them.
pub fn split_whitespace(s: &str) -> (words: Vec<String>)
    ensures
        string_views(words@) == spec_words(s@),
{
    let n = s.unicode_len();
    let mut words: Vec<String> = Vec::new();
    let mut i: usize = 0;
    assert(s@.skip(0) =~= s@);
    loop
        invariant
            n == s@.len(),
            i <= n,
            string_views(words@) + spec_words(s@.skip(i as int)) == spec_words(s@),
        decreases n - i,
    {
        let ghost at = i;
        while i < n && white_space(s.get_char(i))
            invariant
                n == s@.len(),
                at <= i <= n,
                forall|k: int| at <= k < i ==> is_white_space(#[trigger] s@[k]),
            decreases n - i,
        {
            i = i + 1;
        }
        proof {
            let u = s@.skip(at as int);
            assert forall|k: int| 0 <= k < i - at implies is_white_space(#[trigger] u[k]) by {
                assert(u[k] == s@[k + at]);
            }
            lemma_trim_start_skip(u, i - at);
            assert(u.skip(i - at) =~= s@.skip(i as int));
        }
        if i == n {
            proof {
                assert(s@.skip(i as int).len() == 0);
                assert(trim_start(s@.skip(at as int)).len() == 0);
                assert(spec_words(s@.skip(at as int)) =~= Seq::<Seq<char>>::empty());
                assert(string_views(words@) + Seq::<Seq<char>>::empty() =~= string_views(words@));
            }
            return words;
        }
        let start = i;
        while i < n && !white_space(s.get_char(i))
            invariant
                n == s@.len(),
                start <= i <= n,
                forall|k: int| start <= k < i ==> !is_white_space(#[trigger] s@[k]),
            decreases n - i,
        {
            i = i + 1;
        }
        let w = s.substring_char(start, i).to_owned();
        proof {
            let t = s@.skip(start as int);
            assert(trim_start(s@.skip(at as int)) == t);
            assert(t[0] == s@[start as int]);
            assert forall|k: int| 0 <= k < i - start implies !is_white_space(#[trigger] t[k]) by {
                assert(t[k] == s@[k + start]);
            }
            if i < n {
                assert(t[i - start] == s@[i as int]);
            }
            lemma_first_word_len(t, i - start);
            assert(t.take(i - start) =~= w@);
            assert(t.skip(i - start) =~= s@.skip(i as int));
            assert(spec_words(s@.skip(at as int)) == seq![w@] + spec_words(s@.skip(i as int)));
        }
        let ghost before = string_views(words@);
        words.push(w);
        proof {
            assert(string_views(words@) =~= before.push(w@));
            assert(before.push(w@) + spec_words(s@.skip(i as int)) =~= before + (seq![w@]
                + spec_words(s@.skip(i as int))));
        }
    }
}

/// Whether the two texts are equal.
pub fn same_str(a: &str, b: &str) -> (r: bool)
    ensures
        r == (a@ == b@),
{
    if a.unicode_len() != b.unicode_len() {
        return false;
    }
    let r = has_prefix(a, b);
    proof {
        if a@ == b@ {
            assert(a@.take(b@.len() as int) =~= a@);
        }
        if r {
            assert(a@.take(b@.len() as int) =~= a@);
        }
    }
    r
}

} // verus!
