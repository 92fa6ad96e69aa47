//! Character-level text utilities: substring search, whitespace trimming
//! support, joining, lexicographic comparison, and lowercase folding.

use vstd::prelude::*;

verus! {

use vstd::string::StrSliceExecFns;
use vstd::string::StringExecFns;

/// The characters that count as whitespace when trimming text
/// (the Unicode `White_Space` set).
pub open spec fn is_space(c: char) -> bool {
    ||| c == ' '
    ||| c == '\t'
    ||| c == '\n'
    ||| c == '\r'
    ||| c == '\u{000B}'
    ||| c == '\u{000C}'
    ||| c == '\u{0085}'
    ||| c == '\u{00A0}'
    ||| c == '\u{1680}'
    ||| ('\u{2000}' <= c && c <= '\u{200A}')
    ||| c == '\u{2028}'
    ||| c == '\u{2029}'
    ||| c == '\u{202F}'
    ||| c == '\u{205F}'
    ||| c == '\u{3000}'
}

/// Decide whether a character is whitespace.
pub fn is_space_char(c: char) -> (r: bool)
    ensures
        r == is_space(c),
{
    c == ' ' || c == '\t' || c == '\n' || c == '\r' || c == '\u{000B}' || c == '\u{000C}'
        || c == '\u{0085}' || c == '\u{00A0}' || c == '\u{1680}'
        || ('\u{2000}' <= c && c <= '\u{200A}') || c == '\u{2028}' || c == '\u{2029}'
        || c == '\u{202F}' || c == '\u{205F}' || c == '\u{3000}'
}

/// Collect the characters of a string slice into a vector.
pub fn chars_of(s: &str) -> (r: Vec<char>)
    ensures
        r@ == s@,
{
    let n = s.unicode_len();
    let mut r: Vec<char> = Vec::new();
    let mut i: usize = 0;
    while i < n
        invariant
            n == s@.len(),
            i <= n,
            r@ == s@.subrange(0, i as int),
        decreases n - i,
    {
        r.push(s.get_char(i));
        i = i + 1;
        proof {
            assert(r@ =~= s@.subrange(0, i as int));
        }
    }
    proof {
        assert(r@ =~= s@);
    }
    r
}

/// Relies on String::push: appends one character to the string.
#[verifier::external_body]
pub(crate) fn push_char(s: &mut String, c: char)
    ensures
        final(s)@ == old(s)@.push(c),
{
    s.push(c);
}

/// Build a string from a vector of characters.
pub fn string_of(cs: &Vec<char>) -> (r: String)
    ensures
        r@ == cs@,
{
    let mut r = String::new();
    let mut i: usize = 0;
    while i < cs.len()
        invariant
            i <= cs@.len(),
            r@ == cs@.subrange(0, i as int),
        decreases cs@.len() - i,
    {
        push_char(&mut r, cs[i]);
        i = i + 1;
        proof {
            assert(r@ =~= cs@.subrange(0, i as int));
        }
    }
    proof {
        assert(r@ =~= cs@);
    }
    r
}

/// `needle` occurs in `hay` starting at position `i`.
pub open spec fn contains_seq_at(hay: Seq<char>, needle: Seq<char>, i: int) -> bool {
    &&& 0 <= i
    &&& i + needle.len() <= hay.len()
    &&& hay.subrange(i, i + needle.len()) == needle
}

/// `needle` occurs somewhere in `hay` as a contiguous run.
pub open spec fn contains_seq(hay: Seq<char>, needle: Seq<char>) -> bool {
    exists|i: int| contains_seq_at(hay, needle, i)
}

fn matches_at(hay: &Vec<char>, needle: &Vec<char>, i: usize) -> (r: bool)
    requires
        i + needle@.len() <= hay@.len(),
    ensures
        r == contains_seq_at(hay@, needle@, i as int),
{
    let n = needle.len();
    let hn = hay.len();
    let mut j: usize = 0;
    while j < n
        invariant
            n == needle@.len(),
            hn == hay@.len(),
            i + n <= hay@.len(),
            j <= n,
            forall|k: int| 0 <= k < j ==> hay@[i + k] == needle@[k],
        decreases n - j,
    {
        if hay[i + j] != needle[j] {
            proof {
                assert(hay@.subrange(i as int, i + needle@.len())[j as int] != needle@[j as int]);
            }
            return false;
        }
        j = j + 1;
    }
    proof {
        assert(hay@.subrange(i as int, i + needle@.len()) =~= needle@);
    }
    true
}

/// `p` is a prefix of `s`.
pub open spec fn has_prefix(s: Seq<char>, p: Seq<char>) -> bool {
    s.len() >= p.len() && s.subrange(0, p.len() as int) == p
}

/// `p` is a suffix of `s`.
pub open spec fn has_suffix(s: Seq<char>, p: Seq<char>) -> bool {
    s.len() >= p.len() && s.subrange(s.len() - p.len(), s.len() as int) == p
}

/// Decide whether `v` starts with `p`.
pub fn starts_with_chars(v: &Vec<char>, p: &Vec<char>) -> (r: bool)
    ensures
        r == has_prefix(v@, p@),
{
    if p.len() > v.len() {
        return false;
    }
    matches_at(v, p, 0)
}

/// Decide whether `v` ends with `p`.
pub fn ends_with_chars(v: &Vec<char>, p: &Vec<char>) -> (r: bool)
    ensures
        r == has_suffix(v@, p@),
{
    if p.len() > v.len() {
        return false;
    }
    let i = v.len() - p.len();
    matches_at(v, p, i)
}

/// Copy the characters of `v` between `lo` (inclusive) and `hi` (exclusive).
pub fn copy_range(v: &Vec<char>, lo: usize, hi: usize) -> (r: Vec<char>)
    requires
        lo <= hi <= v@.len(),
    ensures
        r@ == v@.subrange(lo as int, hi as int),
{
    let mut r: Vec<char> = Vec::new();
    let mut i: usize = lo;
    while i < hi
        invariant
            lo <= i <= hi <= v@.len(),
            r@ == v@.subrange(lo as int, i as int),
        decreases hi - i,
    {
        r.push(v[i]);
        i = i + 1;
        proof {
            assert(r@ =~= v@.subrange(lo as int, i as int));
        }
    }
    proof {
        assert(r@ =~= v@.subrange(lo as int, hi as int));
    }
    r
}

/// Search `hay` for a contiguous occurrence of `needle`.
pub fn contains_chars(hay: &Vec<char>, needle: &Vec<char>) -> (r: bool)
    ensures
        r == contains_seq(hay@, needle@),
{
    if needle.len() == 0 {
        proof {
            assert(hay@.subrange(0, 0) =~= needle@);
            assert(contains_seq_at(hay@, needle@, 0));
        }
        return true;
    }
    if needle.len() > hay.len() {
        proof {
            assert(forall|i: int| !contains_seq_at(hay@, needle@, i));
        }
        return false;
    }
    let last = hay.len() - needle.len();
    let mut i: usize = 0;
    while i <= last
        invariant
            1 <= needle@.len() <= hay@.len(),
            hay@.len() <= usize::MAX,
            last == hay@.len() - needle@.len(),
            i <= last + 1,
            forall|k: int| 0 <= k < i ==> !contains_seq_at(hay@, needle@, k),
        decreases last - i + 1,
    {
        if matches_at(hay, needle, i) {
            return true;
        }
        i = i + 1;
    }
    proof {
        assert(forall|k: int| contains_seq_at(hay@, needle@, k) ==> 0 <= k <= last);
    }
    false
}

/// Search one string slice for another.
pub fn contains_str(hay: &str, needle: &str) -> (r: bool)
    ensures
        r == contains_seq(hay@, needle@),
{
    let h = chars_of(hay);
    let n = chars_of(needle);
    contains_chars(&h, &n)
}

/// `s` with leading whitespace removed.
pub open spec fn trim_start_spaces(s: Seq<char>) -> Seq<char>
    decreases s.len(),
{
    if s.len() > 0 && is_space(s[0]) {
        trim_start_spaces(s.drop_first())
    } else {
        s
    }
}

/// `s` with trailing whitespace removed.
pub open spec fn trim_end_spaces(s: Seq<char>) -> Seq<char>
    decreases s.len(),
{
    if s.len() > 0 && is_space(s.last()) {
        trim_end_spaces(s.drop_last())
    } else {
        s
    }
}

/// `s` with whitespace removed from both ends.
pub open spec fn spec_trim(s: Seq<char>) -> Seq<char> {
    trim_end_spaces(trim_start_spaces(s))
}

/// Remove whitespace from both ends of `v`.
pub fn trim_chars(v: &Vec<char>) -> (r: Vec<char>)
    ensures
        r@ == spec_trim(v@),
{
    let mut lo: usize = 0;
    proof {
        assert(v@.skip(0) =~= v@);
    }
    while lo < v.len() && is_space_char(v[lo])
        invariant
            lo <= v@.len(),
            trim_start_spaces(v@) == trim_start_spaces(v@.skip(lo as int)),
        decreases v@.len() - lo,
    {
        proof {
            assert(v@.skip(lo as int)[0] == v@[lo as int]);
            assert(v@.skip(lo as int).drop_first() =~= v@.skip(lo + 1));
        }
        lo = lo + 1;
    }
    proof {
        if lo < v@.len() {
            assert(v@.skip(lo as int)[0] == v@[lo as int]);
        }
        assert(trim_start_spaces(v@) == v@.skip(lo as int));
        assert(v@.skip(lo as int) =~= v@.subrange(lo as int, v@.len() as int));
    }
    let mut hi: usize = v.len();
    while hi > lo && is_space_char(v[hi - 1])
        invariant
            lo <= hi <= v@.len(),
            trim_end_spaces(v@.skip(lo as int)) == trim_end_spaces(
                v@.subrange(lo as int, hi as int),
            ),
        decreases hi,
    {
        proof {
            assert(v@.subrange(lo as int, hi as int).last() == v@[hi - 1]);
            assert(v@.subrange(lo as int, hi as int).drop_last() =~= v@.subrange(
                lo as int,
                hi - 1,
            ));
        }
        hi = hi - 1;
    }
    proof {
        if hi > lo {
            assert(v@.subrange(lo as int, hi as int).last() == v@[hi - 1]);
        }
        assert(trim_end_spaces(v@.subrange(lo as int, hi as int)) == v@.subrange(
            lo as int,
            hi as int,
        ));
    }
    copy_range(v, lo, hi)
}

/// `s` with every leading repetition of the non-empty pattern `p` removed.
pub open spec fn strip_leading_runs(s: Seq<char>, p: Seq<char>) -> Seq<char>
    decreases s.len(),
{
    if p.len() > 0 && has_prefix(s, p) {
        strip_leading_runs(s.skip(p.len() as int), p)
    } else {
        s
    }
}

/// `s` with every trailing repetition of the non-empty pattern `p` removed.
pub open spec fn strip_trailing_runs(s: Seq<char>, p: Seq<char>) -> Seq<char>
    decreases s.len(),
{
    if p.len() > 0 && has_suffix(s, p) {
        strip_trailing_runs(s.take(s.len() - p.len()), p)
    } else {
        s
    }
}

/// `s` with one leading occurrence of `p` removed, if present.
pub open spec fn strip_prefix_if(s: Seq<char>, p: Seq<char>) -> Seq<char> {
    if has_prefix(s, p) {
        s.skip(p.len() as int)
    } else {
        s
    }
}

/// Remove every leading repetition of `p` from `v`.
pub fn strip_leading_runs_chars(v: &Vec<char>, p: &Vec<char>) -> (r: Vec<char>)
    requires
        p@.len() > 0,
    ensures
        r@ == strip_leading_runs(v@, p@),
    decreases v@.len(),
{
    if starts_with_chars(v, p) {
        let rest = copy_range(v, p.len(), v.len());
        strip_leading_runs_chars(&rest, p)
    } else {
        let r = copy_range(v, 0, v.len());
        proof {
            assert(v@.subrange(0, v@.len() as int) =~= v@);
        }
        r
    }
}

/// Remove every trailing repetition of `p` from `v`.
pub fn strip_trailing_runs_chars(v: &Vec<char>, p: &Vec<char>) -> (r: Vec<char>)
    requires
        p@.len() > 0,
    ensures
        r@ == strip_trailing_runs(v@, p@),
    decreases v@.len(),
{
    if ends_with_chars(v, p) {
        let rest = copy_range(v, 0, v.len() - p.len());
        proof {
            assert(v@.subrange(0, v@.len() - p@.len()) =~= v@.take(v@.len() - p@.len()));
        }
        strip_trailing_runs_chars(&rest, p)
    } else {
        let r = copy_range(v, 0, v.len());
        proof {
            assert(v@.subrange(0, v@.len() as int) =~= v@);
        }
        r
    }
}

/// The items joined with a single space between neighbours.
pub open spec fn spec_join_space(items: Seq<Seq<char>>) -> Seq<char>
    decreases items.len(),
{
    if items.len() == 0 {
        Seq::empty()
    } else if items.len() == 1 {
        items[0]
    } else {
        spec_join_space(items.drop_last()) + seq![' '] + items.last()
    }
}

/// Join strings with a single space between neighbours.
pub fn join_space(items: &Vec<String>) -> (r: String)
    ensures
        r@ == spec_join_space(items.deep_view()),
{
    let mut r = String::new();
    let mut i: usize = 0;
    while i < items.len()
        invariant
            i <= items@.len(),
            items.deep_view().len() == items@.len(),
            r@ == spec_join_space(items.deep_view().take(i as int)),
        decreases items@.len() - i,
    {
        if i > 0 {
            r.append(" ");
        }
        r.append(items[i].as_str());
        i = i + 1;
        proof {
            reveal_strlit(" ");
            let dv = items.deep_view();
            assert(dv[i - 1] == items@[i - 1]@);
            assert(dv.take(i as int).drop_last() =~= dv.take(i - 1));
            assert(dv.take(i as int).last() == dv[i - 1]);
            if i > 1 {
                assert(r@ =~= spec_join_space(dv.take(i - 1)) + seq![' '] + dv[i - 1]);
            } else {
                assert(r@ =~= dv[0]);
            }
        }
    }
    proof {
        assert(items.deep_view().take(items@.len() as int) =~= items.deep_view());
    }
    r
}

/// Copy a list of strings.
pub fn clone_strings(v: &Vec<String>) -> (r: Vec<String>)
    ensures
        r@ == v@,
{
    let mut r: Vec<String> = Vec::new();
    let mut i: usize = 0;
    while i < v.len()
        invariant
            i <= v@.len(),
            r@ == v@.subrange(0, i as int),
        decreases v@.len() - i,
    {
        r.push(v[i].clone());
        i = i + 1;
        proof {
            assert(r@ =~= v@.subrange(0, i as int));
        }
    }
    proof {
        assert(r@ =~= v@);
    }
    r
}

/// A list of strings holds `s`.
pub fn contains_string(v: &Vec<String>, s: &String) -> (r: bool)
    ensures
        r == v.deep_view().contains(s@),
{
    let mut i: usize = 0;
    while i < v.len()
        invariant
            i <= v@.len(),
            forall|k: int| 0 <= k < i ==> v.deep_view()[k] != s@,
        decreases v@.len() - i,
    {
        proof {
            assert(v.deep_view()[i as int] == v@[i as int]@);
        }
        if v[i] == *s {
            return true;
        }
        i = i + 1;
    }
    false
}

/// Compare two string slices character by character.
pub fn str_eq(a: &str, b: &str) -> (r: bool)
    ensures
        r == (a@ == b@),
{
    let an = a.unicode_len();
    let bn = b.unicode_len();
    if an != bn {
        return false;
    }
    let mut i: usize = 0;
    while i < an
        invariant
            an == a@.len(),
            an == b@.len(),
            i <= an,
            forall|k: int| 0 <= k < i ==> a@[k] == b@[k],
        decreases an - i,
    {
        if a.get_char(i) != b.get_char(i) {
            return false;
        }
        i = i + 1;
    }
    proof {
        assert(a@ =~= b@);
    }
    true
}

/// The lowercase folding of a piece of text, as `str::to_lowercase`
/// computes it; it depends on the characters alone.
pub uninterp spec fn lower_of(s: Seq<char>) -> Seq<char>;

/// Relies on str::to_lowercase: returns the lowercase equivalent of the
/// slice, a function of its characters alone; an empty slice stays empty.
#[verifier::external_body]
pub(crate) fn lowercase(s: &str) -> (r: String)
    ensures
        r@ == lower_of(s@),
        s@.len() == 0 ==> r@.len() == 0,
{
    s.to_lowercase()
}

/// The characters after the last `/` of a path (everything, when no `/`
/// occurs; empty, when the path ends with one).
pub open spec fn after_last_slash(s: Seq<char>) -> Seq<char>
    decreases s.len(),
{
    if s.len() == 0 {
        s
    } else if s.last() == '/' {
        Seq::empty()
    } else {
        after_last_slash(s.drop_last()).push(s.last())
    }
}

proof fn lemma_after_last_slash_suffix(s: Seq<char>, j: int)
    requires
        0 <= j <= s.len(),
        j > 0 ==> s[j - 1] == '/',
        forall|k: int| j <= k < s.len() ==> s[k] != '/',
    ensures
        after_last_slash(s) == s.skip(j),
    decreases s.len() - j,
{
    if j == s.len() {
        if j > 0 {
            assert(s.last() == '/');
            assert(after_last_slash(s) =~= s.skip(j));
        } else {
            assert(s.len() == 0);
            assert(after_last_slash(s) =~= s.skip(0));
        }
    } else {
        assert(s.last() == s[s.len() - 1]);
        assert(s.last() != '/');
        let d = s.drop_last();
        assert(forall|k: int| j <= k < d.len() ==> d[k] == s[k]);
        if j > 0 {
            assert(d[j - 1] == s[j - 1]);
        }
        lemma_after_last_slash_suffix(d, j);
        assert(s.skip(j) =~= d.skip(j).push(s.last()));
    }
}

/// The base name of a path: the characters after its last `/`.
pub fn path_base_name(path: &String) -> (r: String)
    ensures
        r@ == after_last_slash(path@),
{
    let chars = chars_of(path.as_str());
    let n = chars.len();
    let mut j: usize = n;
    while j > 0 && chars[j - 1] != '/'
        invariant
            j <= n,
            n == chars@.len(),
            chars@ == path@,
            forall|k: int| j <= k < n ==> chars@[k] != '/',
        decreases j,
    {
        j = j - 1;
    }
    proof {
        lemma_after_last_slash_suffix(path@, j as int);
    }
    let tail = copy_range(&chars, j, n);
    proof {
        assert(tail@ =~= path@.skip(j as int));
    }
    string_of(&tail)
}

/// Lexicographic order on character sequences, by code point.
pub open spec fn lex_le(a: Seq<char>, b: Seq<char>) -> bool
    decreases a.len(),
{
    if a.len() == 0 {
        true
    } else if b.len() == 0 {
        false
    } else if (a[0] as int) < (b[0] as int) {
        true
    } else if (a[0] as int) > (b[0] as int) {
        false
    } else {
        lex_le(a.drop_first(), b.drop_first())
    }
}

/// The lexicographic order is total.
pub proof fn lemma_lex_le_total(a: Seq<char>, b: Seq<char>)
    ensures
        lex_le(a, b) || lex_le(b, a),
    decreases a.len(),
{
    if a.len() > 0 && b.len() > 0 && (a[0] as int) == (b[0] as int) {
        lemma_lex_le_total(a.drop_first(), b.drop_first());
    }
}

/// The lexicographic order is transitive.
pub proof fn lemma_lex_le_trans(a: Seq<char>, b: Seq<char>, c: Seq<char>)
    requires
        lex_le(a, b),
        lex_le(b, c),
    ensures
        lex_le(a, c),
    decreases a.len(),
{
    if a.len() > 0 {
        assert(b.len() > 0);
        assert(c.len() > 0);
        if (a[0] as int) == (b[0] as int) && (b[0] as int) == (c[0] as int) {
            lemma_lex_le_trans(a.drop_first(), b.drop_first(), c.drop_first());
        }
    }
}

/// The lexicographic order is antisymmetric.
pub proof fn lemma_lex_le_antisymmetric(a: Seq<char>, b: Seq<char>)
    requires
        lex_le(a, b),
        lex_le(b, a),
    ensures
        a == b,
    decreases a.len(),
{
    if a.len() == 0 {
        assert(b.len() == 0);
        assert(a =~= b);
    } else {
        assert(b.len() > 0);
        assert((a[0] as int) == (b[0] as int));
        assert(a[0] == b[0]);
        lemma_lex_le_antisymmetric(a.drop_first(), b.drop_first());
        assert(a =~= b) by {
            assert(forall|i: int|
                1 <= i < a.len() ==> a[i] == a.drop_first()[i - 1] && b[i] == b.drop_first()[
                    i - 1
                ]);
        }
    }
}

/// Compare two string slices in lexicographic order by code point.
pub fn str_le(a: &str, b: &str) -> (r: bool)
    ensures
        r == lex_le(a@, b@),
{
    let an = a.unicode_len();
    let bn = b.unicode_len();
    let mut i: usize = 0;
    proof {
        assert(a@.skip(0) =~= a@);
        assert(b@.skip(0) =~= b@);
    }
    loop
        invariant
            an == a@.len(),
            bn == b@.len(),
            i <= an,
            i <= bn,
            lex_le(a@, b@) == lex_le(a@.skip(i as int), b@.skip(i as int)),
        decreases an - i,
    {
        if i >= an {
            proof {
                assert(a@.skip(i as int).len() == 0);
            }
            return true;
        }
        if i >= bn {
            proof {
                assert(b@.skip(i as int).len() == 0);
                assert(a@.skip(i as int).len() > 0);
            }
            return false;
        }
        let ca = a.get_char(i);
        let cb = b.get_char(i);
        proof {
            assert(a@.skip(i as int)[0] == a@[i as int]);
            assert(b@.skip(i as int)[0] == b@[i as int]);
        }
        if (ca as u32) < (cb as u32) {
            return true;
        }
        if (ca as u32) > (cb as u32) {
            return false;
        }
        proof {
            assert(a@.skip(i as int).drop_first() =~= a@.skip(i + 1));
            assert(b@.skip(i as int).drop_first() =~= b@.skip(i + 1));
        }
        i = i + 1;
    }
}

} // verus!
