//! Character-level string helpers shared by the descriptors and the testers:
//! splitting into lines, trimming, searching and quoting for the shell.

use vstd::prelude::*;

verus! {

/// Appends one character to a string (`String::push`).
#[verifier::external_body]
pub(crate) fn push_char(s: &mut String, c: char)
    ensures
        final(s)@ == old(s)@.push(c),
{
    s.push(c);
}

/// `char::is_whitespace`: the characters with the Unicode `White_Space` property.
pub open spec fn is_unicode_whitespace(c: char) -> bool {
    let u = c as u32;
    ||| 0x09 <= u <= 0x0d
    ||| u == 0x20
    ||| u == 0x85
    ||| u == 0xa0
    ||| u == 0x1680
    ||| 0x2000 <= u <= 0x200a
    ||| u == 0x2028
    ||| u == 0x2029
    ||| u == 0x202f
    ||| u == 0x205f
    ||| u == 0x3000
}

/// Executable test for [`is_unicode_whitespace`].
pub fn is_whitespace(c: char) -> (b: bool)
    ensures
        b == is_unicode_whitespace(c),
{
    let u = c as u32;
    (0x09 <= u && u <= 0x0d) || u == 0x20 || u == 0x85 || u == 0xa0 || u == 0x1680 || (0x2000 <= u
        && u <= 0x200a) || u == 0x2028 || u == 0x2029 || u == 0x202f || u == 0x205f || u == 0x3000
}

/// `s` without its trailing whitespace (`str::trim_end`).
pub open spec fn trim_end_spec(s: Seq<char>) -> Seq<char>
    decreases s.len(),
{
    if s.len() > 0 && is_unicode_whitespace(s.last()) {
        trim_end_spec(s.drop_last())
    } else {
        s
    }
}

/// `s` without its leading whitespace (`str::trim_start`).
pub open spec fn trim_start_spec(s: Seq<char>) -> Seq<char>
    decreases s.len(),
{
    if s.len() > 0 && is_unicode_whitespace(s[0]) {
        trim_start_spec(s.drop_first())
    } else {
        s
    }
}

/// `s` without leading and trailing whitespace (`str::trim`).
pub open spec fn trim_spec(s: Seq<char>) -> Seq<char> {
    trim_start_spec(trim_end_spec(s))
}

/// `s` without any of the character `c` at its end (`str::trim_end_matches(c)`).
pub open spec fn trim_end_char_spec(s: Seq<char>, c: char) -> Seq<char>
    decreases s.len(),
{
    if s.len() > 0 && s.last() == c {
        trim_end_char_spec(s.drop_last(), c)
    } else {
        s
    }
}

/// `s` without any of the character `c` at its start (`str::trim_start_matches(c)`).
pub open spec fn trim_start_char_spec(s: Seq<char>, c: char) -> Seq<char>
    decreases s.len(),
{
    if s.len() > 0 && s[0] == c {
        trim_start_char_spec(s.drop_first(), c)
    } else {
        s
    }
}

/// What `trim_end_spec` leaves does not end in whitespace.
proof fn lemma_trim_end_clean(s: Seq<char>)
    ensures
        trim_end_spec(s).len() == 0 || !is_unicode_whitespace(trim_end_spec(s).last()),
    decreases s.len(),
{
    if s.len() > 0 && is_unicode_whitespace(s.last()) {
        lemma_trim_end_clean(s.drop_last());
    }
}

/// What `trim_start_spec` leaves does not start with whitespace, and it
/// keeps a last character that is not whitespace.
proof fn lemma_trim_start_clean(s: Seq<char>)
    ensures
        trim_start_spec(s).len() == 0 || !is_unicode_whitespace(trim_start_spec(s)[0]),
        s.len() > 0 && !is_unicode_whitespace(s.last()) ==> trim_start_spec(s).len() > 0
            && trim_start_spec(s).last() == s.last(),
    decreases s.len(),
{
    if s.len() > 0 && is_unicode_whitespace(s[0]) {
        lemma_trim_start_clean(s.drop_first());
        if s.len() > 1 {
            assert(s.drop_first().last() == s.last());
        }
    }
}

/// Trimming trimmed text changes nothing.
pub proof fn law_trim_idempotent(s: Seq<char>)
    ensures
        trim_spec(trim_spec(s)) == trim_spec(s),
{
    let e = trim_end_spec(s);
    lemma_trim_end_clean(s);
    let z = trim_start_spec(e);
    lemma_trim_start_clean(e);
    assert(trim_end_spec(z) == z);
    lemma_trim_start_clean(z);
    assert(trim_start_spec(z) == z);
}

/// The characters of a string, in order.
pub fn chars_of(s: &str) -> (v: Vec<char>)
    ensures
        v@ == s@,
{
    let n = s.unicode_len();
    let mut v: Vec<char> = Vec::new();
    let mut i: usize = 0;
    while i < n
        invariant
            n == s@.len(),
            i <= n,
            v@ == s@.subrange(0, i as int),
        decreases n - i,
    {
        v.push(s.get_char(i));
        i = i + 1;
        assert(v@ =~= s@.subrange(0, i as int));
    }
    assert(s@.subrange(0, n as int) =~= s@);
    v
}

/// The string made of the characters `v[lo..hi]`.
pub fn string_of_range(v: &Vec<char>, lo: usize, hi: usize) -> (s: String)
    requires
        lo <= hi <= v@.len(),
    ensures
        s@ == v@.subrange(lo as int, hi as int),
{
    let mut s = String::new();
    let mut i = lo;
    while i < hi
        invariant
            lo <= i <= hi <= v@.len(),
            s@ == v@.subrange(lo as int, i as int),
        decreases hi - i,
    {
        push_char(&mut s, v[i]);
        i = i + 1;
        assert(s@ =~= v@.subrange(lo as int, i as int));
    }
    s
}

/// The string made of all characters of `v`.
pub fn string_of_chars(v: &Vec<char>) -> (s: String)
    ensures
        s@ == v@,
{
    let s = string_of_range(v, 0, v.len());
    assert(v@.subrange(0, v@.len() as int) =~= v@);
    s
}

/// Appends `t` to `s`.
pub fn append_str(s: &mut String, t: &str)
    ensures
        final(s)@ == old(s)@ + t@,
{
    s.append(t);
}

/// The end index of `v[..hi]` once its trailing whitespace is dropped.
pub fn trim_end_index(v: &Vec<char>, hi: usize) -> (k: usize)
    requires
        hi <= v@.len(),
    ensures
        k <= hi,
        v@.subrange(0, k as int) == trim_end_spec(v@.subrange(0, hi as int)),
{
    let mut k = hi;
    while k > 0 && is_whitespace(v[k - 1])
        invariant
            k <= hi <= v@.len(),
            trim_end_spec(v@.subrange(0, k as int)) == trim_end_spec(v@.subrange(0, hi as int)),
        decreases k,
    {
        assert(v@.subrange(0, k as int).drop_last() =~= v@.subrange(0, k - 1));
        k = k - 1;
    }
    k
}

/// The text of `s` without trailing whitespace.
pub fn trim_end(s: &str) -> (r: String)
    ensures
        r@ == trim_end_spec(s@),
{
    let v = chars_of(s);
    let k = trim_end_index(&v, v.len());
    assert(v@.subrange(0, v@.len() as int) =~= v@);
    string_of_range(&v, 0, k)
}

/// Index of the first character of `v[lo..hi]` that is not whitespace (or `hi`).
fn trim_start_index(v: &Vec<char>, lo: usize, hi: usize) -> (k: usize)
    requires
        lo <= hi <= v@.len(),
    ensures
        lo <= k <= hi,
        v@.subrange(k as int, hi as int) == trim_start_spec(v@.subrange(lo as int, hi as int)),
{
    let mut k = lo;
    while k < hi && is_whitespace(v[k])
        invariant
            lo <= k <= hi <= v@.len(),
            trim_start_spec(v@.subrange(k as int, hi as int)) == trim_start_spec(
                v@.subrange(lo as int, hi as int),
            ),
        decreases hi - k,
    {
        assert(v@.subrange(k as int, hi as int).drop_first() =~= v@.subrange(k + 1, hi as int));
        k = k + 1;
    }
    k
}

/// The text of `v[lo..hi]` without leading and trailing whitespace.
pub fn trim_range(v: &Vec<char>, lo: usize, hi: usize) -> (r: String)
    requires
        lo <= hi <= v@.len(),
    ensures
        r@ == trim_spec(v@.subrange(lo as int, hi as int)),
{
    let k = trim_end_index(v, hi);
    // trailing whitespace of v[lo..hi] ends no earlier than lo unless all of it is blank
    let e = if k < lo { lo } else { k };
    proof {
        lemma_trim_end_subrange(v@, lo as int, hi as int, k as int);
    }
    let b = trim_start_index(v, lo, e);
    string_of_range(v, b, e)
}

/// The text of `s` without leading and trailing whitespace.
pub fn trim(s: &str) -> (r: String)
    ensures
        r@ == trim_spec(s@),
{
    let v = chars_of(s);
    assert(v@.subrange(0, v@.len() as int) =~= v@);
    trim_range(&v, 0, v.len())
}

/// Trimming the end of `v[lo..hi]` agrees with trimming the end of `v[..hi]`,
/// cut at `lo`.
proof fn lemma_trim_end_subrange(v: Seq<char>, lo: int, hi: int, k: int)
    requires
        0 <= lo <= hi <= v.len(),
        0 <= k <= hi,
        v.subrange(0, k) == trim_end_spec(v.subrange(0, hi)),
    ensures
        trim_end_spec(v.subrange(lo, hi)) == v.subrange(lo, if k < lo { lo } else { k }),
    decreases hi - lo,
{
    if hi == lo {
        assert(v.subrange(lo, hi) =~= Seq::<char>::empty());
        lemma_trim_end_prefix(v, hi, k);
    } else if is_unicode_whitespace(v[hi - 1]) {
        assert(v.subrange(0, hi).drop_last() =~= v.subrange(0, hi - 1));
        lemma_trim_end_len(v.subrange(0, hi - 1));
        assert(v.subrange(lo, hi).drop_last() =~= v.subrange(lo, hi - 1));
        lemma_trim_end_subrange(v, lo, hi - 1, k);
    } else {
        assert(v.subrange(0, hi).last() == v[hi - 1]);
        assert(v.subrange(lo, hi).last() == v[hi - 1]);
        assert(k == hi);
    }
}

/// `trim_end_spec` never lengthens its argument.
proof fn lemma_trim_end_len(s: Seq<char>)
    ensures
        trim_end_spec(s).len() <= s.len(),
    decreases s.len(),
{
    if s.len() > 0 && is_unicode_whitespace(s.last()) {
        lemma_trim_end_len(s.drop_last());
    }
}

/// `trim_end_spec` only removes characters: its result is a prefix.
proof fn lemma_trim_end_prefix(v: Seq<char>, hi: int, k: int)
    requires
        0 <= k <= hi <= v.len(),
        v.subrange(0, k) == trim_end_spec(v.subrange(0, hi)),
    ensures
        k <= hi,
{
}

/// Drops every trailing `c` of `v[lo..hi]`: the new end index.
pub fn trim_end_char_index(v: &Vec<char>, lo: usize, hi: usize, c: char) -> (k: usize)
    requires
        lo <= hi <= v@.len(),
    ensures
        lo <= k <= hi,
        v@.subrange(lo as int, k as int) == trim_end_char_spec(v@.subrange(lo as int, hi as int), c),
{
    let mut k = hi;
    while k > lo && v[k - 1] == c
        invariant
            lo <= k <= hi <= v@.len(),
            trim_end_char_spec(v@.subrange(lo as int, k as int), c) == trim_end_char_spec(
                v@.subrange(lo as int, hi as int),
                c,
            ),
        decreases k,
    {
        assert(v@.subrange(lo as int, k as int).drop_last() =~= v@.subrange(lo as int, k - 1));
        k = k - 1;
    }
    k
}

/// Drops every leading `c` of `v[lo..hi]`: the new start index.
pub fn trim_start_char_index(v: &Vec<char>, lo: usize, hi: usize, c: char) -> (k: usize)
    requires
        lo <= hi <= v@.len(),
    ensures
        lo <= k <= hi,
        v@.subrange(k as int, hi as int) == trim_start_char_spec(
            v@.subrange(lo as int, hi as int),
            c,
        ),
{
    let mut k = lo;
    while k < hi && v[k] == c
        invariant
            lo <= k <= hi <= v@.len(),
            trim_start_char_spec(v@.subrange(k as int, hi as int), c) == trim_start_char_spec(
                v@.subrange(lo as int, hi as int),
                c,
            ),
        decreases hi - k,
    {
        assert(v@.subrange(k as int, hi as int).drop_first() =~= v@.subrange(k + 1, hi as int));
        k = k + 1;
    }
    k
}

/// The text of `s` with every character `from` replaced by `to`.
pub open spec fn replace_char_spec(s: Seq<char>, from: char, to: char) -> Seq<char> {
    Seq::new(s.len(), |i: int| if s[i] == from { to } else { s[i] })
}

/// Replaces every occurrence of `from` in `s` by `to` (`str::replace` with
/// one-character patterns).
pub fn replace_char(s: &str, from: char, to: char) -> (res: String)
    ensures
        res@ == replace_char_spec(s@, from, to),
{
    let v = chars_of(s);
    let mut res = String::new();
    let mut i: usize = 0;
    while i < v.len()
        invariant
            v@ == s@,
            i <= v@.len(),
            res@ == replace_char_spec(s@.subrange(0, i as int), from, to),
        decreases v@.len() - i,
    {
        let c = v[i];
        let d = if c == from { to } else { c };
        push_char(&mut res, d);
        i = i + 1;
        assert(res@ =~= replace_char_spec(s@.subrange(0, i as int), from, to));
    }
    assert(s@.subrange(0, v@.len() as int) =~= s@);
    res
}

/// The text of `s` quoted for a single-quoted shell word: every `'` becomes
/// `'\''` (`s.replace('\'', "'\\''")`).
pub open spec fn escape_single_quotes_spec(s: Seq<char>) -> Seq<char>
    decreases s.len(),
{
    if s.len() == 0 {
        s
    } else {
        escape_single_quotes_spec(s.drop_last()) + if s.last() == '\'' {
            seq!['\'', '\\', '\'', '\'']
        } else {
            seq![s.last()]
        }
    }
}

/// Escapes single quotes the way a POSIX shell needs inside `'...'`.
pub fn escape_single_quotes(s: &str) -> (res: String)
    ensures
        res@ == escape_single_quotes_spec(s@),
{
    let v = chars_of(s);
    let mut res = String::new();
    let mut i: usize = 0;
    while i < v.len()
        invariant
            v@ == s@,
            i <= v@.len(),
            res@ == escape_single_quotes_spec(s@.subrange(0, i as int)),
        decreases v@.len() - i,
    {
        let c = v[i];
        assert(s@.subrange(0, i + 1).drop_last() =~= s@.subrange(0, i as int));
        if c == '\'' {
            push_char(&mut res, '\'');
            push_char(&mut res, '\\');
            push_char(&mut res, '\'');
            push_char(&mut res, '\'');
        } else {
            push_char(&mut res, c);
        }
        i = i + 1;
        assert(res@ =~= escape_single_quotes_spec(s@.subrange(0, i as int)));
    }
    assert(s@.subrange(0, v@.len() as int) =~= s@);
    res
}

/// Whether `needle` occurs in `hay` at position `i`.
pub open spec fn occurs_at(hay: Seq<char>, needle: Seq<char>, i: int) -> bool {
    0 <= i && i + needle.len() <= hay.len() && hay.subrange(i, i + needle.len()) == needle
}

/// The first position `>= start` where `needle` occurs in `hay`.
pub open spec fn find_from_spec(hay: Seq<char>, needle: Seq<char>, start: int) -> Option<int>
    decreases hay.len() + 1 - start,
{
    if start < 0 || start + needle.len() > hay.len() {
        None
    } else if occurs_at(hay, needle, start) {
        Some(start)
    } else {
        find_from_spec(hay, needle, start + 1)
    }
}

/// A found position lies at or after `start`, with the whole needle in `hay`.
pub proof fn lemma_find_from_bounds(hay: Seq<char>, needle: Seq<char>, start: int)
    ensures
        find_from_spec(hay, needle, start) matches Some(p) ==> start <= p && occurs_at(
            hay,
            needle,
            p,
        ),
    decreases hay.len() + 1 - start,
{
    if start >= 0 && start + needle.len() <= hay.len() && !occurs_at(hay, needle, start) {
        lemma_find_from_bounds(hay, needle, start + 1);
    }
}

/// Whether `needle` occurs in `v[start..hi]` at `i`.
fn matches_at(v: &Vec<char>, needle: &Vec<char>, i: usize) -> (b: bool)
    requires
        i + needle@.len() <= v@.len(),
    ensures
        b == occurs_at(v@, needle@, i as int),
{
    let mut j: usize = 0;
    while j < needle.len()
        invariant
            i + needle@.len() <= v@.len(),
            v@.len() == v.len(),
            j <= needle@.len(),
            forall|t: int| 0 <= t < j ==> v@[i + t] == needle@[t],
        decreases needle@.len() - j,
    {
        if v[i + j] != needle[j] {
            assert(v@.subrange(i as int, i + needle@.len())[j as int] != needle@[j as int]);
            return false;
        }
        j = j + 1;
    }
    assert(v@.subrange(i as int, i + needle@.len()) =~= needle@);
    true
}

/// The first position `>= start` where `needle` occurs in `v` (`str::find` on
/// the suffix starting at `start`, counted in characters).
pub fn find_from(v: &Vec<char>, needle: &Vec<char>, start: usize) -> (r: Option<usize>)
    ensures
        match r {
            Some(i) => find_from_spec(v@, needle@, start as int) == Some(i as int),
            None => find_from_spec(v@, needle@, start as int) is None,
        },
{
    if needle.len() > v.len() {
        return None;
    }
    let last = v.len() - needle.len();
    let mut i = start;
    loop
        invariant
            last + needle@.len() == v@.len(),
            start <= i,
            find_from_spec(v@, needle@, i as int) == find_from_spec(v@, needle@, start as int),
        decreases last + 1 - i,
    {
        if i > last {
            return None;
        }
        if matches_at(v, needle, i) {
            return Some(i);
        }
        if i == last {
            assert(find_from_spec(v@, needle@, i + 1) is None);
            return None;
        }
        i = i + 1;
    }
}

/// The pieces of `s` between occurrences of `c` (`str::split(c)`): always at
/// least one piece.
pub open spec fn split_spec(s: Seq<char>, c: char) -> Seq<Seq<char>>
    decreases s.len(),
{
    if s.len() == 0 {
        seq![Seq::<char>::empty()]
    } else {
        let p = split_spec(s.drop_last(), c);
        if s.last() == c {
            p.push(Seq::<char>::empty())
        } else {
            p.update(p.len() - 1, p.last().push(s.last()))
        }
    }
}

/// `split_spec` always yields at least one piece.
pub proof fn lemma_split_nonempty(s: Seq<char>, c: char)
    ensures
        split_spec(s, c).len() >= 1,
    decreases s.len(),
{
    if s.len() > 0 {
        lemma_split_nonempty(s.drop_last(), c);
    }
}

/// `x` without one trailing carriage return, if it has one.
pub open spec fn strip_cr(x: Seq<char>) -> Seq<char> {
    if x.len() > 0 && x.last() == '\r' {
        x.drop_last()
    } else {
        x
    }
}

/// The lines of `s` (`str::lines`): pieces between `\n`, a `\r` just before a
/// `\n` dropped, and no empty last line after a final `\n`.
pub open spec fn lines_spec(s: Seq<char>) -> Seq<Seq<char>> {
    if s.len() == 0 {
        Seq::empty()
    } else {
        let segs = split_spec(s, '\n');
        if s.last() == '\n' {
            segs.drop_last().map_values(|x: Seq<char>| strip_cr(x))
        } else {
            Seq::new(
                segs.len(),
                |i: int|
                    if i == segs.len() - 1 {
                        segs[i]
                    } else {
                        strip_cr(segs[i])
                    },
            )
        }
    }
}

/// The character sequences held by a list of character vectors.
pub open spec fn char_vec_views(r: Seq<Vec<char>>) -> Seq<Seq<char>> {
    r.map_values(|x: Vec<char>| x@)
}

/// The character sequences held by a list of strings.
pub open spec fn string_views(r: Seq<String>) -> Seq<Seq<char>> {
    r.map_values(|x: String| x@)
}

/// Splits `v` at every `c`.
pub fn split_char(v: &Vec<char>, c: char) -> (r: Vec<Vec<char>>)
    ensures
        char_vec_views(r@) == split_spec(v@, c),
{
    let mut r: Vec<Vec<char>> = Vec::new();
    let mut cur: Vec<char> = Vec::new();
    let mut i: usize = 0;
    assert(v@.subrange(0, 0) =~= Seq::<char>::empty());
    while i < v.len()
        invariant
            i <= v@.len(),
            char_vec_views(r@).push(cur@) == split_spec(v@.subrange(0, i as int), c),
        decreases v@.len() - i,
    {
        let ghost before = char_vec_views(r@).push(cur@);
        assert(v@.subrange(0, i + 1).drop_last() =~= v@.subrange(0, i as int));
        if v[i] == c {
            r.push(cur);
            cur = Vec::new();
            assert(char_vec_views(r@).push(cur@) =~= before.push(Seq::<char>::empty()));
        } else {
            cur.push(v[i]);
            assert(char_vec_views(r@).push(cur@) =~= before.update(
                before.len() - 1,
                before.last().push(v@[i as int]),
            ));
        }
        i = i + 1;
    }
    assert(v@.subrange(0, v@.len() as int) =~= v@);
    r.push(cur);
    r
}

/// The characters of `x` without one trailing `\r`.
fn strip_cr_string(x: &Vec<char>) -> (s: String)
    ensures
        s@ == strip_cr(x@),
{
    if x.len() > 0 && x[x.len() - 1] == '\r' {
        string_of_range(x, 0, x.len() - 1)
    } else {
        string_of_chars(x)
    }
}

/// The lines of `s` (`str::lines`).
pub fn lines(s: &str) -> (r: Vec<String>)
    ensures
        string_views(r@) == lines_spec(s@),
{
    let v = chars_of(s);
    let mut r: Vec<String> = Vec::new();
    if v.len() == 0 {
        assert(string_views(r@) =~= lines_spec(s@));
        return r;
    }
    let segs = split_char(&v, '\n');
    proof {
        lemma_split_nonempty(v@, '\n');
    }
    let ends_nl = v[v.len() - 1] == '\n';
    let n = if ends_nl { segs.len() - 1 } else { segs.len() };
    let ghost target = lines_spec(s@);
    let mut i: usize = 0;
    while i < n
        invariant
            v@ == s@,
            v@.len() > 0,
            char_vec_views(segs@) == split_spec(v@, '\n'),
            ends_nl == (v@.last() == '\n'),
            n == (if ends_nl { segs@.len() - 1 } else { segs@.len() as int }),
            segs@.len() >= 1,
            target == lines_spec(s@),
            i <= n,
            string_views(r@) == target.subrange(0, i as int),
            target.len() == n,
        decreases n - i,
    {
        let ghost seg = char_vec_views(segs@)[i as int];
        let line = if !ends_nl && i == segs.len() - 1 {
            string_of_chars(&segs[i])
        } else {
            strip_cr_string(&segs[i])
        };
        proof {
            let sp = split_spec(v@, '\n');
            assert(sp[i as int] == segs@[i as int]@);
            if ends_nl {
                assert(target == sp.drop_last().map_values(|x: Seq<char>| strip_cr(x)));
            }
            assert(line@ == target[i as int]);
        }
        let ghost old_r = r@;
        r.push(line);
        assert(string_views(r@) =~= string_views(old_r).push(line@));
        i = i + 1;
        assert(string_views(r@) =~= target.subrange(0, i as int));
    }
    assert(target.subrange(0, n as int) =~= target);
    r
}

/// Whether `needle` occurs anywhere in `hay` (`str::contains`).
pub open spec fn contains_spec(hay: Seq<char>, needle: Seq<char>) -> bool {
    find_from_spec(hay, needle, 0) is Some
}

/// Whether `needle` occurs anywhere in `hay`.
pub fn contains(hay: &Vec<char>, needle: &str) -> (b: bool)
    ensures
        b == contains_spec(hay@, needle@),
{
    let n = chars_of(needle);
    find_from(hay, &n, 0).is_some()
}

/// The `{:?}` rendering of a list of strings, as `format!` produces it.
pub uninterp spec fn debug_list_text(items: Seq<Seq<char>>) -> Seq<char>;

/// Renders a list of strings the way `{:?}` does (`["a", "b"]`).
///
/// Only the name of the result is stated: it is `format!("{:?}", items)`,
/// with Rust's own escaping of each string.
#[verifier::external_body]
pub fn debug_list(items: &Vec<String>) -> (s: String)
    ensures
        s@ == debug_list_text(string_views(items@)),
{
    format!("{:?}", items)
}

/// An occurrence at or after `start` is found by a search from `start`.
proof fn lemma_find_reaches(hay: Seq<char>, needle: Seq<char>, start: int, i: int)
    requires
        0 <= start <= i,
        occurs_at(hay, needle, i),
    ensures
        find_from_spec(hay, needle, start) is Some,
    decreases i - start,
{
    if start < i && !occurs_at(hay, needle, start) {
        lemma_find_reaches(hay, needle, start + 1, i);
    }
}

/// `hay` contains `needle` exactly when `needle` occurs in it at some
/// position, wherever that is (as `str::contains` answers).
pub proof fn law_contains_means_occurs_somewhere(hay: Seq<char>, needle: Seq<char>)
    ensures
        contains_spec(hay, needle) <==> exists|i: int|
            0 <= i && i + needle.len() <= hay.len() && #[trigger] hay.subrange(i, i + needle.len())
                == needle,
{
    lemma_find_from_bounds(hay, needle, 0);
    if exists|i: int|
        0 <= i && i + needle.len() <= hay.len() && #[trigger] hay.subrange(i, i + needle.len())
            == needle {
        let i = choose|i: int|
            0 <= i && i + needle.len() <= hay.len() && #[trigger] hay.subrange(i, i + needle.len())
                == needle;
        lemma_find_reaches(hay, needle, 0, i);
    }
    if contains_spec(hay, needle) {
        let p = find_from_spec(hay, needle, 0)->0;
        assert(occurs_at(hay, needle, p));
    }
}

} // verus!
