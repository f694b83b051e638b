//! Character-level helpers shared by the line classifier and the parser:
//! the whitespace predicate, end/start trimming, interior whitespace
//! collapsing, and conversions between `String` and `Vec<char>`.

use vstd::prelude::*;

verus! {

/// The Unicode `White_Space` set, as used by `str::trim` and by the
/// whitespace character class of common line patterns.
pub open spec fn is_ws_char(c: char) -> bool {
    c == '\u{9}' || c == '\u{A}' || c == '\u{B}' || c == '\u{C}' || c == '\u{D}'
        || c == ' ' || c == '\u{85}' || c == '\u{A0}' || c == '\u{1680}'
        || c == '\u{2000}' || c == '\u{2001}' || c == '\u{2002}' || c == '\u{2003}'
        || c == '\u{2004}' || c == '\u{2005}' || c == '\u{2006}' || c == '\u{2007}'
        || c == '\u{2008}' || c == '\u{2009}' || c == '\u{200A}' || c == '\u{2028}'
        || c == '\u{2029}' || c == '\u{202F}' || c == '\u{205F}' || c == '\u{3000}'
}

/// Executable test for `is_ws_char`.
pub fn char_is_ws(c: char) -> (r: bool)
    ensures
        r == is_ws_char(c),
{
    c == '\u{9}' || c == '\u{A}' || c == '\u{B}' || c == '\u{C}' || c == '\u{D}'
        || c == ' ' || c == '\u{85}' || c == '\u{A0}' || c == '\u{1680}'
        || c == '\u{2000}' || c == '\u{2001}' || c == '\u{2002}' || c == '\u{2003}'
        || c == '\u{2004}' || c == '\u{2005}' || c == '\u{2006}' || c == '\u{2007}'
        || c == '\u{2008}' || c == '\u{2009}' || c == '\u{200A}' || c == '\u{2028}'
        || c == '\u{2029}' || c == '\u{202F}' || c == '\u{205F}' || c == '\u{3000}'
}

/// The sequence with all trailing whitespace characters removed.
pub open spec fn trim_end(s: Seq<char>) -> Seq<char>
    decreases s.len(),
{
    if s.len() == 0 {
        s
    } else if is_ws_char(s.last()) {
        trim_end(s.drop_last())
    } else {
        s
    }
}

/// The sequence with all leading whitespace characters removed.
pub open spec fn trim_start(s: Seq<char>) -> Seq<char>
    decreases s.len(),
{
    if s.len() == 0 {
        s
    } else if is_ws_char(s[0]) {
        trim_start(s.subrange(1, s.len() as int))
    } else {
        s
    }
}

/// The sequence with whitespace removed from both ends.
pub open spec fn trim(s: Seq<char>) -> Seq<char> {
    trim_start(trim_end(s))
}

/// True when the sequence consists of whitespace only.
pub open spec fn is_blank(s: Seq<char>) -> bool {
    forall|i: int| 0 <= i < s.len() ==> is_ws_char(s[i])
}

/// `trim_end` keeps exactly the prefix that ends at the last non-whitespace
/// character.
pub proof fn lemma_trim_end_take(s: Seq<char>, i: int)
    requires
        0 <= i <= s.len(),
        forall|j: int| i <= j < s.len() ==> is_ws_char(s[j]),
        i > 0 ==> !is_ws_char(s[i - 1]),
    ensures
        trim_end(s) == s.take(i),
    decreases s.len(),
{
    if s.len() == i {
        assert(s.take(i) =~= s);
    } else {
        assert(is_ws_char(s.last()));
        lemma_trim_end_take(s.drop_last(), i);
        assert(s.drop_last().take(i) =~= s.take(i));
    }
}

/// `trim_start` keeps exactly the suffix that starts at the first
/// non-whitespace character.
pub proof fn lemma_trim_start_skip(s: Seq<char>, i: int)
    requires
        0 <= i <= s.len(),
        forall|j: int| 0 <= j < i ==> is_ws_char(s[j]),
        i < s.len() ==> !is_ws_char(s[i]),
    ensures
        trim_start(s) == s.skip(i),
    decreases i,
{
    if i == 0 {
        assert(s.skip(0) =~= s);
    } else {
        assert(is_ws_char(s[0]));
        let t = s.subrange(1, s.len() as int);
        lemma_trim_start_skip(t, i - 1);
        assert(t.skip(i - 1) =~= s.skip(i));
    }
}

/// The contribution of position `i` of `s` to the whitespace-collapsed form:
/// non-whitespace characters and whitespace in a leading run are kept; an
/// interior run of two or more whitespace characters becomes one space,
/// emitted at its first position; a lone interior whitespace character stays.
pub open spec fn collapse_at(s: Seq<char>, i: int) -> Seq<char>
    recommends
        0 <= i < s.len(),
{
    if !is_ws_char(s[i]) {
        seq![s[i]]
    } else if is_blank(s.take(i + 1)) {
        seq![s[i]]
    } else if is_ws_char(s[i - 1]) {
        Seq::empty()
    } else if i + 1 < s.len() && is_ws_char(s[i + 1]) {
        seq![' ']
    } else {
        seq![s[i]]
    }
}

/// Concatenation of the contributions of positions `i..` of `s`.
pub open spec fn collapse_from(s: Seq<char>, i: int) -> Seq<char>
    decreases s.len() - i,
{
    if i < 0 || i >= s.len() {
        Seq::empty()
    } else {
        collapse_at(s, i) + collapse_from(s, i + 1)
    }
}

/// The line with every interior run of two or more whitespace characters
/// collapsed to a single space; a leading whitespace run is left as it is.
pub open spec fn collapse_ws(s: Seq<char>) -> Seq<char> {
    collapse_from(s, 0)
}

/// Copy of the characters of a string slice.
pub fn str_chars(s: &str) -> (v: Vec<char>)
    ensures
        v@ == s@,
{
    let n = s.unicode_len();
    let mut v: Vec<char> = Vec::new();
    let mut i: usize = 0;
    while i < n
        invariant
            n == s@.len(),
            i <= n,
            v@ == s@.take(i as int),
        decreases n - i,
    {
        let c = s.get_char(i);
        v.push(c);
        assert(s@.take(i + 1) =~= s@.take(i as int).push(c));
        i = i + 1;
    }
    assert(s@.take(n as int) =~= s@);
    v
}

/// Relies on `String::push`: appends the given character to the end of the
/// string.
pub assume_specification[ String::push ](s: &mut String, c: char)
    ensures
        final(s)@ == old(s)@.push(c),
;

/// A `String` holding exactly the given characters.
pub fn chars_to_string(v: &Vec<char>) -> (s: String)
    ensures
        s@ == v@,
{
    let mut s = String::new();
    let mut i: usize = 0;
    while i < v.len()
        invariant
            i <= v.len(),
            s@ == v@.take(i as int),
        decreases v.len() - i,
    {
        s.push(v[i]);
        assert(v@.take(i + 1) =~= v@.take(i as int).push(v@[i as int]));
        i = i + 1;
    }
    assert(v@.take(v.len() as int) =~= v@);
    s
}

/// The end-trimmed copy of a character vector.
pub fn trim_end_chars(v: &Vec<char>) -> (r: Vec<char>)
    ensures
        r@ == trim_end(v@),
{
    let mut j = v.len();
    while j > 0 && char_is_ws(v[j - 1])
        invariant
            j <= v.len(),
            forall|k: int| j <= k < v.len() ==> is_ws_char(v@[k]),
        decreases j,
    {
        j = j - 1;
    }
    proof {
        lemma_trim_end_take(v@, j as int);
    }
    let mut r: Vec<char> = Vec::new();
    let mut i: usize = 0;
    while i < j
        invariant
            i <= j <= v.len(),
            r@ == v@.take(j as int).take(i as int),
        decreases j - i,
    {
        r.push(v[i]);
        assert(v@.take(j as int).take(i + 1) =~= v@.take(j as int).take(i as int).push(
            v@[i as int],
        ));
        i = i + 1;
    }
    assert(v@.take(j as int).take(j as int) =~= v@.take(j as int));
    r
}

/// The start-trimmed copy of a character vector.
pub fn trim_start_chars(v: &Vec<char>) -> (r: Vec<char>)
    ensures
        r@ == trim_start(v@),
{
    let mut i: usize = 0;
    while i < v.len() && char_is_ws(v[i])
        invariant
            i <= v.len(),
            forall|k: int| 0 <= k < i ==> is_ws_char(v@[k]),
        decreases v.len() - i,
    {
        i = i + 1;
    }
    proof {
        lemma_trim_start_skip(v@, i as int);
    }
    let mut r: Vec<char> = Vec::new();
    let mut k = i;
    while k < v.len()
        invariant
            i <= k <= v.len(),
            r@ == v@.skip(i as int).take(k - i),
        decreases v.len() - k,
    {
        r.push(v[k]);
        assert(v@.skip(i as int).take(k + 1 - i) =~= v@.skip(i as int).take(k - i).push(
            v@[k as int],
        ));
        k = k + 1;
    }
    assert(v@.skip(i as int).take(v.len() - i) =~= v@.skip(i as int));
    r
}

/// The fully trimmed copy of a character vector.
pub fn trim_chars(v: &Vec<char>) -> (r: Vec<char>)
    ensures
        r@ == trim(v@),
{
    let e = trim_end_chars(v);
    trim_start_chars(&e)
}

/// The whitespace-collapsed copy of a character vector.
pub fn collapse_ws_chars(v: &Vec<char>) -> (r: Vec<char>)
    ensures
        r@ == collapse_ws(v@),
{
    let mut r: Vec<char> = Vec::new();
    let mut i: usize = 0;
    let mut leading = true;
    while i < v.len()
        invariant
            i <= v.len(),
            leading == is_blank(v@.take(i as int)),
            r@ + collapse_from(v@, i as int) == collapse_from(v@, 0),
        decreases v.len() - i,
    {
        let ghost r0 = r@;
        let c = v[i];
        let c_ws = char_is_ws(c);
        proof {
            assert(v@.take(i + 1) =~= v@.take(i as int).push(v@[i as int]));
        }
        if !c_ws {
            r.push(c);
            leading = false;
        } else if leading {
            r.push(c);
        } else if i > 0 && char_is_ws(v[i - 1]) {
            // continuation of an interior whitespace run: nothing emitted
        } else if i + 1 < v.len() && char_is_ws(v[i + 1]) {
            r.push(' ');
        } else {
            r.push(c);
        }
        proof {
            assert(r@ =~= r0 + collapse_at(v@, i as int));
            assert((r0 + collapse_at(v@, i as int)) + collapse_from(v@, i + 1) =~= r0
                + collapse_from(v@, i as int));
            if is_blank(v@.take(i as int)) && c_ws {
                assert(is_blank(v@.take(i + 1)));
            } else if !c_ws {
                assert(!is_ws_char(v@.take(i + 1)[i as int]));
                assert(!is_blank(v@.take(i + 1)));
            } else {
                let j = choose|j: int| 0 <= j < i && !is_ws_char(v@.take(i as int)[j]);
                assert(!is_ws_char(v@.take(i + 1)[j]));
                assert(!is_blank(v@.take(i + 1)));
            }
        }
        i = i + 1;
    }
    assert(r@ =~= collapse_from(v@, 0));
    r
}

/// Executable test for `is_blank`.
pub fn is_blank_chars(v: &Vec<char>) -> (r: bool)
    ensures
        r == is_blank(v@),
{
    let mut i: usize = 0;
    while i < v.len()
        invariant
            i <= v.len(),
            forall|k: int| 0 <= k < i ==> is_ws_char(v@[k]),
        decreases v.len() - i,
    {
        if !char_is_ws(v[i]) {
            return false;
        }
        i = i + 1;
    }
    true
}

/// Copy of the characters of `v` from position `from` on.
pub fn skip_chars(v: &Vec<char>, from: usize) -> (r: Vec<char>)
    requires
        from <= v@.len(),
    ensures
        r@ == v@.skip(from as int),
{
    let mut r: Vec<char> = Vec::new();
    let mut k = from;
    while k < v.len()
        invariant
            from <= k <= v.len(),
            r@ == v@.skip(from as int).take(k - from),
        decreases v.len() - k,
    {
        r.push(v[k]);
        assert(v@.skip(from as int).take(k + 1 - from) =~= v@.skip(from as int).take(
            k - from,
        ).push(v@[k as int]));
        k = k + 1;
    }
    assert(v@.skip(from as int).take(v.len() - from) =~= v@.skip(from as int));
    r
}

/// Appends a copy of the characters of `src` to `dst`.
pub fn append_chars(dst: &mut Vec<char>, src: &Vec<char>)
    ensures
        final(dst)@ == old(dst)@ + src@,
{
    let mut k: usize = 0;
    assert(dst@ =~= old(dst)@ + src@.take(0));
    while k < src.len()
        invariant
            k <= src.len(),
            dst@ == old(dst)@ + src@.take(k as int),
        decreases src.len() - k,
    {
        dst.push(src[k]);
        assert(old(dst)@ + src@.take(k + 1) =~= (old(dst)@ + src@.take(k as int)).push(
            src@[k as int],
        ));
        k = k + 1;
    }
    assert(old(dst)@ + src@.take(src.len() as int) =~= old(dst)@ + src@);
}

} // verus!
