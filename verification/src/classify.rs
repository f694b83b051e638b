//! The line classifier: stateless tests applied to one end-trimmed line of
//! text, recognizing fence markers, headings and bullet items.

use vstd::prelude::*;

use crate::text::{
    is_ws_char, trim, trim_start, char_is_ws, trim_chars, trim_start_chars, skip_chars,
};

verus! {

/// A fence line: the trimmed content is exactly the three-backtick marker.
pub open spec fn is_fence(s: Seq<char>) -> bool {
    trim(s) == seq!['`', '`', '`']
}

/// A heading line starts with at least one `#` marker.
pub open spec fn is_heading(s: Seq<char>) -> bool {
    s.len() > 0 && s[0] == '#'
}

/// The heading level: the count of leading `#` markers, unbounded above.
pub open spec fn heading_level(s: Seq<char>) -> nat
    decreases s.len(),
{
    if s.len() == 0 || s[0] != '#' {
        0
    } else {
        1 + heading_level(s.skip(1))
    }
}

/// The heading text: what follows the markers, trimmed on both ends.
pub open spec fn heading_text(s: Seq<char>) -> Seq<char> {
    trim(s.skip(heading_level(s) as int))
}

/// A bullet line: one bullet marker, then at least one whitespace character.
pub open spec fn is_bullet(s: Seq<char>) -> bool {
    s.len() >= 2 && (s[0] == '-' || s[0] == '*' || s[0] == '+') && is_ws_char(s[1])
}

/// The bullet item text: what follows the marker with the separating
/// whitespace run stripped; the end is left as it stands.
pub open spec fn bullet_text(s: Seq<char>) -> Seq<char> {
    trim_start(s.skip(1))
}

/// The heading level equals the length of the maximal `#` prefix.
pub proof fn lemma_heading_level_prefix(s: Seq<char>, i: int)
    requires
        0 <= i <= s.len(),
        forall|j: int| 0 <= j < i ==> s[j] == '#',
        i < s.len() ==> s[i] != '#',
    ensures
        heading_level(s) == i,
    decreases i,
{
    if i == 0 {
    } else {
        let t = s.skip(1);
        assert(forall|j: int| 0 <= j < i - 1 ==> t[j] == '#');
        lemma_heading_level_prefix(t, i - 1);
    }
}

/// Executable fence test.
pub fn classify_fence(v: &Vec<char>) -> (r: bool)
    ensures
        r == is_fence(v@),
{
    let t = trim_chars(v);
    if t.len() == 3 && t[0] == '`' && t[1] == '`' && t[2] == '`' {
        proof {
            assert(trim(v@) =~= seq!['`', '`', '`']);
        }
        true
    } else {
        proof {
            if trim(v@) == seq!['`', '`', '`'] {
                assert(t@.len() == 3 && t@[0] == '`' && t@[1] == '`' && t@[2] == '`');
            }
        }
        false
    }
}

/// Executable heading classification: the level and the heading text when
/// the line is a heading.
pub fn classify_heading(v: &Vec<char>) -> (r: Option<(usize, Vec<char>)>)
    ensures
        match r {
            Some(cap) => is_heading(v@) && cap.0 as nat == heading_level(v@) && cap.1@
                == heading_text(v@),
            None => !is_heading(v@),
        },
{
    if v.len() == 0 || v[0] != '#' {
        return None;
    }
    let mut level: usize = 0;
    while level < v.len() && v[level] == '#'
        invariant
            level <= v.len(),
            forall|j: int| 0 <= j < level ==> v@[j] == '#',
        decreases v.len() - level,
    {
        level = level + 1;
    }
    proof {
        lemma_heading_level_prefix(v@, level as int);
    }
    let tail = skip_chars(v, level);
    let text = trim_chars(&tail);
    Some((level, text))
}

/// Executable bullet classification: the item text when the line is a
/// bullet line.
pub fn classify_bullet(v: &Vec<char>) -> (r: Option<Vec<char>>)
    ensures
        match r {
            Some(text) => is_bullet(v@) && text@ == bullet_text(v@),
            None => !is_bullet(v@),
        },
{
    if v.len() >= 2 {
        let m = v[0];
        if (m == '-' || m == '*' || m == '+') && char_is_ws(v[1]) {
            let tail = skip_chars(v, 1);
            let text = trim_start_chars(&tail);
            return Some(text);
        }
    }
    None
}

} // verus!
