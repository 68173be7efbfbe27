//! Names and paths below the data directory.

use vstd::prelude::*;

use crate::text::{
    chars_of, join2, join3, owned, text_between, trim_matches, without_leading, without_trailing,
};

verus! {

/// The characters that a path component may be made of.
pub open spec fn plain_char(c: char) -> bool {
    ||| ('a' <= c && c <= 'z')
    ||| ('A' <= c && c <= 'Z')
    ||| ('0' <= c && c <= '9')
    ||| c == '-'
    ||| c == '_'
}

fn is_plain_char(c: char) -> (r: bool)
    ensures
        r == plain_char(c),
{
    ('a' <= c && c <= 'z') || ('A' <= c && c <= 'Z') || ('0' <= c && c <= '9') || c == '-' || c
        == '_'
}

/// `raw` with an underscore in place of each character that is not plain.
pub open spec fn cleaned(raw: Seq<char>) -> Seq<char> {
    Seq::new(
        raw.len(),
        |i: int|
            if plain_char(raw[i]) {
                raw[i]
            } else {
                '_'
            },
    )
}

/// The most characters that a sanitized name keeps.
pub const MAX_COMPONENT: usize = 80;

/// What [`sanitize_path_component`] makes of a name.
pub open spec fn sanitized(raw: Seq<char>) -> Seq<char> {
    let inner = without_trailing(without_leading(cleaned(raw), '_'), '_');
    if inner.len() == 0 {
        "untitled"@
    } else if inner.len() > MAX_COMPONENT {
        inner.take(MAX_COMPONENT as int)
    } else {
        inner
    }
}

/// Keep untrusted ids and names from escaping the recordings directory.
pub fn sanitize_path_component(raw: &str) -> (out: String)
    ensures
        out@ == sanitized(raw@),
{
    let chars = chars_of(raw);
    let mut clean = String::new();
    let mut i: usize = 0;
    while i < chars.len()
        invariant
            chars@ == raw@,
            i <= chars@.len(),
            clean@ == cleaned(raw@).take(i as int),
        decreases chars@.len() - i,
    {
        let c: char = chars[i];
        clean.push(
            if is_plain_char(c) {
                c
            } else {
                '_'
            },
        );
        i += 1;
        assert(clean@ =~= cleaned(raw@).take(i as int));
    }
    assert(clean@ =~= cleaned(raw@));
    let inner = trim_matches(clean.as_str(), '_');
    let kept = chars_of(inner.as_str());
    if kept.len() == 0 {
        owned("untitled")
    } else if kept.len() > MAX_COMPONENT {
        let out = text_between(kept.as_slice(), 0, MAX_COMPONENT);
        assert(out@ =~= inner@.take(MAX_COMPONENT as int));
        out
    } else {
        inner
    }
}

proof fn lemma_without_leading_keeps(s: Seq<char>, c: char)
    requires
        forall|i: int| 0 <= i < s.len() ==> plain_char(#[trigger] s[i]),
    ensures
        without_leading(s, c).len() <= s.len(),
        forall|i: int|
            0 <= i < without_leading(s, c).len() ==> plain_char(
                #[trigger] without_leading(s, c)[i],
            ),
        without_leading(s, c).len() > 0 ==> without_leading(s, c)[0] != c,
    decreases s.len(),
{
    if s.len() > 0 && s[0] == c {
        lemma_without_leading_keeps(s.subrange(1, s.len() as int), c);
    }
}

proof fn lemma_without_trailing_keeps(s: Seq<char>, c: char)
    requires
        forall|i: int| 0 <= i < s.len() ==> plain_char(#[trigger] s[i]),
    ensures
        without_trailing(s, c).len() <= s.len(),
        forall|i: int|
            0 <= i < without_trailing(s, c).len() ==> plain_char(
                #[trigger] without_trailing(s, c)[i],
            ),
        without_trailing(s, c).len() > 0 ==> without_trailing(s, c)[0] == s[0],
    decreases s.len(),
{
    if s.len() > 0 && s[s.len() - 1] == c {
        lemma_without_trailing_keeps(s.subrange(0, s.len() - 1), c);
    }
}

/// A sanitized name is one plain path component: it is not empty, it has at most
/// eighty characters, it does not begin with an underscore, and each character
/// is an ASCII letter or digit, a hyphen or an underscore. So it holds no path
/// separator, no dot and no space, whatever the name was.
pub proof fn sanitized_names_are_plain_components(raw: Seq<char>)
    ensures
        0 < sanitized(raw).len() <= MAX_COMPONENT,
        sanitized(raw)[0] != '_',
        forall|i: int|
            0 <= i < sanitized(raw).len() ==> plain_char(#[trigger] sanitized(raw)[i])
                && sanitized(raw)[i] != '/' && sanitized(raw)[i] != '\\' && sanitized(raw)[i] != '.',
{
    reveal_strlit("untitled");
    let clean = cleaned(raw);
    let front = without_leading(clean, '_');
    lemma_without_leading_keeps(clean, '_');
    lemma_without_trailing_keeps(front, '_');
}

/// A name that is plain, short and free of underscores at its ends is kept as it
/// is.
pub proof fn plain_names_are_kept(raw: Seq<char>)
    requires
        0 < raw.len() <= MAX_COMPONENT,
        forall|i: int| 0 <= i < raw.len() ==> plain_char(#[trigger] raw[i]),
        raw[0] != '_',
        raw[raw.len() - 1] != '_',
    ensures
        sanitized(raw) == raw,
{
    assert(cleaned(raw) =~= raw);
}

/// The path of `child`, which is a relative one, in `dir`: a separator stands between
/// them, unless `dir` is empty or ends in one.
pub open spec fn joined(dir: Seq<char>, child: Seq<char>) -> Seq<char> {
    if dir.len() == 0 || dir[dir.len() - 1] == '/' {
        dir + child
    } else {
        dir + "/"@ + child
    }
}

/// The path of `child` in `dir`.
pub fn join_path(dir: &str, child: &str) -> (out: String)
    ensures
        out@ == joined(dir@, child@),
{
    let chars = chars_of(dir);
    let n: usize = chars.len();
    if n == 0 || chars[n - 1] == '/' {
        join2(dir, child)
    } else {
        join3(dir, "/", child)
    }
}

proof fn lemma_without_leading_place(s: Seq<char>, c: char)
    ensures
        exists|a: int|
            0 <= a <= s.len() && without_leading(s, c) == #[trigger] s.skip(a) && forall|i: int|
                0 <= i < a ==> #[trigger] s[i] == c,
    decreases s.len(),
{
    if s.len() > 0 && s[0] == c {
        let rest = s.subrange(1, s.len() as int);
        lemma_without_leading_place(rest, c);
        let a = choose|a: int|
            0 <= a <= rest.len() && without_leading(rest, c) == #[trigger] rest.skip(a) && forall|
                i: int,
            |
                0 <= i < a ==> #[trigger] rest[i] == c;
        assert(s.skip(a + 1) =~= rest.skip(a));
        assert forall|i: int| 0 <= i < a + 1 implies #[trigger] s[i] == c by {
            if i > 0 {
                assert(rest[i - 1] == s[i]);
            }
        }
    } else {
        assert(s.skip(0) =~= s);
    }
}

proof fn lemma_without_trailing_place(s: Seq<char>, c: char)
    ensures
        without_trailing(s, c).is_prefix_of(s),
        forall|i: int| without_trailing(s, c).len() <= i < s.len() ==> #[trigger] s[i] == c,
    decreases s.len(),
{
    if s.len() > 0 && s[s.len() - 1] == c {
        let front = s.subrange(0, s.len() - 1);
        lemma_without_trailing_place(front, c);
        assert forall|i: int| without_trailing(s, c).len() <= i < s.len() implies #[trigger] s[i]
            == c by {
            if i < front.len() {
                assert(front[i] == s[i]);
            }
        }
        assert(without_trailing(s, c) =~= s.subrange(0, without_trailing(s, c).len() as int));
    }
}

/// A sanitized name shows the name that it was made of: character for character from some
/// place on, with an underscore for each that is not plain. A name in which nothing is plain
/// but underscores is untitled, and no other is.
pub proof fn sanitized_names_show_their_names(raw: Seq<char>)
    ensures
        if exists|i: int| 0 <= i < raw.len() && plain_char(#[trigger] raw[i]) && raw[i] != '_' {
            exists|a: int|
                0 <= a && a + sanitized(raw).len() <= raw.len() && {
                    let shown = #[trigger] raw.skip(a);
                    &&& forall|i: int|
                        0 <= i < sanitized(raw).len() ==> #[trigger] sanitized(raw)[i] == if plain_char(
                            shown[i],
                        ) {
                            shown[i]
                        } else {
                            '_'
                        }
                    &&& forall|i: int|
                        0 <= i < a ==> !plain_char(#[trigger] raw[i]) || raw[i] == '_'
                    &&& sanitized(raw).len() < 80 ==> forall|i: int|
                        a + sanitized(raw).len() <= i < raw.len() ==> !plain_char(#[trigger] raw[i])
                            || raw[i] == '_'
                }
        } else {
            sanitized(raw) == "untitled"@
        },
{
    let clean = cleaned(raw);
    let front = without_leading(clean, '_');
    let inner = without_trailing(front, '_');
    lemma_without_leading_place(clean, '_');
    lemma_without_trailing_place(front, '_');
    let a = choose|a: int|
        0 <= a <= clean.len() && front == #[trigger] clean.skip(a) && forall|i: int|
            0 <= i < a ==> #[trigger] clean[i] == '_';
    assert forall|i: int| 0 <= i < raw.len() && plain_char(#[trigger] raw[i]) && raw[i] != '_' implies a
        <= i < a + inner.len() by {
        assert(clean[i] == raw[i]);
        if i >= a {
            assert(front[i - a] == clean[i]);
        }
    }
    assert forall|i: int| 0 <= i < a implies !plain_char(#[trigger] raw[i]) || raw[i] == '_' by {
        assert(clean[i] == '_');
    }
    assert forall|i: int| a + inner.len() <= i < raw.len() implies !plain_char(#[trigger] raw[i])
        || raw[i] == '_' by {
        assert(front[i - a] == clean[i]);
    }
    if exists|i: int| 0 <= i < raw.len() && plain_char(#[trigger] raw[i]) && raw[i] != '_' {
        let shown = raw.skip(a);
        assert forall|i: int| 0 <= i < sanitized(raw).len() implies #[trigger] sanitized(raw)[i] == if plain_char(
            shown[i],
        ) {
            shown[i]
        } else {
            '_'
        } by {
            assert(inner[i] == front[i]);
            assert(front[i] == clean[a + i]);
        }
    } else if inner.len() > 0 {
        lemma_without_leading_keeps(clean, '_');
        lemma_without_trailing_keeps(front, '_');
        assert(inner[0] == front[0]);
        assert(front[0] == clean[a]);
        assert(raw[a] == clean[a]);
    }
}

/// What is joined to a directory lies directly in it: behind one separator more than the
/// directory ends in, if that is none.
pub proof fn children_lie_in_their_directory(dir: Seq<char>, child: Seq<char>)
    ensures
        dir.is_prefix_of(joined(dir, child)),
        joined(dir, child).skip(joined(dir, child).len() - child.len()) == child,
        dir.len() > 0 ==> joined(dir, child)[joined(dir, child).len() - child.len() - 1] == '/',
        dir.len() > 0 && dir.last() != '/' ==> joined(dir, child).len() == dir.len() + 1
            + child.len(),
        dir.len() == 0 || dir.last() == '/' ==> joined(dir, child).len() == dir.len() + child.len(),
{
    reveal_strlit("/");
    let path = joined(dir, child);
    assert(path.subrange(0, dir.len() as int) =~= dir);
    assert(path.skip(path.len() - child.len()) =~= child);
}

/// Plain characters are the letters and digits of ASCII, the hyphen and the underscore.
pub proof fn plain_characters_are_ascii(c: char)
    ensures
        plain_char(c) <==> {
            let u = c as u32;
            ||| 48 <= u <= 57
            ||| 65 <= u <= 90
            ||| 97 <= u <= 122
            ||| u == 45
            ||| u == 95
        },
{
}

} // verus!
