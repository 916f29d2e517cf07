use vstd::prelude::*;
use crate::text::chars_of;

verus! {

/// The characters with the Unicode property `White_Space`.
pub open spec fn is_white_space(c: char) -> bool {
    ||| ('\u{9}' <= c && c <= '\u{d}')
    ||| c == ' '
    ||| c == '\u{85}'
    ||| c == '\u{a0}'
    ||| c == '\u{1680}'
    ||| ('\u{2000}' <= c && c <= '\u{200a}')
    ||| c == '\u{2028}'
    ||| c == '\u{2029}'
    ||| c == '\u{202f}'
    ||| c == '\u{205f}'
    ||| c == '\u{3000}'
}

/// The text without its leading white space.
pub open spec fn trim_front(s: Seq<char>) -> Seq<char>
    decreases s.len(),
{
    if s.len() > 0 && is_white_space(s[0]) {
        trim_front(s.drop_first())
    } else {
        s
    }
}

/// The text without its trailing white space.
pub open spec fn trim_back(s: Seq<char>) -> Seq<char>
    decreases s.len(),
{
    if s.len() > 0 && is_white_space(s.last()) {
        trim_back(s.drop_last())
    } else {
        s
    }
}

/// The text without white space at either end.
pub open spec fn trimmed(s: Seq<char>) -> Seq<char> {
    trim_back(trim_front(s))
}

/// Whether `c` is white space.
pub fn white_space(c: char) -> (b: bool)
    ensures
        b == is_white_space(c),
{
    ('\u{9}' <= c && c <= '\u{d}') || c == ' ' || c == '\u{85}' || c == '\u{a0}' || c == '\u{1680}'
        || ('\u{2000}' <= c && c <= '\u{200a}') || c == '\u{2028}' || c == '\u{2029}' || c == '\u{202f}'
        || c == '\u{205f}' || c == '\u{3000}'
}

/// The text without white space at either end, as `str::trim` gives it.
pub fn trim(s: &str) -> (r: String)
    ensures
        r@ == trimmed(s@),
{
    let v = chars_of(s);
    let n = v.len();
    let mut i: usize = 0;
    proof {
        assert(s@.subrange(0, n as int) =~= s@);
    }
    while i < n && white_space(v[i])
        invariant
            v@ == s@,
            n == v@.len(),
            i <= n,
            trim_front(s@) == trim_front(s@.subrange(i as int, n as int)),
        decreases n - i,
    {
        proof {
            let t = s@.subrange(i as int, n as int);
            assert(t.drop_first() =~= s@.subrange(i + 1, n as int));
        }
        i = i + 1;
    }
    let ghost front = s@.subrange(i as int, n as int);
    assert(trim_front(front) == front);
    let mut j: usize = n;
    proof {
        assert(front =~= s@.subrange(i as int, j as int));
    }
    while j > i && white_space(v[j - 1])
        invariant
            v@ == s@,
            n == v@.len(),
            i <= j <= n,
            front == s@.subrange(i as int, n as int),
            trim_back(front) == trim_back(s@.subrange(i as int, j as int)),
        decreases j - i,
    {
        proof {
            let t = s@.subrange(i as int, j as int);
            assert(t.drop_last() =~= s@.subrange(i as int, j - 1));
        }
        j = j - 1;
    }
    let ghost back = s@.subrange(i as int, j as int);
    assert(trim_back(back) == back);
    s.substring_char(i, j).to_owned()
}

/// The answer that a line typed by the user gives: its first character
/// after leading white space, or nothing when the line is empty or blank.
pub fn answer_of(line: &str) -> (a: Option<char>)
    ensures
        line@.len() == 0 ==> a is None,
        line@.len() > 0 ==> a == if trimmed(line@).len() > 0 {
            Some(trimmed(line@)[0])
        } else {
            None::<char>
        },
{
    if line.is_empty() {
        return None;
    }
    let t = trim(line);
    if t.as_str().is_empty() {
        None
    } else {
        Some(t.as_str().get_char(0))
    }
}

/// A visible ASCII character: a letter, a digit or a punctuation mark.
pub open spec fn visible_ascii(c: char) -> bool {
    '!' <= c && c <= '~'
}

/// White space is blank and nothing else: the space, the tab and the line
/// ends are white space, while no visible ASCII character is, nor any
/// character past the ideographic space.
pub proof fn law_white_space_is_blank(c: char)
    ensures
        c == ' ' || c == '\t' || c == '\n' || c == '\r' ==> is_white_space(c),
        visible_ascii(c) ==> !is_white_space(c),
        c > '\u{3000}' ==> !is_white_space(c),
{
}

/// Trimming keeps a text whose ends are visible as it is, and takes blanks
/// off the ends of such a text.
pub proof fn law_trim_keeps_visible_text(pre: Seq<char>, s: Seq<char>, post: Seq<char>)
    requires
        s.len() > 0,
        visible_ascii(s[0]),
        visible_ascii(s.last()),
        forall|i: int| 0 <= i < pre.len() ==> (#[trigger] pre[i] == ' ' || pre[i] == '\t' || pre[i] == '\n' || pre[i] == '\r'),
        forall|i: int| 0 <= i < post.len() ==> (#[trigger] post[i] == ' ' || post[i] == '\t' || post[i] == '\n' || post[i] == '\r'),
    ensures
        trimmed(pre + s + post) == s,
        trimmed(s) == s,
    decreases pre.len() + post.len(),
{
    if pre.len() > 0 {
        let t = pre + s + post;
        assert(t[0] == pre[0]);
        assert(t.drop_first() =~= pre.drop_first() + s + post);
        law_trim_keeps_visible_text(pre.drop_first(), s, post);
    } else if post.len() > 0 {
        lemma_trim_front_visible(s + post);
        let t = s + post;
        assert(pre + s + post =~= t);
        assert(t.last() == post.last());
        assert(t.drop_last() =~= s + post.drop_last());
        law_trim_keeps_visible_text(pre, s, post.drop_last());
        lemma_trim_front_visible(s + post.drop_last());
    } else {
        assert(pre + s + post =~= s);
        lemma_trim_front_visible(s);
    }
}

/// A text that starts with a visible character has no leading white space.
proof fn lemma_trim_front_visible(s: Seq<char>)
    requires
        s.len() > 0,
        visible_ascii(s[0]),
    ensures
        trim_front(s) == s,
{
}

/// The answer to a question is the first visible character typed, however
/// many blanks stand before and after it.
pub proof fn law_answer_is_first_visible_character(pre: Seq<char>, c: char, rest: Seq<char>)
    requires
        visible_ascii(c),
        forall|i: int| 0 <= i < pre.len() ==> (#[trigger] pre[i] == ' ' || pre[i] == '\t' || pre[i] == '\n' || pre[i] == '\r'),
    ensures
        trimmed(pre + seq![c] + rest).len() > 0,
        trimmed(pre + seq![c] + rest)[0] == c,
    decreases pre.len(),
{
    let t = pre + seq![c] + rest;
    if pre.len() > 0 {
        assert(t[0] == pre[0]);
        assert(t.drop_first() =~= pre.drop_first() + seq![c] + rest);
        law_answer_is_first_visible_character(pre.drop_first(), c, rest);
    } else {
        assert(t =~= seq![c] + rest);
        assert(t[0] == c);
        assert(trim_front(t) == t);
        lemma_trim_back_keeps_first(t);
    }
}

/// Trimming the back of a text that starts with a visible character keeps
/// that character first.
proof fn lemma_trim_back_keeps_first(t: Seq<char>)
    requires
        t.len() > 0,
        visible_ascii(t[0]),
    ensures
        trim_back(t).len() > 0,
        trim_back(t)[0] == t[0],
    decreases t.len(),
{
    if t.len() > 1 && is_white_space(t.last()) {
        assert(t.drop_last()[0] == t[0]);
        lemma_trim_back_keeps_first(t.drop_last());
    }
}

} // verus!
