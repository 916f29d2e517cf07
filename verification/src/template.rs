use vstd::prelude::*;
use crate::error::DrtError;
use crate::vars::Vars;
use vstd::string::StringSliceAdditionalSpecFns;
use vstd::utf8::encode_utf8;
use crate::text::{split_lines, text_lines, views};
use std::ops::Range;

verus! {

/// Characters allowed in a variable name inside `@@name@@`.
pub open spec fn is_key_char(c: char) -> bool {
    ||| ('A' <= c && c <= 'Z')
    ||| ('a' <= c && c <= 'z')
    ||| ('0' <= c && c <= '9')
    ||| c == '_'
    ||| c == '.'
    ||| c == '-'
}

/// `s[i..j+2]` is a placeholder `@@name@@` whose name is `s[i+2..j]`.
pub open spec fn placeholder_at(s: Seq<char>, i: int, j: int) -> bool {
    &&& 0 <= i
    &&& i + 2 <= j
    &&& j + 2 <= s.len()
    &&& s[i] == '@'
    &&& s[i + 1] == '@'
    &&& s[j] == '@'
    &&& s[j + 1] == '@'
    &&& forall|k: int| i + 2 <= k < j ==> #[trigger] is_key_char(s[k])
}

/// `s` holds a placeholder somewhere.
pub open spec fn has_placeholder(s: Seq<char>) -> bool {
    exists|i: int, j: int| placeholder_at(s, i, j)
}

/// `s[i..j+2]` is the placeholder that starts first in `s`.
pub open spec fn is_first_placeholder(s: Seq<char>, i: int, j: int) -> bool {
    &&& placeholder_at(s, i, j)
    &&& forall|i2: int, j2: int| i2 < i ==> !placeholder_at(s, i2, j2)
}

/// The two characters that open and close a placeholder.
pub open spec fn marker() -> Seq<char> {
    seq!['@', '@']
}

/// A placeholder that starts at `i` ends at one place only.
pub proof fn lemma_placeholder_end_unique(s: Seq<char>, i: int, j1: int, j2: int)
    requires
        placeholder_at(s, i, j1),
        placeholder_at(s, i, j2),
    ensures
        j1 == j2,
{
    if j1 < j2 {
        assert(is_key_char(s[j1]));
    } else if j2 < j1 {
        assert(is_key_char(s[j2]));
    }
}

/// Finds the first placeholder of `line` with the pattern
/// `@@(?P<k>[A-Za-z0-9_\.-]*)@@` of the `regex` crate, and returns the text
/// before it, its name, and the text after it.
///
/// Trusted: `regex::Regex::new` on this fixed pattern and `Regex::captures`,
/// whose documentation says that it returns the first (leftmost) match, or
/// `None` when nothing matches. The contract states that match in terms of
/// `placeholder_at`; the character class has no `@`, so a match that starts
/// at a given place ends at one place only.
#[verifier::external_body]
fn regex_first_placeholder(line: &str) -> (res: Option<(String, String, String)>)
    ensures
        res is None <==> !has_placeholder(line@),
        res matches Some(parts) ==> {
            &&& line@ == parts.0@ + marker() + parts.1@ + marker() + parts.2@
            &&& is_first_placeholder(line@, parts.0@.len() as int, (parts.0@.len() + 2 + parts.1@.len()) as int)
        },
{
    let re = regex::Regex::new(r"@@(?P<k>[A-Za-z0-9_\.-]*)@@").unwrap();
    match re.captures(line) {
        Some(cap) => {
            let all = cap.get(0).unwrap();
            let k = cap.name("k").unwrap();
            Some((line[..all.start()].to_string(), k.as_str().to_string(), line[all.end()..].to_string()))
        },
        None => None,
    }
}

/// The UTF-8 encoding of a text is the encoding of its first part followed
/// by the encoding of the rest.
pub proof fn lemma_encode_utf8_concat(a: Seq<char>, b: Seq<char>)
    ensures
        encode_utf8(a + b) == encode_utf8(a) + encode_utf8(b),
    decreases a.len(),
{
    if a.len() > 0 {
        assert((a + b)[0] == a[0]);
        assert((a + b).drop_first() =~= a.drop_first() + b);
        lemma_encode_utf8_concat(a.drop_first(), b);
        assert(encode_utf8(a + b) =~= encode_utf8(a) + encode_utf8(b));
    } else {
        assert(a + b =~= b);
        assert(encode_utf8(a) =~= Seq::<u8>::empty());
        assert(encode_utf8(a) + encode_utf8(b) =~= encode_utf8(b));
    }
}

/// The name of the first placeholder of `line` and the range of byte
/// offsets that the whole placeholder covers in `line`, or `None` if `line`
/// holds none.
pub fn match_line(line: &str) -> (res: Option<(String, Range<usize>)>)
    ensures
        res is None <==> !has_placeholder(line@),
        res matches Some(m) ==> {
            let (i, j) = first_placeholder(line@);
            &&& is_first_placeholder(line@, i, j)
            &&& m.0@ == line@.subrange(i + 2, j)
            &&& m.1.start == encode_utf8(line@.subrange(0, i)).len()
            &&& m.1.end == encode_utf8(line@.subrange(0, j + 2)).len()
            &&& line.spec_bytes().subrange(m.1.start as int, m.1.end as int)
                == encode_utf8(marker() + m.0@ + marker())
        },
{
    match regex_first_placeholder(line) {
        Some((before, key, after)) => {
            let total = line.as_bytes().len();
            let start = before.as_str().as_bytes().len();
            let tail = after.as_str().as_bytes().len();
            let ghost b = before@;
            let ghost p = marker() + key@ + marker();
            let ghost i = b.len() as int;
            let ghost j = i + 2 + key@.len();
            proof {
                let s = line@;
                assert(s =~= b + p + after@);
                lemma_encode_utf8_concat(b + p, after@);
                lemma_encode_utf8_concat(b, p);
                assert(s.subrange(0, i) =~= b);
                assert(s.subrange(0, j + 2) =~= b + p);
                assert(s.subrange(i + 2, j) =~= key@);
                lemma_first_placeholder_exists(s);
                let fp = first_placeholder(s);
                lemma_first_placeholder_unique(s, fp.0, fp.1, i, j);
                assert(line.spec_bytes().subrange(start as int, total - tail) =~= encode_utf8(p));
            }
            let end = total - tail;
            Some((key, Range { start: start, end: end }))
        },
        None => None,
    }
}

/// Every line that holds a placeholder has a first one.
pub proof fn lemma_first_placeholder_exists(s: Seq<char>)
    requires
        has_placeholder(s),
    ensures
        exists|i: int, j: int| is_first_placeholder(s, i, j),
{
    let (i0, j0) = choose|i: int, j: int| placeholder_at(s, i, j);
    lemma_first_placeholder_below(s, i0, j0, 0);
}

proof fn lemma_first_placeholder_below(s: Seq<char>, i0: int, j0: int, n: int)
    requires
        placeholder_at(s, i0, j0),
        0 <= n <= i0,
        forall|i2: int, j2: int| i2 < n ==> !placeholder_at(s, i2, j2),
    ensures
        exists|i: int, j: int| is_first_placeholder(s, i, j),
    decreases i0 - n,
{
    if n == i0 {
        assert(is_first_placeholder(s, i0, j0));
    } else if exists|j: int| placeholder_at(s, n, j) {
        let j = choose|j: int| placeholder_at(s, n, j);
        assert(is_first_placeholder(s, n, j));
    } else {
        assert forall|i2: int, j2: int| i2 < n + 1 implies !placeholder_at(s, i2, j2) by {
            if i2 == n {
                assert(!placeholder_at(s, n, j2));
            }
        }
        lemma_first_placeholder_below(s, i0, j0, n + 1);
    }
}

/// A line has only one first placeholder.
pub proof fn lemma_first_placeholder_unique(s: Seq<char>, i1: int, j1: int, i2: int, j2: int)
    requires
        is_first_placeholder(s, i1, j1),
        is_first_placeholder(s, i2, j2),
    ensures
        i1 == i2,
        j1 == j2,
{
    if i1 < i2 {
        assert(!placeholder_at(s, i1, j1));
    } else if i2 < i1 {
        assert(!placeholder_at(s, i2, j2));
    }
    lemma_placeholder_end_unique(s, i1, j1, j2);
}

/// A line of a template, after its first placeholder was filled in, or
/// unchanged when it holds none.
pub enum ChangeString {
    Changed(String),
    Unchanged,
}

/// What a line becomes when the placeholder `s[i..j+2]` is replaced by its
/// value: the text before it, the value, the text after it, and a newline.
pub open spec fn filled_line(vars: Map<Seq<char>, Seq<char>>, s: Seq<char>, i: int, j: int) -> Seq<char> {
    s.subrange(0, i) + vars[s.subrange(i + 2, j)] + s.subrange(j + 2, s.len() as int) + seq!['\n']
}

/// Replaces the first placeholder `@@name@@` of `line` by the value bound to
/// `name`. A line without placeholder is left unchanged; a placeholder whose
/// name is not bound is an error that carries the name.
pub fn replace_line(vars: &Vars, line: String) -> (r: Result<ChangeString, DrtError>)
    requires
        vars.wf(),
    ensures
        !has_placeholder(line@) ==> r matches Ok(ChangeString::Unchanged),
        forall|i: int, j: int| #[trigger] is_first_placeholder(line@, i, j) ==> {
            let key = line@.subrange(i + 2, j);
            if vars@.contains_key(key) {
                r matches Ok(ChangeString::Changed(t)) && t@ == filled_line(vars@, line@, i, j)
            } else {
                r matches Err(DrtError::VarNotFound(k)) && k@ == key
            }
        },
{
    match regex_first_placeholder(line.as_str()) {
        Some((before, key, after)) => {
            let ghost i = before@.len() as int;
            let ghost j = i + 2 + key@.len();
            proof {
                assert(line@.subrange(0, i) =~= before@);
                assert(line@.subrange(i + 2, j) =~= key@);
                assert(line@.subrange(j + 2, line@.len() as int) =~= after@);
                assert forall|i2: int, j2: int| #[trigger] is_first_placeholder(line@, i2, j2) implies
                    i2 == i && j2 == j by {
                    lemma_first_placeholder_unique(line@, i2, j2, i, j);
                }
            }
            match vars.get(key.as_str()) {
                Some(value) => {
                    let mut new_line = String::new();
                    new_line.append(before.as_str());
                    new_line.append(value.as_str());
                    new_line.append(after.as_str());
                    new_line.append("\n");
                    proof {
                        reveal_strlit("\n");
                        assert(new_line@ =~= filled_line(vars@, line@, i, j));
                    }
                    Ok(ChangeString::Changed(new_line))
                },
                None => Err(DrtError::VarNotFound(key)),
            }
        },
        None => Ok(ChangeString::Unchanged),
    }
}


/// The first placeholder of a line that holds one, as its start and the
/// start of its closing marker.
pub open spec fn first_placeholder(s: Seq<char>) -> (int, int) {
    choose|i: int, j: int| is_first_placeholder(s, i, j)
}

/// A template line after expansion, before the newline that ends it in the
/// output; or the name of the unbound variable that stops the expansion.
pub open spec fn expand_line(vars: Map<Seq<char>, Seq<char>>, s: Seq<char>) -> Result<Seq<char>, Seq<char>> {
    if !has_placeholder(s) {
        Ok(s)
    } else {
        let (i, j) = first_placeholder(s);
        let key = s.subrange(i + 2, j);
        if vars.contains_key(key) {
            Ok(filled_line(vars, s, i, j))
        } else {
            Err(key)
        }
    }
}

/// The text generated from the lines of a template: each expanded line
/// followed by a newline; the first unbound variable stops it.
pub open spec fn render_lines(vars: Map<Seq<char>, Seq<char>>, lines: Seq<Seq<char>>) -> Result<Seq<char>, Seq<char>>
    decreases lines.len(),
{
    if lines.len() == 0 {
        Ok(Seq::empty())
    } else {
        match render_lines(vars, lines.drop_last()) {
            Err(k) => Err(k),
            Ok(t) => match expand_line(vars, lines.last()) {
                Ok(x) => Ok(t + x + seq!['\n']),
                Err(k) => Err(k),
            },
        }
    }
}

/// The text generated from `template`: every line with its first
/// placeholder replaced, each followed by a newline, or the first name
/// that is not bound.
pub fn render_template(vars: &Vars, template: &str) -> (r: Result<String, DrtError>)
    requires
        vars.wf(),
    ensures
        match render_lines(vars@, text_lines(template@)) {
            Ok(t) => r matches Ok(out) && out@ == t,
            Err(k) => r matches Err(DrtError::VarNotFound(name)) && name@ == k,
        },
{
    let lines = split_lines(template);
    let ghost ls = text_lines(template@);
    let mut out = String::new();
    let mut i: usize = 0;
    proof {
        reveal_strlit("\n");
        assert(ls.take(0) =~= Seq::<Seq<char>>::empty());
    }
    while i < lines.len()
        invariant
            vars.wf(),
            ls == text_lines(template@),
            views(lines@) == ls,
            i <= lines@.len(),
            render_lines(vars@, ls.take(i as int)) == Ok::<Seq<char>, Seq<char>>(out@),
        decreases lines@.len() - i,
    {
        let line = lines[i].clone();
        let ghost l = line@;
        assert(ls[i as int] == l);
        assert(ls.take(i + 1).drop_last() =~= ls.take(i as int));
        assert(ls.take(i + 1).last() == l);
        proof {
            if has_placeholder(l) {
                lemma_first_placeholder_exists(l);
                let fp = first_placeholder(l);
                assert(is_first_placeholder(l, fp.0, fp.1));
            }
        }
        let ghost prev = out@;
        let r = replace_line(vars, line);
        match r {
            Ok(ChangeString::Changed(new_line)) => {
                proof {
                    if !has_placeholder(l) {
                        assert(false);
                    }
                    assert(expand_line(vars@, l) == Ok::<Seq<char>, Seq<char>>(new_line@));
                }
                out.append(new_line.as_str());
                out.append("\n");
                proof {
                    reveal_strlit("\n");
                    assert(out@ =~= prev + new_line@ + seq!['\n']);
                }
            },
            Ok(ChangeString::Unchanged) => {
                proof {
                    if has_placeholder(l) {
                        let fp = first_placeholder(l);
                        assert(is_first_placeholder(l, fp.0, fp.1));
                        assert(false);
                    }
                    assert(expand_line(vars@, l) == Ok::<Seq<char>, Seq<char>>(l));
                }
                out.append(lines[i].as_str());
                out.append("\n");
                proof {
                    reveal_strlit("\n");
                    assert(out@ =~= prev + l + seq!['\n']);
                }
            },
            Err(e) => {
                let ghost key = l.subrange(first_placeholder(l).0 + 2, first_placeholder(l).1);
                proof {
                    if !has_placeholder(l) {
                        assert(false);
                    }
                    let fp = first_placeholder(l);
                    assert(is_first_placeholder(l, fp.0, fp.1));
                    assert(!vars@.contains_key(key));
                    assert(e matches DrtError::VarNotFound(k) && k@ == key);
                    assert(expand_line(vars@, l) == Err::<Seq<char>, Seq<char>>(key));
                    lemma_render_stops(vars@, ls, i as int);
                }
                return Err(e);
            },
        }
        i = i + 1;
    }
    proof {
        assert(ls.take(lines@.len() as int) =~= ls);
    }
    Ok(out)
}

/// Once a line fails, every longer prefix fails with the same name.
proof fn lemma_render_stops(vars: Map<Seq<char>, Seq<char>>, ls: Seq<Seq<char>>, i: int)
    requires
        0 <= i < ls.len(),
        render_lines(vars, ls.take(i)) is Ok,
        expand_line(vars, ls[i]) is Err,
    ensures
        render_lines(vars, ls) == Err::<Seq<char>, Seq<char>>(expand_line(vars, ls[i])->Err_0),
{
    let k = expand_line(vars, ls[i])->Err_0;
    assert(ls.take(i + 1).drop_last() =~= ls.take(i));
    assert(render_lines(vars, ls.take(i + 1)) == Err::<Seq<char>, Seq<char>>(k));
    lemma_render_err_extends(vars, ls, i + 1, k);
}

proof fn lemma_render_err_extends(vars: Map<Seq<char>, Seq<char>>, ls: Seq<Seq<char>>, n: int, k: Seq<char>)
    requires
        0 <= n <= ls.len(),
        render_lines(vars, ls.take(n)) == Err::<Seq<char>, Seq<char>>(k),
    ensures
        render_lines(vars, ls) == Err::<Seq<char>, Seq<char>>(k),
    decreases ls.len() - n,
{
    if n == ls.len() {
        assert(ls.take(n) =~= ls);
    } else {
        assert(ls.take(n + 1).drop_last() =~= ls.take(n));
        lemma_render_err_extends(vars, ls, n + 1, k);
    }
}


/// Each line followed by a newline, all in a row.
pub open spec fn terminated_lines(lines: Seq<Seq<char>>) -> Seq<char>
    decreases lines.len(),
{
    if lines.len() == 0 {
        Seq::empty()
    } else {
        terminated_lines(lines.drop_last()) + lines.last() + seq!['\n']
    }
}

/// A template without placeholders generates its own lines, each ended by a
/// newline, whatever the variables.
pub proof fn law_render_without_placeholders(vars: Map<Seq<char>, Seq<char>>, lines: Seq<Seq<char>>)
    requires
        forall|i: int| 0 <= i < lines.len() ==> !has_placeholder(#[trigger] lines[i]),
    ensures
        render_lines(vars, lines) == Ok::<Seq<char>, Seq<char>>(terminated_lines(lines)),
    decreases lines.len(),
{
    if lines.len() > 0 {
        assert forall|i: int| 0 <= i < lines.drop_last().len() implies !has_placeholder(#[trigger] lines.drop_last()[i]) by {
            assert(lines.drop_last()[i] == lines[i]);
        }
        law_render_without_placeholders(vars, lines.drop_last());
        assert(!has_placeholder(lines[lines.len() - 1]));
    }
}

/// In a line whose text before `@@key@@` holds no `@`, the placeholder is
/// the first one, and a bound `key` is replaced by its value.
pub proof fn law_bound_placeholder_is_replaced(
    vars: Map<Seq<char>, Seq<char>>,
    before: Seq<char>,
    key: Seq<char>,
    after: Seq<char>,
)
    requires
        forall|k: int| 0 <= k < before.len() ==> before[k] != '@',
        forall|k: int| 0 <= k < key.len() ==> is_key_char(#[trigger] key[k]),
        vars.contains_key(key),
    ensures
        expand_line(vars, before + marker() + key + marker() + after)
            == Ok::<Seq<char>, Seq<char>>(before + vars[key] + after + seq!['\n']),
{
    let s = before + marker() + key + marker() + after;
    let i = before.len() as int;
    let j = i + 2 + key.len();
    assert(s.subrange(i + 2, j) =~= key);
    assert forall|k: int| i + 2 <= k < j implies #[trigger] is_key_char(s[k]) by {
        assert(s[k] == key[k - i - 2]);
    }
    assert(placeholder_at(s, i, j));
    assert forall|i2: int, j2: int| i2 < i implies !placeholder_at(s, i2, j2) by {
        if 0 <= i2 {
            assert(s[i2] == before[i2]);
        }
    }
    assert(is_first_placeholder(s, i, j));
    lemma_first_placeholder_exists(s);
    let fp = first_placeholder(s);
    lemma_first_placeholder_unique(s, fp.0, fp.1, i, j);
    assert(s.subrange(0, i) =~= before);
    assert(s.subrange(j + 2, s.len() as int) =~= after);
    assert(filled_line(vars, s, i, j) =~= before + vars[key] + after + seq!['\n']);
}

} // verus!
