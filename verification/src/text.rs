use vstd::prelude::*;

verus! {

broadcast use vstd::string::group_string_axioms;

/// The characters of `s`, one by one.
pub fn chars_of(s: &str) -> (v: Vec<char>)
    ensures
        v@ == s@,
{
    let mut v: Vec<char> = Vec::new();
    for c in it: s.chars()
        invariant
            it.seq() == s@,
            v@ == it.seq().take(it.index() as int),
    {
        v.push(c);
    }
    v
}

/// Position of the first `c` in `s`, or the length of `s` when it holds none.
pub open spec fn find_char(s: Seq<char>, c: char) -> int
    decreases s.len(),
{
    if s.len() == 0 {
        0
    } else if s[0] == c {
        0
    } else {
        1 + find_char(s.drop_first(), c)
    }
}

/// A line without the carriage return that ended it, if any.
pub open spec fn strip_cr(l: Seq<char>) -> Seq<char> {
    if l.len() > 0 && l.last() == '\r' {
        l.drop_last()
    } else {
        l
    }
}

/// The lines of a text, as a buffered reader yields them: split at each
/// newline, without the newline and a carriage return before it; a text
/// that ends with a newline has no empty last line.
pub open spec fn text_lines(s: Seq<char>) -> Seq<Seq<char>>
    decreases s.len(),
{
    if s.len() == 0 {
        seq![]
    } else {
        let k = find_char(s, '\n');
        if 0 <= k < s.len() {
            seq![strip_cr(s.subrange(0, k))] + text_lines(s.subrange(k + 1, s.len() as int))
        } else {
            seq![s]
        }
    }
}

/// Lines written back one after another, each followed by a newline.
pub open spec fn lines_text(ls: Seq<Seq<char>>) -> Seq<char>
    decreases ls.len(),
{
    if ls.len() == 0 {
        Seq::empty()
    } else {
        ls[0] + seq!['\n'] + lines_text(ls.drop_first())
    }
}

/// No carriage return stands right before a newline in `s`.
pub open spec fn no_cr_before_newline(s: Seq<char>) -> bool {
    forall|i: int| 0 < i < s.len() && #[trigger] s[i] == '\n' ==> s[i - 1] != '\r'
}

/// Reading a text line by line loses nothing but the line ends: each line
/// holds no newline, and the lines, each written back with a newline, give
/// the text again, with a newline added at the end where it had none.
/// (A carriage return before a newline is the one thing a line drops, so
/// the law speaks of texts without one.)
pub proof fn law_lines_give_back_the_text(s: Seq<char>)
    requires
        no_cr_before_newline(s),
    ensures
        lines_text(text_lines(s)) == if s.len() == 0 || s.last() == '\n' {
            s
        } else {
            s + seq!['\n']
        },
        forall|i: int| 0 <= i < text_lines(s).len() ==> !(#[trigger] text_lines(s)[i]).contains('\n'),
    decreases s.len(),
{
    if s.len() > 0 {
        lemma_find_char_holds(s, '\n');
        let k = find_char(s, '\n');
        if k < s.len() {
            let head = s.subrange(0, k);
            let r = s.subrange(k + 1, s.len() as int);
            if k > 0 {
                assert(s[k] == '\n');
                assert(head.last() == s[k - 1]);
            }
            assert(strip_cr(head) == head);
            assert forall|i: int| 0 < i < r.len() && #[trigger] r[i] == '\n' implies r[i - 1] != '\r' by {
                assert(s[k + 1 + i] == r[i]);
                assert(s[k + i] == r[i - 1]);
            }
            law_lines_give_back_the_text(r);
            let ls = text_lines(s);
            assert(ls == seq![head] + text_lines(r));
            assert(ls.drop_first() =~= text_lines(r));
            assert(!head.contains('\n')) by {
                if head.contains('\n') {
                    let m = choose|m: int| 0 <= m < head.len() && head[m] == '\n';
                    assert(s[m] == '\n');
                }
            }
            assert forall|i: int| 0 <= i < ls.len() implies !(#[trigger] ls[i]).contains('\n') by {
                if i > 0 {
                    assert(ls[i] == text_lines(r)[i - 1]);
                }
            }
            if r.len() == 0 {
                assert(s =~= head + seq!['\n']);
                assert(lines_text(ls) =~= head + seq!['\n']);
            } else {
                assert(s.last() == r.last());
                assert(s =~= head + seq!['\n'] + r);
                if r.last() == '\n' {
                    assert(lines_text(ls) =~= head + seq!['\n'] + r);
                } else {
                    assert(lines_text(ls) =~= head + seq!['\n'] + (r + seq!['\n']));
                }
            }
        } else {
            let ls = text_lines(s);
            assert(ls == seq![s]);
            assert(ls.drop_first() =~= Seq::<Seq<char>>::empty());
            assert(s[s.len() - 1] != '\n');
            assert(lines_text(ls.drop_first()) == Seq::<char>::empty());
            assert(ls[0] == s);
            assert(lines_text(ls) =~= s + seq!['\n']);
        }
    }
}

/// The characters of each string.
pub open spec fn views(v: Seq<String>) -> Seq<Seq<char>> {
    v.map_values(|l: String| l@)
}

/// `find_char` is the first position that holds `c`.
pub proof fn lemma_find_char(s: Seq<char>, c: char, k: int)
    requires
        0 <= k <= s.len(),
        forall|m: int| 0 <= m < k ==> s[m] != c,
        k < s.len() ==> s[k] == c,
    ensures
        find_char(s, c) == k,
    decreases s.len(),
{
    if s.len() > 0 && k > 0 {
        assert forall|m: int| 0 <= m < k - 1 implies s.drop_first()[m] != c by {
            assert(s.drop_first()[m] == s[m + 1]);
        }
        lemma_find_char(s.drop_first(), c, k - 1);
    }
}

/// Where `c` first occurs in `v` at or after `start`, or the length of `v`.
fn scan_for(v: &Vec<char>, c: char, start: usize) -> (k: usize)
    requires
        start <= v@.len(),
    ensures
        start <= k <= v@.len(),
        find_char(v@.subrange(start as int, v@.len() as int), c) == k - start,
{
    let mut k = start;
    while k < v.len() && v[k] != c
        invariant
            start <= k <= v@.len(),
            forall|m: int| start <= m < k ==> v@[m] != c,
        decreases v@.len() - k,
    {
        k = k + 1;
    }
    proof {
        let rest = v@.subrange(start as int, v@.len() as int);
        assert forall|m: int| 0 <= m < k - start implies rest[m] != c by {
            assert(rest[m] == v@[start + m]);
        }
        lemma_find_char(rest, c, k - start);
    }
    k
}

/// Whether `s` holds `c`, and where it first does.
pub fn find_first(s: &str, c: char) -> (r: Option<usize>)
    ensures
        s@.len() <= usize::MAX,
        r is None <==> !s@.contains(c),
        r matches Some(k) ==> k < s@.len() && s@[k as int] == c && find_char(s@, c) == k,
{
    let v = chars_of(s);
    let k = scan_for(&v, c, 0);
    proof {
        assert(v@.subrange(0, v@.len() as int) =~= s@);
    }
    if k < v.len() {
        proof {
            lemma_find_char_holds(s@, c);
        }
        Some(k)
    } else {
        proof {
            lemma_find_char_holds(s@, c);
        }
        None
    }
}

/// `find_char` points at a `c` when there is one, and no `c` comes before.
pub proof fn lemma_find_char_holds(s: Seq<char>, c: char)
    ensures
        0 <= find_char(s, c) <= s.len(),
        find_char(s, c) < s.len() ==> s[find_char(s, c)] == c,
        forall|m: int| 0 <= m < find_char(s, c) ==> s[m] != c,
        s.contains(c) <==> find_char(s, c) < s.len(),
    decreases s.len(),
{
    if s.len() > 0 && s[0] != c {
        lemma_find_char_holds(s.drop_first(), c);
        assert forall|m: int| 0 <= m < find_char(s, c) implies s[m] != c by {
            if m > 0 {
                assert(s[m] == s.drop_first()[m - 1]);
            }
        }
        if s.contains(c) {
            let i = choose|i: int| 0 <= i < s.len() && s[i] == c;
            assert(s.drop_first()[i - 1] == c);
        }
        if find_char(s, c) < s.len() {
            assert(s.drop_first()[find_char(s, c) - 1] == c);
        }
    } else if s.len() > 0 {
        assert(s[0] == c);
    }
}

/// The lines of `text`.
pub fn split_lines(text: &str) -> (lines: Vec<String>)
    ensures
        views(lines@) == text_lines(text@),
        no_cr_before_newline(text@) ==> lines_text(views(lines@)) == if text@.len() == 0
            || text@.last() == '\n' {
            text@
        } else {
            text@ + seq!['\n']
        },
{
    let v = chars_of(text);
    let n = v.len();
    let mut lines: Vec<String> = Vec::new();
    let mut pos: usize = 0;
    proof {
        assert(text@.subrange(0, n as int) =~= text@);
        assert(views(lines@) =~= Seq::<Seq<char>>::empty());
    }
    while pos < n
        invariant
            v@ == text@,
            n == v@.len(),
            pos <= n,
            text_lines(text@) == views(lines@) + text_lines(text@.subrange(pos as int, n as int)),
        decreases n - pos,
    {
        let ghost rest = text@.subrange(pos as int, n as int);
        let k = scan_for(&v, '\n', pos);
        if k < n {
            let end = if k > pos && v[k - 1] == '\r' { k - 1 } else { k };
            let line = text.substring_char(pos, end);
            proof {
                assert(line@ =~= strip_cr(rest.subrange(0, k - pos)));
                assert(rest.subrange(k - pos + 1, rest.len() as int) =~= text@.subrange(k + 1, n as int));
            }
            let ghost before = lines@;
            lines.push(line.to_owned());
            proof {
                assert(views(lines@) =~= views(before) + seq![line@]);
            }
            pos = k + 1;
        } else {
            let line = text.substring_char(pos, n);
            let ghost before = lines@;
            lines.push(line.to_owned());
            proof {
                assert(views(lines@) =~= views(before) + seq![line@]);
                assert(line@ =~= rest);
                assert(text@.subrange(n as int, n as int) =~= Seq::<char>::empty());
            }
            pos = n;
        }
    }
    proof {
        assert(text@.subrange(n as int, n as int) =~= Seq::<char>::empty());
        if no_cr_before_newline(text@) {
            law_lines_give_back_the_text(text@);
        }
    }
    lines
}


/// The pieces of `s` between the occurrences of `c`, as `str::split` with a
/// character gives them: there is one piece more than there are `c`s.
pub open spec fn split_on(s: Seq<char>, c: char) -> Seq<Seq<char>>
    decreases s.len(),
{
    let k = find_char(s, c);
    if 0 <= k < s.len() {
        seq![s.subrange(0, k)] + split_on(s.subrange(k + 1, s.len() as int), c)
    } else {
        seq![s]
    }
}

/// The pieces of `s` between the occurrences of `c`.
pub fn split_char(s: &str, c: char) -> (parts: Vec<String>)
    ensures
        views(parts@) == split_on(s@, c),
        parts@.len() >= 1,
{
    let v = chars_of(s);
    let n = v.len();
    let mut parts: Vec<String> = Vec::new();
    let mut pos: usize = 0;
    proof {
        assert(s@.subrange(0, n as int) =~= s@);
        assert(views(parts@) =~= Seq::<Seq<char>>::empty());
    }
    loop
        invariant
            v@ == s@,
            n == v@.len(),
            pos <= n,
            split_on(s@, c) == views(parts@) + split_on(s@.subrange(pos as int, n as int), c),
        decreases n - pos,
    {
        let ghost rest = s@.subrange(pos as int, n as int);
        let k = scan_for(&v, c, pos);
        let piece = s.substring_char(pos, k);
        let ghost before = parts@;
        parts.push(piece.to_owned());
        proof {
            assert(views(parts@) =~= views(before) + seq![piece@]);
            assert(piece@ =~= rest.subrange(0, k - pos));
        }
        if k < n {
            proof {
                assert(rest.subrange(k - pos + 1, rest.len() as int) =~= s@.subrange(k + 1, n as int));
            }
            pos = k + 1;
        } else {
            proof {
                assert(piece@ =~= rest);
            }
            return parts;
        }
    }
}

/// The pieces joined, with `sep` between each two.
pub open spec fn joined(parts: Seq<Seq<char>>, sep: Seq<char>) -> Seq<char>
    decreases parts.len(),
{
    if parts.len() == 0 {
        Seq::empty()
    } else if parts.len() == 1 {
        parts[0]
    } else {
        joined(parts.drop_last(), sep) + sep + parts.last()
    }
}

/// The strings joined, with `sep` between each two.
pub fn join_with(parts: &Vec<String>, sep: &str) -> (r: String)
    ensures
        r@ == joined(views(parts@), sep@),
{
    let mut r = String::new();
    let mut i: usize = 0;
    proof {
        assert(views(parts@).take(0) =~= Seq::<Seq<char>>::empty());
    }
    while i < parts.len()
        invariant
            i <= parts@.len(),
            r@ == joined(views(parts@).take(i as int), sep@),
        decreases parts@.len() - i,
    {
        let ghost ps = views(parts@);
        proof {
            assert(ps.take(i + 1).drop_last() =~= ps.take(i as int));
            assert(ps.take(i + 1).last() == parts@[i as int]@);
        }
        if i > 0 {
            r.append(sep);
        } else {
            assert(ps.take(1) =~= seq![parts@[0]@]);
        }
        r.append(parts[i].as_str());
        i = i + 1;
    }
    proof {
        assert(views(parts@).take(parts@.len() as int) =~= views(parts@));
    }
    r
}

/// Splitting at `c` around a `c` splits the two sides apart.
pub proof fn lemma_split_concat(x: Seq<char>, y: Seq<char>, c: char)
    ensures
        split_on(x + seq![c] + y, c) == split_on(x, c) + split_on(y, c),
    decreases x.len(),
{
    let s = x + seq![c] + y;
    lemma_find_char_holds(x, c);
    let k = find_char(x, c);
    if k < x.len() {
        lemma_find_char(s, c, k);
        let x2 = x.subrange(k + 1, x.len() as int);
        assert(s.subrange(k + 1, s.len() as int) =~= x2 + seq![c] + y);
        assert(s.subrange(0, k) =~= x.subrange(0, k));
        lemma_split_concat(x2, y, c);
        assert(split_on(s, c) =~= split_on(x, c) + split_on(y, c));
    } else {
        assert forall|m: int| 0 <= m < x.len() implies s[m] != c by {
            assert(s[m] == x[m]);
        }
        lemma_find_char(s, c, x.len() as int);
        assert(s.subrange(0, x.len() as int) =~= x);
        assert(s.subrange(x.len() + 1 as int, s.len() as int) =~= y);
        assert(split_on(s, c) =~= split_on(x, c) + split_on(y, c));
    }
}

/// Words without `c`, joined by `c` and split at `c`, come back unchanged.
pub proof fn law_split_joined(parts: Seq<Seq<char>>, c: char)
    requires
        parts.len() >= 1,
        forall|i: int| 0 <= i < parts.len() ==> !(#[trigger] parts[i]).contains(c),
    ensures
        split_on(joined(parts, seq![c]), c) == parts,
    decreases parts.len(),
{
    let last = parts[parts.len() - 1];
    lemma_find_char_holds(last, c);
    if parts.len() == 1 {
        assert(split_on(last, c) =~= seq![last]);
        assert(parts =~= seq![last]);
    } else {
        let init = parts.drop_last();
        assert forall|i: int| 0 <= i < init.len() implies !(#[trigger] init[i]).contains(c) by {
            assert(init[i] == parts[i]);
        }
        law_split_joined(init, c);
        lemma_split_concat(joined(init, seq![c]), last, c);
        assert(split_on(last, c) =~= seq![last]);
        assert(parts =~= init + seq![last]);
    }
}

/// Whether two strings hold the same characters.
pub fn str_equal(a: &str, b: &str) -> (r: bool)
    ensures
        r == (a@ == b@),
{
    a.to_owned() == b.to_owned()
}

} // verus!
