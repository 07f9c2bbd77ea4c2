//! Character-level text handling: conversions between `str`, `String` and
//! character vectors, and the line and comma splitting of shader sources.
use vstd::prelude::*;
use vstd::std_specs::iter::IteratorSpec;

verus! {

broadcast use vstd::string::axiom_spec_iter, vstd::string::next_postcondition;

/// Appends one character to a string (`String::push`).
#[verifier::external_body]
pub(crate) fn string_push(s: &mut String, c: char)
    ensures
        final(s)@ == old(s)@.push(c),
{
    s.push(c);
}


/// The characters of a string slice, in order.
pub fn chars_of(s: &str) -> (v: Vec<char>)
    ensures
        v@ == s@,
{
    let mut v: Vec<char> = Vec::new();
    let mut it = s.chars();
    assert(it.remaining() == s@);
    loop
        invariant
            it.obeys_prophetic_iter_laws(),
            it.decrease() is Some,
            v@ + it.remaining() == s@,
        ensures
            v@ == s@,
        decreases it.decrease()->0,
    {
        match it.next() {
            Some(c) => {
                v.push(c);
                assert(v@ + it.remaining() =~= s@);
            },
            None => {
                assert(v@ =~= s@);
                break ;
            },
        }
    }
    v
}

/// Whether two string slices hold the same text.
pub fn str_eq(a: &str, b: &str) -> (r: bool)
    ensures
        r == (a@ == b@),
{
    let ca = chars_of(a);
    let cb = chars_of(b);
    if ca.len() != cb.len() {
        return false;
    }
    let mut i: usize = 0;
    while i < ca.len()
        invariant
            i <= ca@.len(),
            ca@.len() == cb@.len(),
            ca@ == a@,
            cb@ == b@,
            forall|k: int| 0 <= k < i ==> ca@[k] == cb@[k],
        decreases ca@.len() - i,
    {
        if ca[i] != cb[i] {
            return false;
        }
        i = i + 1;
    }
    assert(ca@ =~= cb@);
    true
}

/// The views of a sequence of character vectors.
pub open spec fn views(ls: Seq<Vec<char>>) -> Seq<Seq<char>> {
    ls.map_values(|v: Vec<char>| v@)
}

/// A line without the carriage return of a `\r\n` line ending.
pub open spec fn strip_cr(l: Seq<char>) -> Seq<char> {
    if l.len() > 0 && l.last() == '\r' {
        l.drop_last()
    } else {
        l
    }
}

/// The lines completed so far and the line being read, after reading `s`.
pub open spec fn lines_state(s: Seq<char>) -> (Seq<Seq<char>>, Seq<char>)
    decreases s.len(),
{
    if s.len() == 0 {
        (seq![], seq![])
    } else {
        let (done, cur) = lines_state(s.drop_last());
        if s.last() == '\n' {
            (done.push(strip_cr(cur)), seq![])
        } else {
            (done, cur.push(s.last()))
        }
    }
}

/// The lines of `s` as `str::lines` yields them: split at `\n`, each `\r\n`
/// ending removed, and no empty line after a final line ending.
pub open spec fn lines_of(s: Seq<char>) -> Seq<Seq<char>> {
    let (done, cur) = lines_state(s);
    if cur.len() == 0 {
        done
    } else {
        done.push(cur)
    }
}

/// The pieces completed so far and the piece being read, after reading `s`.
pub open spec fn split_state(s: Seq<char>, sep: char) -> (Seq<Seq<char>>, Seq<char>)
    decreases s.len(),
{
    if s.len() == 0 {
        (seq![], seq![])
    } else {
        let (done, cur) = split_state(s.drop_last(), sep);
        if s.last() == sep {
            (done.push(cur), seq![])
        } else {
            (done, cur.push(s.last()))
        }
    }
}

/// The pieces of `s` between occurrences of `sep`, as `str::split` yields
/// them: one more piece than there are separators, empty pieces included.
pub open spec fn split_on(s: Seq<char>, sep: char) -> Seq<Seq<char>> {
    let (done, cur) = split_state(s, sep);
    done.push(cur)
}

/// Splits `s` into lines (see `lines_of`).
pub fn split_lines(s: &Vec<char>) -> (ls: Vec<Vec<char>>)
    ensures
        views(ls@) == lines_of(s@),
{
    let mut done: Vec<Vec<char>> = Vec::new();
    let mut cur: Vec<char> = Vec::new();
    let mut i: usize = 0;
    assert(s@.take(0) =~= Seq::<char>::empty());
    while i < s.len()
        invariant
            i <= s.len(),
            (views(done@), cur@) == lines_state(s@.take(i as int)),
        decreases s.len() - i,
    {
        assert(s@.take(i + 1).drop_last() =~= s@.take(i as int));
        let c = s[i];
        if c == '\n' {
            if cur.len() > 0 && cur[cur.len() - 1] == '\r' {
                cur.pop();
            }
            let ghost old_done = views(done@);
            done.push(cur);
            assert(views(done@) =~= old_done.push(strip_cr(lines_state(s@.take(i as int)).1)));
            cur = Vec::new();
            assert(cur@ =~= Seq::<char>::empty());
        } else {
            cur.push(c);
        }
        i = i + 1;
    }
    assert(s@.take(s.len() as int) =~= s@);
    if cur.len() > 0 {
        let ghost old_done = views(done@);
        done.push(cur);
        assert(views(done@) =~= old_done.push(lines_state(s@).1));
    }
    done
}

/// Splits the characters of `s` from index `start` on at every `sep` (see
/// `split_on`).
pub fn split_chars(s: &[char], start: usize, sep: char) -> (ps: Vec<Vec<char>>)
    requires
        start <= s@.len(),
    ensures
        views(ps@) == split_on(s@.skip(start as int), sep),
{
    let mut done: Vec<Vec<char>> = Vec::new();
    let mut cur: Vec<char> = Vec::new();
    let mut i: usize = start;
    assert(s@.subrange(start as int, start as int) =~= Seq::<char>::empty());
    while i < s.len()
        invariant
            start <= i <= s.len(),
            (views(done@), cur@) == split_state(s@.subrange(start as int, i as int), sep),
        decreases s.len() - i,
    {
        assert(s@.subrange(start as int, i + 1).drop_last() =~= s@.subrange(
            start as int,
            i as int,
        ));
        let c = s[i];
        if c == sep {
            let ghost old_done = views(done@);
            done.push(cur);
            assert(views(done@) =~= old_done.push(
                split_state(s@.subrange(start as int, i as int), sep).1,
            ));
            cur = Vec::new();
            assert(cur@ =~= Seq::<char>::empty());
        } else {
            cur.push(c);
        }
        i = i + 1;
    }
    assert(s@.subrange(start as int, s.len() as int) =~= s@.skip(start as int));
    let ghost old_done = views(done@);
    done.push(cur);
    assert(views(done@) =~= old_done.push(split_state(s@.skip(start as int), sep).1));
    done
}

/// A string holding the given characters.
pub fn string_of(cs: &[char]) -> (s: String)
    ensures
        s@ == cs@,
{
    let mut s = String::new();
    let mut i: usize = 0;
    while i < cs.len()
        invariant
            i <= cs.len(),
            s@ == cs@.take(i as int),
        decreases cs.len() - i,
    {
        string_push(&mut s, cs[i]);
        assert(cs@.take(i + 1) =~= cs@.take(i as int).push(cs@[i as int]));
        i = i + 1;
    }
    assert(cs@.take(cs.len() as int) =~= cs@);
    s
}

/// Appends the given characters to a string.
pub fn push_chars(s: &mut String, cs: &[char])
    ensures
        final(s)@ == old(s)@ + cs@,
{
    let mut i: usize = 0;
    while i < cs.len()
        invariant
            i <= cs.len(),
            s@ == old(s)@ + cs@.take(i as int),
        decreases cs.len() - i,
    {
        string_push(s, cs[i]);
        assert(cs@.take(i + 1) =~= cs@.take(i as int).push(cs@[i as int]));
        assert(old(s)@ + cs@.take(i + 1) =~= (old(s)@ + cs@.take(i as int)).push(cs@[i as int]));
        i = i + 1;
    }
    assert(cs@.take(cs.len() as int) =~= cs@);
}

/// The pieces `ps` put back together with `sep` between each two.
pub open spec fn join_with(ps: Seq<Seq<char>>, sep: char) -> Seq<char>
    decreases ps.len(),
{
    if ps.len() == 0 {
        seq![]
    } else if ps.len() == 1 {
        ps[0]
    } else {
        join_with(ps.drop_last(), sep).push(sep) + ps.last()
    }
}

/// Splitting loses nothing and keeps the separator out of the pieces: the
/// pieces of `s` between occurrences of `sep`, put back together with `sep`,
/// give `s`, and no piece holds `sep`.
pub proof fn lemma_split_rejoins(s: Seq<char>, sep: char)
    ensures
        join_with(split_on(s, sep), sep) == s,
        forall|i: int, j: int|
            0 <= i < split_on(s, sep).len() && 0 <= j < split_on(s, sep)[i].len() ==> split_on(
                s,
                sep,
            )[i][j] != sep,
    decreases s.len(),
{
    if s.len() > 0 {
        let p = s.drop_last();
        lemma_split_rejoins(p, sep);
        let (done, cur) = split_state(p, sep);
        let ps = done.push(cur);
        assert(split_on(p, sep) == ps);
        assert(s =~= p.push(s.last()));
        if s.last() == sep {
            let qs = ps.push(Seq::<char>::empty());
            assert(split_on(s, sep) == qs);
            assert(qs.drop_last() =~= ps);
            assert(join_with(qs, sep) =~= p.push(sep));
            assert forall|i: int, j: int| 0 <= i < qs.len() && 0 <= j < qs[i].len() implies qs[i][j]
                != sep by {
                assert(qs[i] == ps[i]);
            }
        } else {
            let c = s.last();
            let qs = done.push(cur.push(c));
            assert(split_on(s, sep) == qs);
            assert(qs.drop_last() =~= done);
            assert(ps.drop_last() =~= done);
            if done.len() == 0 {
                assert(join_with(qs, sep) == qs[0]);
                assert(join_with(ps, sep) == ps[0]);
            } else {
                assert(join_with(qs, sep) == join_with(done, sep).push(sep) + cur.push(c));
                assert(join_with(ps, sep) == join_with(done, sep).push(sep) + cur);
                assert(join_with(done, sep).push(sep) + cur.push(c) =~= (join_with(done, sep).push(
                    sep,
                ) + cur).push(c));
            }
            assert forall|i: int, j: int| 0 <= i < qs.len() && 0 <= j < qs[i].len() implies qs[i][j]
                != sep by {
                if i < done.len() {
                    assert(qs[i] == ps[i]);
                } else {
                    assert(ps[i] == cur);
                    if j < cur.len() {
                        assert(qs[i][j] == cur[j]);
                    }
                }
            }
        }
    } else {
        assert(split_on(s, sep) =~= seq![Seq::<char>::empty()]);
    }
}

} // verus!
