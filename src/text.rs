//! Character-level helpers on paths and identifiers: splitting on a
//! separator, path components, joining and substring search.

use vstd::prelude::*;

verus! {

/// The views of a sequence of strings.
pub open spec fn views(v: Seq<String>) -> Seq<Seq<char>> {
    v.map_values(|p: String| p@)
}

/// The pieces of `s` between occurrences of `sep`, as `str::split` yields
/// them: always at least one piece, possibly empty ones.
pub open spec fn split_spec(s: Seq<char>, sep: char) -> Seq<Seq<char>>
    decreases s.len(),
{
    if s.len() == 0 {
        seq![Seq::<char>::empty()]
    } else {
        let init = split_spec(s.drop_last(), sep);
        if s.last() == sep {
            init.push(Seq::<char>::empty())
        } else {
            init.update(init.len() - 1, init.last().push(s.last()))
        }
    }
}

pub proof fn lemma_split_nonempty(s: Seq<char>, sep: char)
    ensures
        split_spec(s, sep).len() >= 1,
    decreases s.len(),
{
    if s.len() > 0 {
        lemma_split_nonempty(s.drop_last(), sep);
    }
}

/// When `s` does not start with `sep`, its first piece starts with the
/// first character of `s`.
pub proof fn lemma_split_first(s: Seq<char>, sep: char)
    requires
        s.len() > 0,
        s[0] != sep,
    ensures
        split_spec(s, sep)[0].len() > 0,
        split_spec(s, sep)[0][0] == s[0],
    decreases s.len(),
{
    let init = split_spec(s.drop_last(), sep);
    lemma_split_nonempty(s.drop_last(), sep);
    if s.len() > 1 {
        lemma_split_first(s.drop_last(), sep);
    }
}

/// A text that splits into two pieces is the two pieces with the separator
/// between them.
pub proof fn lemma_split_two(s: Seq<char>, sep: char)
    requires
        split_spec(s, sep).len() == 2,
    ensures
        s == split_spec(s, sep)[0] + seq![sep] + split_spec(s, sep)[1],
    decreases s.len(),
{
    lemma_split_rejoin(s, sep);
    let p = split_spec(s, sep);
    assert(join_with(p.drop_last(), sep) == p[0]);
}

/// The pieces joined with the separator give back the text.
pub proof fn lemma_split_rejoin(s: Seq<char>, sep: char)
    ensures
        join_with(split_spec(s, sep), sep) == s,
    decreases s.len(),
{
    if s.len() > 0 {
        let init = split_spec(s.drop_last(), sep);
        lemma_split_nonempty(s.drop_last(), sep);
        lemma_split_rejoin(s.drop_last(), sep);
        if s.last() == sep {
            assert(split_spec(s, sep).drop_last() =~= init);
            assert(s =~= s.drop_last() + seq![sep] + Seq::<char>::empty());
        } else {
            let k = init.len() - 1;
            let now = split_spec(s, sep);
            assert(now.drop_last() =~= init.drop_last());
            if init.len() == 1 {
                assert(s =~= init[0].push(s.last()));
            } else {
                assert(join_with(init, sep) == join_with(init.drop_last(), sep) + seq![sep]
                    + init.last());
                assert(now.last() == init.last().push(s.last()));
                assert(join_with(now, sep) == join_with(now.drop_last(), sep) + seq![sep]
                    + now.last());
                assert(s =~= s.drop_last().push(s.last()));
                assert(s =~= join_with(init.drop_last(), sep) + seq![sep] + init.last().push(
                    s.last(),
                ));
            }
        }
    }
}

/// The pieces written out with `sep` between them.
pub open spec fn join_with(parts: Seq<Seq<char>>, sep: char) -> Seq<char>
    decreases parts.len(),
{
    if parts.len() == 0 {
        Seq::empty()
    } else if parts.len() == 1 {
        parts[0]
    } else {
        join_with(parts.drop_last(), sep) + seq![sep] + parts.last()
    }
}

/// Splits `s` at every `sep`, keeping empty pieces.
pub fn split_on(s: &str, sep: char) -> (r: Vec<String>)
    ensures
        views(r@) == split_spec(s@, sep),
{
    let n = s.unicode_len();
    let mut parts: Vec<String> = Vec::new();
    let mut start: usize = 0;
    let mut i: usize = 0;
    assert(s@.take(0) =~= Seq::<char>::empty());
    assert(views(parts@).push(s@.subrange(0, 0)) =~= seq![Seq::<char>::empty()]);
    while i < n
        invariant
            n == s@.len(),
            start <= i <= n,
            views(parts@).push(s@.subrange(start as int, i as int)) == split_spec(
                s@.take(i as int),
                sep,
            ),
        decreases n - i,
    {
        let c = s.get_char(i);
        proof {
            assert(s@.take(i + 1).drop_last() =~= s@.take(i as int));
            assert(s@.take(i + 1).last() == c);
        }
        if c == sep {
            let piece = s.substring_char(start, i);
            let ghost before = views(parts@);
            parts.push(String::from_str(piece));
            proof {
                assert(views(parts@) =~= before.push(piece@));
                assert(s@.subrange(i + 1, i + 1) =~= Seq::<char>::empty());
                assert(views(parts@).push(s@.subrange(i + 1, i + 1)) =~= before.push(
                    s@.subrange(start as int, i as int),
                ).push(Seq::<char>::empty()));
            }
            start = i + 1;
        } else {
            proof {
                let init = views(parts@).push(s@.subrange(start as int, i as int));
                assert(s@.subrange(start as int, i + 1) =~= s@.subrange(start as int, i as int).push(c));
                assert(init.update(init.len() - 1, init.last().push(c)) =~= views(parts@).push(
                    s@.subrange(start as int, i + 1),
                ));
            }
        }
        i += 1;
    }
    let piece = s.substring_char(start, n);
    let ghost before = views(parts@);
    parts.push(String::from_str(piece));
    proof {
        assert(s@.take(n as int) =~= s@);
        assert(views(parts@) =~= before.push(piece@));
    }
    parts
}


/// A piece that counts as a path component: not empty and not `.`.
pub open spec fn is_part(seg: Seq<char>) -> bool {
    seg.len() > 0 && seg != seq!['.']
}

/// The pieces of `segs` that count as path components, in order.
pub open spec fn keep_parts(segs: Seq<Seq<char>>) -> Seq<Seq<char>>
    decreases segs.len(),
{
    if segs.len() == 0 {
        Seq::empty()
    } else {
        let init = keep_parts(segs.drop_last());
        if is_part(segs.last()) {
            init.push(segs.last())
        } else {
            init
        }
    }
}

/// The normal components of a `/`-separated path: repeated separators,
/// a trailing separator and `.` pieces contribute nothing.
pub open spec fn components(s: Seq<char>) -> Seq<Seq<char>> {
    keep_parts(split_spec(s, '/'))
}

/// The components of `parts` written out with `/` between them.
pub open spec fn join_parts(parts: Seq<Seq<char>>) -> Seq<char>
    decreases parts.len(),
{
    if parts.len() == 0 {
        Seq::empty()
    } else if parts.len() == 1 {
        parts[0]
    } else {
        join_parts(parts.drop_last()) + seq!['/'] + parts.last()
    }
}

/// `t` occurs in `s` starting at index `i`.
pub open spec fn occurs_at(s: Seq<char>, t: Seq<char>, i: int) -> bool {
    0 <= i && i + t.len() <= s.len() && s.subrange(i, i + t.len()) == t
}

/// `t` occurs somewhere in `s`.
pub open spec fn contains_spec(s: Seq<char>, t: Seq<char>) -> bool {
    exists|i: int| occurs_at(s, t, i)
}

/// The components of the path `s`.
pub fn path_components(s: &str) -> (r: Vec<String>)
    ensures
        views(r@) == components(s@),
{
    let segs = split_on(s, '/');
    let mut out: Vec<String> = Vec::new();
    let mut i: usize = 0;
    assert(views(segs@).take(0) =~= Seq::<Seq<char>>::empty());
    assert(views(out@) =~= Seq::<Seq<char>>::empty());
    while i < segs.len()
        invariant
            i <= segs.len(),
            views(segs@) == split_spec(s@, '/'),
            views(out@) == keep_parts(views(segs@).take(i as int)),
        decreases segs.len() - i,
    {
        let seg = &segs[i];
        let len = seg.as_str().unicode_len();
        let dot = len == 1 && seg.as_str().get_char(0) == '.';
        proof {
            assert(views(segs@).take(i + 1).drop_last() =~= views(segs@).take(i as int));
            assert(views(segs@).take(i + 1).last() == seg@);
            if dot {
                assert(seg@ =~= seq!['.']);
            }
            if len == 1 && seg@ == seq!['.'] {
                assert(seg@[0] == '.');
            }
        }
        if len > 0 && !dot {
            let ghost before = views(out@);
            out.push(seg.clone());
            assert(views(out@) =~= before.push(seg@));
        }
        i += 1;
    }
    assert(views(segs@).take(segs.len() as int) =~= views(segs@));
    out
}

/// The parts `parts[from..]` joined with `/`.
pub fn join_from(parts: &Vec<String>, from: usize) -> (r: String)
    requires
        from <= parts.len(),
    ensures
        r@ == join_parts(views(parts@).subrange(from as int, parts.len() as int)),
{
    let mut out = String::new();
    let mut i: usize = from;
    assert(views(parts@).subrange(from as int, from as int) =~= Seq::<Seq<char>>::empty());
    while i < parts.len()
        invariant
            from <= i <= parts.len(),
            out@ == join_parts(views(parts@).subrange(from as int, i as int)),
        decreases parts.len() - i,
    {
        let ghost sub = views(parts@).subrange(from as int, i + 1);
        proof {
            assert(sub.drop_last() =~= views(parts@).subrange(from as int, i as int));
            assert(sub.last() == parts[i as int]@);
        }
        if i == from {
            out = parts[i].clone();
            assert(sub.len() == 1);
        } else {
            proof {
                reveal_strlit("/");
            }
            out = out.concat("/");
            out = out.concat(parts[i].as_str());
        }
        i += 1;
    }
    out
}

/// The characters of `s`.
pub fn chars_of(s: &str) -> (r: Vec<char>)
    ensures
        r@ == s@,
{
    let n = s.unicode_len();
    let mut out: Vec<char> = Vec::new();
    let mut i: usize = 0;
    while i < n
        invariant
            n == s@.len(),
            i <= n,
            out@ == s@.take(i as int),
        decreases n - i,
    {
        out.push(s.get_char(i));
        assert(out@ =~= s@.take(i + 1));
        i += 1;
    }
    assert(out@ =~= s@);
    out
}

/// Whether `t` occurs in `s`.
pub fn contains_text(s: &str, t: &str) -> (r: bool)
    ensures
        r == contains_spec(s@, t@),
{
    let sc = chars_of(s);
    let tc = chars_of(t);
    let n = sc.len();
    let m = tc.len();
    if m > n {
        assert forall|k: int| !occurs_at(s@, t@, k) by {}
        return false;
    }
    let mut i: usize = 0;
    while i <= n - m
        invariant
            sc@ == s@,
            tc@ == t@,
            n == sc.len(),
            m == tc.len(),
            m <= n,
            i <= n - m + 1,
            forall|k: int| 0 <= k < i ==> !occurs_at(s@, t@, k),
        decreases n - m + 1 - i,
    {
        let mut j: usize = 0;
        while j < m && sc[i + j] == tc[j]
            invariant
                sc@ == s@,
                tc@ == t@,
                n == sc.len(),
                m == tc.len(),
                i + m <= n,
                j <= m,
                forall|jj: int| 0 <= jj < j ==> s@[i + jj] == t@[jj],
            decreases m - j,
        {
            j += 1;
        }
        if j == m {
            assert(s@.subrange(i as int, i + m) =~= t@);
            assert(occurs_at(s@, t@, i as int));
            return true;
        }
        assert(s@.subrange(i as int, i + m)[j as int] != t@[j as int]);
        i += 1;
    }
    assert forall|k: int| !occurs_at(s@, t@, k) by {
        if 0 <= k && k + m <= n {
            assert(k < i);
        }
    }
    false
}

} // verus!
