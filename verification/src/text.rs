//! Character-level text handling: building strings, splitting, trimming.
use vstd::prelude::*;

verus! {

/// Appends `c` to `s` (std's `String::push`).
#[verifier::external_body]
pub(crate) fn push_char(s: &mut String, c: char)
    ensures
        final(s)@ == old(s)@.push(c),
{
    s.push(c);
}

/// The characters of a string.
pub fn chars_of(s: &str) -> (v: Vec<char>)
    ensures
        v@ == s@,
{
    let mut v: Vec<char> = Vec::new();
    for c in it: s.chars()
        invariant
            v@ == it.seq().take(it.index() as int),
            it.seq() == s@,
    {
        v.push(c);
    }
    v
}

/// The string made of the given characters.
pub fn string_of(v: &Vec<char>) -> (s: String)
    ensures
        s@ == v@,
{
    let mut s = String::new();
    let mut i: usize = 0;
    while i < v.len()
        invariant
            i <= v@.len(),
            s@ == v@.take(i as int),
        decreases v@.len() - i,
    {
        push_char(&mut s, v[i]);
        i = i + 1;
        assert(s@ =~= v@.take(i as int));
    }
    assert(v@.take(v@.len() as int) =~= v@);
    s
}

/// `s` with each space written `%20`.
pub open spec fn spaces_encoded(s: Seq<char>) -> Seq<char>
    decreases s.len(),
{
    if s.len() == 0 {
        s
    } else if s.last() == ' ' {
        spaces_encoded(s.drop_last()) + seq!['%', '2', '0']
    } else {
        spaces_encoded(s.drop_last()).push(s.last())
    }
}

/// No space is left once spaces are encoded.
pub proof fn law_encoded_has_no_space(s: Seq<char>)
    ensures
        !spaces_encoded(s).contains(' '),
    decreases s.len(),
{
    if s.len() > 0 {
        law_encoded_has_no_space(s.drop_last());
        let r = spaces_encoded(s.drop_last());
        if s.last() == ' ' {
            let e = r + seq!['%', '2', '0'];
            assert forall|i: int| 0 <= i < e.len() implies e[i] != ' ' by {
                if i < r.len() {
                    assert(e[i] == r[i]);
                }
            }
        } else {
            let e = r.push(s.last());
            assert forall|i: int| 0 <= i < e.len() implies e[i] != ' ' by {
                if i < r.len() {
                    assert(e[i] == r[i]);
                }
            }
        }
    }
}

/// Encoding spaces keeps a text without spaces as it is.
pub proof fn law_encoding_keeps_text_without_spaces(s: Seq<char>)
    requires
        !s.contains(' '),
    ensures
        spaces_encoded(s) == s,
    decreases s.len(),
{
    if s.len() > 0 {
        assert(!s.drop_last().contains(' ')) by {
            if s.drop_last().contains(' ') {
                let i = choose|i: int| 0 <= i < s.drop_last().len() && s.drop_last()[i] == ' ';
                assert(s[i] == ' ');
            }
        }
        law_encoding_keeps_text_without_spaces(s.drop_last());
        assert(s.last() != ' ') by {
            assert(s[s.len() - 1] == s.last());
        }
        assert(s.drop_last().push(s.last()) =~= s);
    }
}

/// Writes each space of `s` as `%20` (what `str::replace(" ", "%20")` does).
pub fn encode_spaces(s: &str) -> (r: String)
    ensures
        r@ == spaces_encoded(s@),
{
    let v = chars_of(s);
    let mut r = String::new();
    let mut i: usize = 0;
    while i < v.len()
        invariant
            i <= v@.len(),
            v@ == s@,
            r@ == spaces_encoded(v@.take(i as int)),
        decreases v@.len() - i,
    {
        let c = v[i];
        assert(v@.take(i + 1).drop_last() =~= v@.take(i as int));
        if c == ' ' {
            push_char(&mut r, '%');
            push_char(&mut r, '2');
            push_char(&mut r, '0');
            assert(r@ =~= spaces_encoded(v@.take(i as int)) + seq!['%', '2', '0']);
        } else {
            push_char(&mut r, c);
        }
        i = i + 1;
    }
    assert(v@.take(v@.len() as int) =~= v@);
    r
}

/// Whether `p` occurs in `s` starting at `at`.
pub open spec fn occurs_at(s: Seq<char>, p: Seq<char>, at: int) -> bool {
    0 <= at && at + p.len() <= s.len() && s.subrange(at, at + p.len()) == p
}

/// Whether `p` occurs somewhere in `s`.
pub open spec fn contains_text(s: Seq<char>, p: Seq<char>) -> bool {
    exists|at: int| occurs_at(s, p, at)
}

/// Whether `p` occurs in `s` starting at `at`.
pub fn matches_at(s: &Vec<char>, p: &Vec<char>, at: usize) -> (r: bool)
    ensures
        r == occurs_at(s@, p@, at as int),
{
    if at > s.len() || p.len() > s.len() - at {
        return false;
    }
    let n = s.len();
    let mut i: usize = 0;
    while i < p.len()
        invariant
            n == s@.len(),
            at + p@.len() <= s@.len(),
            i <= p@.len(),
            forall|j: int| 0 <= j < i ==> p@[j] == s@[at + j],
        decreases p@.len() - i,
    {
        if p[i] != s[at + i] {
            assert(s@.subrange(at as int, at + p@.len())[i as int] == s@[at + i]);
            return false;
        }
        i = i + 1;
    }
    assert(s@.subrange(at as int, at + p@.len()) =~= p@);
    true
}

/// Whether `p` is a prefix of `s`.
pub fn has_prefix(s: &Vec<char>, p: &Vec<char>) -> (r: bool)
    ensures
        r == p@.is_prefix_of(s@),
{
    let r = matches_at(s, p, 0);
    assert(r == p@.is_prefix_of(s@));
    r
}

/// Whether `p` occurs in `s` (what `str::contains` does with a string pattern).
pub fn contains_chars(s: &Vec<char>, p: &Vec<char>) -> (r: bool)
    ensures
        r == contains_text(s@, p@),
{
    if p.len() > s.len() {
        return false;
    }
    let last = s.len() - p.len();
    let mut at: usize = 0;
    while at < last
        invariant
            last == s@.len() - p@.len(),
            at <= last,
            forall|a: int| 0 <= a < at ==> !occurs_at(s@, p@, a),
        decreases last - at,
    {
        if matches_at(s, p, at) {
            return true;
        }
        at = at + 1;
    }
    let r = matches_at(s, p, last);
    assert(r == contains_text(s@, p@)) by {
        if !r {
            assert forall|a: int| !occurs_at(s@, p@, a) by {
                if a > last {
                    assert(a + p@.len() > s@.len());
                }
            }
        }
    }
    r
}

/// The characters of `s` from position `from` on.
pub fn chars_from(s: &Vec<char>, from: usize) -> (r: Vec<char>)
    requires
        from <= s@.len(),
    ensures
        r@ == s@.skip(from as int),
{
    let mut r: Vec<char> = Vec::new();
    let mut i: usize = from;
    while i < s.len()
        invariant
            from <= i <= s@.len(),
            r@ == s@.subrange(from as int, i as int),
        decreases s@.len() - i,
    {
        r.push(s[i]);
        i = i + 1;
        assert(r@ =~= s@.subrange(from as int, i as int));
    }
    r
}

/// The first `n` characters of `s`.
pub fn chars_to(s: &Vec<char>, n: usize) -> (r: Vec<char>)
    requires
        n <= s@.len(),
    ensures
        r@ == s@.take(n as int),
{
    let mut r: Vec<char> = Vec::new();
    let mut i: usize = 0;
    while i < n
        invariant
            n <= s@.len(),
            i <= n,
            r@ == s@.take(i as int),
        decreases n - i,
    {
        r.push(s[i]);
        i = i + 1;
        assert(r@ =~= s@.take(i as int));
    }
    r
}

/// The pieces of `s` between the occurrences of `sep` (what `str::split`
/// gives with a character pattern): always at least one piece.
pub open spec fn split_on(s: Seq<char>, sep: char) -> Seq<Seq<char>>
    decreases s.len(),
{
    if s.len() == 0 {
        seq![Seq::<char>::empty()]
    } else {
        let parts = split_on(s.drop_last(), sep);
        if s.last() == sep {
            parts.push(Seq::<char>::empty())
        } else {
            parts.update(parts.len() - 1, parts.last().push(s.last()))
        }
    }
}

pub proof fn lemma_split_on_nonempty(s: Seq<char>, sep: char)
    ensures
        split_on(s, sep).len() >= 1,
    decreases s.len(),
{
    if s.len() > 0 {
        lemma_split_on_nonempty(s.drop_last(), sep);
    }
}

/// A separator at the end starts a new, empty piece.
pub proof fn lemma_split_on_push_sep(s: Seq<char>, sep: char)
    ensures
        split_on(s.push(sep), sep) == split_on(s, sep).push(Seq::<char>::empty()),
{
    assert(s.push(sep).drop_last() =~= s);
}

/// Text without the separator at the end extends the last piece.
pub proof fn lemma_split_on_append(s: Seq<char>, t: Seq<char>, sep: char)
    requires
        !t.contains(sep),
    ensures
        split_on(s + t, sep) == split_on(s, sep).update(
            split_on(s, sep).len() - 1,
            split_on(s, sep).last() + t,
        ),
    decreases t.len(),
{
    lemma_split_on_nonempty(s, sep);
    let p = split_on(s, sep);
    if t.len() == 0 {
        assert(s + t =~= s);
        assert(p.last() + t =~= p.last());
        assert(p.update(p.len() - 1, p.last()) =~= p);
    } else {
        let t0 = t.drop_last();
        assert(!t0.contains(sep)) by {
            if t0.contains(sep) {
                let i = choose|i: int| 0 <= i < t0.len() && t0[i] == sep;
                assert(t[i] == sep);
            }
        }
        assert(t.last() != sep) by {
            assert(t[t.len() - 1] == t.last());
        }
        lemma_split_on_append(s, t0, sep);
        assert((s + t).drop_last() =~= s + t0);
        assert((s + t).last() == t.last());
        assert((p.last() + t0).push(t.last()) =~= p.last() + t);
        assert(split_on(s + t, sep) =~= p.update(p.len() - 1, p.last() + t));
    }
}

/// A separator joins the pieces of the text before it to those of the text
/// after it.
pub proof fn lemma_split_on_join(a: Seq<char>, t: Seq<char>, sep: char)
    ensures
        split_on(a.push(sep) + t, sep) == split_on(a, sep) + split_on(t, sep),
    decreases t.len(),
{
    lemma_split_on_nonempty(t, sep);
    let pa = split_on(a, sep);
    if t.len() == 0 {
        assert(a.push(sep) + t =~= a.push(sep));
        lemma_split_on_push_sep(a, sep);
        assert(split_on(t, sep) =~= seq![Seq::<char>::empty()]);
        assert(pa.push(Seq::<char>::empty()) =~= pa + seq![Seq::<char>::empty()]);
    } else {
        let t0 = t.drop_last();
        let c = t.last();
        lemma_split_on_join(a, t0, sep);
        lemma_split_on_nonempty(t0, sep);
        let w = a.push(sep) + t;
        assert(w.drop_last() =~= a.push(sep) + t0);
        assert(w.last() == c);
        let pt0 = split_on(t0, sep);
        if c == sep {
            assert((pa + pt0).push(Seq::<char>::empty()) =~= pa + pt0.push(Seq::<char>::empty()));
        } else {
            let q = pa + pt0;
            assert(q.last() == pt0.last());
            assert(q.update(q.len() - 1, q.last().push(c)) =~= pa + pt0.update(
                pt0.len() - 1,
                pt0.last().push(c),
            ));
        }
    }
}

/// The pieces as character sequences.
pub open spec fn pieces_view(parts: Seq<Vec<char>>) -> Seq<Seq<char>> {
    parts.map_values(|p: Vec<char>| p@)
}

/// Splits `s` at each `sep`.
pub fn split_chars(s: &Vec<char>, sep: char) -> (parts: Vec<Vec<char>>)
    ensures
        pieces_view(parts@) == split_on(s@, sep),
        parts@.len() >= 1,
{
    let mut parts: Vec<Vec<char>> = Vec::new();
    parts.push(Vec::new());
    assert(pieces_view(parts@) =~= split_on(s@.take(0), sep));
    let mut i: usize = 0;
    while i < s.len()
        invariant
            i <= s@.len(),
            parts@.len() >= 1,
            pieces_view(parts@) == split_on(s@.take(i as int), sep),
        decreases s@.len() - i,
    {
        let c = s[i];
        assert(s@.take(i + 1).drop_last() =~= s@.take(i as int));
        if c == sep {
            parts.push(Vec::new());
            assert(pieces_view(parts@) =~= split_on(s@.take(i + 1), sep));
        } else {
            let k = parts.len() - 1;
            parts[k].push(c);
            assert(pieces_view(parts@) =~= split_on(s@.take(i + 1), sep));
        }
        i = i + 1;
    }
    assert(s@.take(s@.len() as int) =~= s@);
    parts
}

/// `s` with `suffix` taken off its end as long as it ends with it (what
/// `str::trim_end_matches` does with a string pattern).
pub open spec fn trim_suffix_all(s: Seq<char>, suffix: Seq<char>) -> Seq<char>
    decreases s.len(),
{
    if suffix.len() > 0 && suffix.is_suffix_of(s) {
        trim_suffix_all(s.take(s.len() - suffix.len()), suffix)
    } else {
        s
    }
}

/// `s` with `prefix` taken off its start as long as it starts with it (what
/// `str::trim_start_matches` does with a string pattern).
pub open spec fn trim_prefix_all(s: Seq<char>, prefix: Seq<char>) -> Seq<char>
    decreases s.len(),
{
    if prefix.len() > 0 && prefix.is_prefix_of(s) {
        trim_prefix_all(s.skip(prefix.len() as int), prefix)
    } else {
        s
    }
}

/// Takes `suffix` off the end of `s` as long as it ends with it.
pub fn trim_end_all(s: &Vec<char>, suffix: &Vec<char>) -> (r: Vec<char>)
    ensures
        r@ == trim_suffix_all(s@, suffix@),
{
    let mut n: usize = s.len();
    assert(s@.take(n as int) =~= s@);
    if suffix.len() > 0 {
        while n >= suffix.len() && matches_at(s, suffix, n - suffix.len())
            invariant
                suffix@.len() > 0,
                n <= s@.len(),
                trim_suffix_all(s@.take(n as int), suffix@) == trim_suffix_all(s@, suffix@),
            decreases n,
        {
            assert(suffix@.is_suffix_of(s@.take(n as int))) by {
                assert(s@.take(n as int).subrange(n - suffix@.len(), n as int) =~= s@.subrange(
                    n - suffix@.len(),
                    n as int,
                ));
            }
            assert(s@.take(n as int).take(n - suffix@.len()) =~= s@.take(n - suffix@.len()));
            n = n - suffix.len();
        }
        assert(!suffix@.is_suffix_of(s@.take(n as int))) by {
            if suffix@.is_suffix_of(s@.take(n as int)) {
                assert(s@.take(n as int).subrange(n - suffix@.len(), n as int) =~= s@.subrange(
                    n - suffix@.len(),
                    n as int,
                ));
            }
        }
    } else {
        assert(s@.take(n as int) =~= s@);
    }
    if n == s.len() {
        assert(s@.take(n as int) =~= s@);
    }
    chars_to(s, n)
}

/// Takes `prefix` off the start of `s` as long as it starts with it.
pub fn trim_start_all(s: &Vec<char>, prefix: &Vec<char>) -> (r: Vec<char>)
    ensures
        r@ == trim_prefix_all(s@, prefix@),
{
    let mut at: usize = 0;
    let total = s.len();
    assert(s@.skip(0) =~= s@);
    if prefix.len() > 0 {
        while matches_at(s, prefix, at)
            invariant
                total == s@.len(),
                prefix@.len() > 0,
                at <= s@.len(),
                trim_prefix_all(s@.skip(at as int), prefix@) == trim_prefix_all(s@, prefix@),
            decreases s@.len() - at,
        {
            assert(prefix@.is_prefix_of(s@.skip(at as int))) by {
                assert(s@.skip(at as int).subrange(0, prefix@.len() as int) =~= s@.subrange(
                    at as int,
                    at + prefix@.len(),
                ));
            }
            assert(s@.skip(at as int).skip(prefix@.len() as int) =~= s@.skip(at + prefix@.len()));
            at = at + prefix.len();
        }
        assert(!prefix@.is_prefix_of(s@.skip(at as int))) by {
            if prefix@.is_prefix_of(s@.skip(at as int)) {
                assert(s@.skip(at as int).subrange(0, prefix@.len() as int) =~= s@.subrange(
                    at as int,
                    at + prefix@.len(),
                ));
            }
        }
    }
    chars_from(s, at)
}

} // verus!
