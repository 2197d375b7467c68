//! Character-level string helpers with exact specifications.

use vstd::prelude::*;

verus! {

broadcast use vstd::string::group_string_axioms;

/// The result of replacing, from left to right, every non-overlapping occurrence of
/// `pat` in `s` by `to`. An empty pattern leaves the text unchanged.
pub open spec fn replace_all(s: Seq<char>, pat: Seq<char>, to: Seq<char>) -> Seq<char>
    decreases s.len(),
{
    if s.len() == 0 {
        s
    } else if pat.len() > 0 && pat.len() <= s.len() && s.subrange(0, pat.len() as int) == pat {
        to + replace_all(s.subrange(pat.len() as int, s.len() as int), pat, to)
    } else {
        seq![s[0]] + replace_all(s.subrange(1, s.len() as int), pat, to)
    }
}

/// `parts` joined with `sep` between consecutive elements.
pub open spec fn join_seqs(parts: Seq<Seq<char>>, sep: Seq<char>) -> Seq<char>
    decreases parts.len(),
{
    if parts.len() == 0 {
        Seq::empty()
    } else if parts.len() == 1 {
        parts[0]
    } else {
        join_seqs(parts.drop_last(), sep) + sep + parts.last()
    }
}

/// Whether `pat` occurs in `s` at position `i`.
pub open spec fn occurs_at(s: Seq<char>, pat: Seq<char>, i: int) -> bool {
    0 <= i && i + pat.len() <= s.len() && s.subrange(i, i + pat.len()) == pat
}

/// Whether `pat` occurs anywhere in `s`.
pub open spec fn contains_seq(s: Seq<char>, pat: Seq<char>) -> bool {
    exists|i: int| occurs_at(s, pat, i)
}

/// Every `from` character replaced by `to`.
pub open spec fn map_char(s: Seq<char>, from: char, to: char) -> Seq<char> {
    Seq::new(s.len(), |i: int| if s[i] == from { to } else { s[i] })
}

/// The characters of `s`, in order.
pub fn chars_of(s: &str) -> (v: Vec<char>)
    ensures
        v@ == s@,
{
    let mut v: Vec<char> = Vec::new();
    for c in it: s.chars()
        invariant
            v@ == it.seq().take(it.index() as int),
    {
        v.push(c);
    }
    v
}

/// Appends one character (`String::push`).
#[verifier::external_body]
pub(crate) fn push_char(s: &mut String, c: char)
    ensures
        final(s)@ == old(s)@.push(c),
{
    s.push(c);
}

/// An owned copy of `s`.
pub fn owned(s: &str) -> (r: String)
    ensures
        r@ == s@,
{
    String::from_str(s)
}

/// `a` followed by `b`.
pub fn concat(a: &str, b: &str) -> (r: String)
    ensures
        r@ == a@ + b@,
{
    let mut r = String::from_str(a);
    r.append(b);
    r
}

/// Whether the two strings hold the same characters.
pub fn str_eq(a: &str, b: &str) -> (r: bool)
    ensures
        r == (a@ == b@),
{
    let x = String::from_str(a);
    let y = String::from_str(b);
    x == y
}

/// Whether `pat` occurs in `v` at position `i`.
fn matches_at(v: &Vec<char>, pat: &Vec<char>, i: usize) -> (r: bool)
    ensures
        r == occurs_at(v@, pat@, i as int),
{
    if i > v.len() || pat.len() > v.len() - i {
        return false;
    }
    let mut j: usize = 0;
    while j < pat.len()
        invariant
            i + pat.len() <= v.len(),
            j <= pat.len(),
            forall|k: int| 0 <= k < j ==> v@[i + k] == pat@[k],
        decreases pat.len() - j,
    {
        if v[i + j] != pat[j] {
            assert(v@.subrange(i as int, i + pat.len())[j as int] != pat@[j as int]);
            return false;
        }
        j = j + 1;
    }
    assert(v@.subrange(i as int, i + pat.len()) =~= pat@);
    true
}

/// `content` with every non-overlapping occurrence of `pat`, scanned from the left,
/// replaced by `to`.
pub fn replace_str(content: &str, pat: &str, to: &str) -> (r: String)
    ensures
        r@ == replace_all(content@, pat@, to@),
{
    let v = chars_of(content);
    let p = chars_of(pat);
    let mut out = String::new();
    let mut i: usize = 0;
    assert(v@.subrange(0, v.len() as int) =~= v@);
    while i < v.len()
        invariant
            v@ == content@,
            p@ == pat@,
            i <= v.len(),
            out@ + replace_all(v@.subrange(i as int, v.len() as int), p@, to@)
                == replace_all(v@, p@, to@),
        decreases v.len() - i,
    {
        let ghost rest = v@.subrange(i as int, v.len() as int);
        if p.len() > 0 && matches_at(&v, &p, i) {
            assert(rest.subrange(0, p@.len() as int) =~= v@.subrange(i as int, i + p@.len()));
            assert(rest.subrange(p@.len() as int, rest.len() as int) =~= v@.subrange(
                i + p@.len(),
                v.len() as int,
            ));
            out.append(to);
            i = i + p.len();
            assert(out@ + replace_all(v@.subrange(i as int, v.len() as int), p@, to@) =~= replace_all(v@, p@, to@));
        } else {
            proof {
                if p@.len() > 0 && p@.len() <= rest.len() {
                    assert(rest.subrange(0, p@.len() as int) =~= v@.subrange(i as int, i + p@.len()));
                }
            }
            assert(rest.subrange(1, rest.len() as int) =~= v@.subrange(i + 1, v.len() as int));
            push_char(&mut out, v[i]);
            i = i + 1;
            assert(out@ + replace_all(v@.subrange(i as int, v.len() as int), p@, to@) =~= replace_all(v@, p@, to@));
        }
    }
    assert(v@.subrange(i as int, v.len() as int) =~= Seq::<char>::empty());
    assert(out@ =~= replace_all(v@, p@, to@));
    out
}

/// `s` with every `from` character replaced by `to`.
pub fn map_char_str(s: &str, from: char, to: char) -> (r: String)
    ensures
        r@ == map_char(s@, from, to),
{
    let v = chars_of(s);
    let mut out = String::new();
    let mut i: usize = 0;
    while i < v.len()
        invariant
            v@ == s@,
            i <= v.len(),
            out@ == map_char(s@, from, to).take(i as int),
        decreases v.len() - i,
    {
        let c = if v[i] == from { to } else { v[i] };
        push_char(&mut out, c);
        i = i + 1;
        assert(out@ =~= map_char(s@, from, to).take(i as int));
    }
    assert(out@ =~= map_char(s@, from, to));
    out
}

/// The view of each string in `v`.
pub open spec fn views(v: Seq<String>) -> Seq<Seq<char>> {
    v.map_values(|s: String| s@)
}

/// `parts` joined with `sep` between consecutive elements.
pub fn join_strings(parts: &Vec<String>, sep: &str) -> (r: String)
    ensures
        r@ == join_seqs(views(parts@), sep@),
{
    let mut out = String::new();
    let mut i: usize = 0;
    while i < parts.len()
        invariant
            i <= parts.len(),
            out@ == join_seqs(views(parts@).take(i as int), sep@),
        decreases parts.len() - i,
    {
        if i > 0 {
            out.append(sep);
        }
        out.append(parts[i].as_str());
        i = i + 1;
        let ghost t = views(parts@).take(i as int);
        assert(t.drop_last() =~= views(parts@).take(i - 1));
        if i == 1 {
            assert(views(parts@).take(0) =~= Seq::<Seq<char>>::empty());
        }
    }
    assert(views(parts@).take(parts.len() as int) =~= views(parts@));
    out
}

/// A prefix of a replacement result that never holds the first character of `to`
/// is an untouched prefix of the input.
proof fn lemma_replace_all_prefix(s: Seq<char>, pat: Seq<char>, to: Seq<char>, n: int)
    requires
        to.len() > 0,
        0 <= n <= replace_all(s, pat, to).len(),
        forall|k: int| 0 <= k < n ==> replace_all(s, pat, to)[k] != to[0],
    ensures
        n <= s.len(),
        replace_all(s, pat, to).take(n) == s.take(n),
    decreases s.len(),
{
    let r = replace_all(s, pat, to);
    if n == 0 {
        assert(r.take(0) =~= s.take(0));
    } else if s.len() == 0 {
    } else if pat.len() > 0 && pat.len() <= s.len() && s.subrange(0, pat.len() as int) == pat {
        assert(r[0] == to[0]);
    } else {
        let rest = s.subrange(1, s.len() as int);
        let rr = replace_all(rest, pat, to);
        assert(r == seq![s[0]] + rr);
        assert forall|k: int| 0 <= k < n - 1 implies rr[k] != to[0] by {
            assert(r[k + 1] == rr[k]);
        }
        lemma_replace_all_prefix(rest, pat, to, n - 1);
        assert(r.take(n) =~= seq![s[0]] + rr.take(n - 1));
        assert(s.take(n) =~= seq![s[0]] + rest.take(n - 1));
    }
}

/// Whether `to` can stand in for `pat` without forming a new `pat`: it is nonempty,
/// holds no `pat`, and neither its first nor its last character occurs in `pat`.
pub open spec fn safe_replacement(pat: Seq<char>, to: Seq<char>) -> bool {
    &&& to.len() > 0
    &&& !contains_seq(to, pat)
    &&& !pat.contains(to[0])
    &&& !pat.contains(to.last())
}

/// Replacing every occurrence of a nonempty `pat` by a safe replacement leaves no
/// occurrence of `pat`.
pub proof fn lemma_replace_all_leaves_no_pattern(s: Seq<char>, pat: Seq<char>, to: Seq<char>)
    requires
        pat.len() > 0,
        safe_replacement(pat, to),
    ensures
        !contains_seq(replace_all(s, pat, to), pat),
    decreases s.len(),
{
    let r = replace_all(s, pat, to);
    if s.len() == 0 {
    } else if pat.len() <= s.len() && s.subrange(0, pat.len() as int) == pat {
        let rest = s.subrange(pat.len() as int, s.len() as int);
        let rr = replace_all(rest, pat, to);
        lemma_replace_all_leaves_no_pattern(rest, pat, to);
        assert(r == to + rr);
        assert forall|i: int| !occurs_at(r, pat, i) by {
            if occurs_at(r, pat, i) {
                if i + pat.len() <= to.len() {
                    assert(to.subrange(i, i + pat.len()) =~= r.subrange(i, i + pat.len()));
                    assert(occurs_at(to, pat, i));
                } else if i < to.len() {
                    let j = to.len() - 1 - i;
                    assert(r.subrange(i, i + pat.len())[j] == pat[j]);
                    assert(r[to.len() - 1] == to.last());
                    assert(pat[j] == to.last());
                } else {
                    assert(rr.subrange(i - to.len(), i - to.len() + pat.len()) =~= r.subrange(
                        i,
                        i + pat.len(),
                    ));
                    assert(occurs_at(rr, pat, i - to.len()));
                }
            }
        }
    } else {
        let rest = s.subrange(1, s.len() as int);
        let rr = replace_all(rest, pat, to);
        lemma_replace_all_leaves_no_pattern(rest, pat, to);
        assert(r == seq![s[0]] + rr);
        assert forall|i: int| !occurs_at(r, pat, i) by {
            if occurs_at(r, pat, i) {
                if i >= 1 {
                    assert(rr.subrange(i - 1, i - 1 + pat.len()) =~= r.subrange(i, i + pat.len()));
                    assert(occurs_at(rr, pat, i - 1));
                } else {
                    let m = pat.len() - 1;
                    assert forall|k: int| 0 <= k < m implies rr[k] != to[0] by {
                        assert(r.subrange(0, pat.len() as int)[k + 1] == pat[k + 1]);
                        assert(r[k + 1] == rr[k]);
                        if rr[k] == to[0] {
                            assert(pat[k + 1] == to[0]);
                        }
                    }
                    lemma_replace_all_prefix(rest, pat, to, m);
                    assert forall|k: int| 0 <= k < pat.len() implies s.subrange(
                        0,
                        pat.len() as int,
                    )[k] == pat[k] by {
                        assert(r.subrange(0, pat.len() as int)[k] == pat[k]);
                        if k > 0 {
                            assert(rr.take(m)[k - 1] == rest.take(m)[k - 1]);
                        }
                    }
                    assert(s.subrange(0, pat.len() as int) =~= pat);
                }
            }
        }
    }
}

/// Text without `pat` is left unchanged by replacement.
pub proof fn lemma_replace_all_without_pattern(s: Seq<char>, pat: Seq<char>, to: Seq<char>)
    requires
        !contains_seq(s, pat),
    ensures
        replace_all(s, pat, to) == s,
    decreases s.len(),
{
    if s.len() > 0 {
        let rest = s.subrange(1, s.len() as int);
        if pat.len() > 0 && pat.len() <= s.len() && s.subrange(0, pat.len() as int) == pat {
            assert(occurs_at(s, pat, 0));
        }
        assert forall|i: int| !occurs_at(rest, pat, i) by {
            if occurs_at(rest, pat, i) {
                assert(s.subrange(i + 1, i + 1 + pat.len()) =~= rest.subrange(i, i + pat.len()));
                assert(occurs_at(s, pat, i + 1));
            }
        }
        lemma_replace_all_without_pattern(rest, pat, to);
        assert(seq![s[0]] + rest =~= s);
    }
}

/// Mapping one character to another keeps the length, changes exactly the
/// positions that held `from` (each to `to`), and, when `to` differs from `from`,
/// leaves no `from` anywhere.
pub proof fn lemma_map_char(s: Seq<char>, from: char, to: char)
    ensures
        map_char(s, from, to).len() == s.len(),
        forall|i: int| 0 <= i < s.len() && s[i] != from ==> #[trigger] map_char(s, from, to)[i] == s[i],
        forall|i: int| 0 <= i < s.len() && s[i] == from ==> #[trigger] map_char(s, from, to)[i] == to,
        from != to ==> !map_char(s, from, to).contains(from),
{
    if from != to && map_char(s, from, to).contains(from) {
        let i = choose|i: int| 0 <= i < map_char(s, from, to).len() && map_char(s, from, to)[i] == from;
        assert(map_char(s, from, to)[i] == if s[i] == from { to } else { s[i] });
    }
}

/// A join starts with its first part.
pub proof fn lemma_join_seqs_prefix(parts: Seq<Seq<char>>, sep: Seq<char>)
    requires
        parts.len() > 0,
    ensures
        join_seqs(parts, sep).len() >= parts[0].len(),
        join_seqs(parts, sep).subrange(0, parts[0].len() as int) == parts[0],
    decreases parts.len(),
{
    if parts.len() > 1 {
        let p = parts.drop_last();
        lemma_join_seqs_prefix(p, sep);
        assert(p[0] == parts[0]);
        let j = join_seqs(p, sep);
        assert((j + sep + parts.last()).subrange(0, parts[0].len() as int) =~= j.subrange(
            0,
            parts[0].len() as int,
        ));
    }
}

} // verus!
