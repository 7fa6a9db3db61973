//! Text utilities on character sequences: pattern replacement and the
//! lexicographic order of strings, each with an executable version.
use vstd::prelude::*;
use vstd::string::*;

verus! {

/// The texts of a sequence of strings.
pub open spec fn texts(s: Seq<String>) -> Seq<Seq<char>> {
    s.map_values(|x: String| x@)
}

/// The text of an optional string.
pub open spec fn opt_text(s: Option<String>) -> Option<Seq<char>> {
    match s {
        Some(t) => Some(t@),
        None => None,
    }
}


/// `s` with every non-overlapping occurrence of `pat` replaced by `rep`,
/// scanning from the left (the behaviour of `str::replace` for a non-empty
/// pattern).
pub open spec fn replace_all(s: Seq<char>, pat: Seq<char>, rep: Seq<char>) -> Seq<char>
    decreases s.len(),
{
    if s.len() == 0 {
        Seq::empty()
    } else if 0 < pat.len() <= s.len() && s.take(pat.len() as int) == pat {
        rep + replace_all(s.skip(pat.len() as int), pat, rep)
    } else {
        seq![s[0]] + replace_all(s.skip(1), pat, rep)
    }
}

/// Strict lexicographic order of strings, by code point (the order of
/// `str`'s `Ord`, since UTF-8 preserves code point order).
pub open spec fn text_lt(a: Seq<char>, b: Seq<char>) -> bool
    decreases a.len(),
{
    if a.len() == 0 {
        b.len() > 0
    } else if b.len() == 0 {
        false
    } else if a[0] < b[0] {
        true
    } else if a[0] == b[0] {
        text_lt(a.skip(1), b.skip(1))
    } else {
        false
    }
}

/// No string is below itself.
pub proof fn lemma_text_lt_irreflexive(a: Seq<char>)
    ensures
        !text_lt(a, a),
    decreases a.len(),
{
    if a.len() > 0 {
        lemma_text_lt_irreflexive(a.skip(1));
    }
}

/// The order is transitive.
pub proof fn lemma_text_lt_transitive(a: Seq<char>, b: Seq<char>, c: Seq<char>)
    requires
        text_lt(a, b),
        text_lt(b, c),
    ensures
        text_lt(a, c),
    decreases a.len(),
{
    if a.len() > 0 && b.len() > 0 && c.len() > 0 {
        if a[0] == b[0] && b[0] == c[0] {
            lemma_text_lt_transitive(a.skip(1), b.skip(1), c.skip(1));
        }
    }
}

/// Two different strings are ordered one way or the other.
pub proof fn lemma_text_lt_total(a: Seq<char>, b: Seq<char>)
    requires
        a != b,
    ensures
        text_lt(a, b) || text_lt(b, a),
    decreases a.len(),
{
    if a.len() > 0 && b.len() > 0 {
        if a[0] == b[0] {
            if a.skip(1) == b.skip(1) {
                assert(a =~= seq![a[0]] + a.skip(1));
                assert(b =~= seq![b[0]] + b.skip(1));
            }
            lemma_text_lt_total(a.skip(1), b.skip(1));
        }
    } else if a.len() == 0 && b.len() == 0 {
        assert(a =~= b);
    }
}

/// Every string comes strictly before the ones after it.
#[verifier::opaque]
pub open spec fn strictly_sorted(s: Seq<Seq<char>>) -> bool {
    forall|i: int, j: int| 0 <= i < j < s.len() ==> text_lt(#[trigger] s[i], #[trigger] s[j])
}

/// Inserting `x` at the position where it fits keeps a sequence sorted.
pub proof fn lemma_insert_sorted(s: Seq<Seq<char>>, p: int, x: Seq<char>)
    requires
        strictly_sorted(s),
        0 <= p <= s.len(),
        forall|q: int| 0 <= q < p ==> !text_lt(x, #[trigger] s[q]),
        forall|q: int| 0 <= q < s.len() ==> #[trigger] s[q] != x,
        p < s.len() ==> text_lt(x, s[p]),
    ensures
        strictly_sorted(s.insert(p, x)),
{
    reveal(strictly_sorted);
    let t = s.insert(p, x);
    assert forall|i: int, j: int| 0 <= i < j < t.len() implies text_lt(#[trigger] t[i], #[trigger] t[j]) by {
        if j < p {
            assert(t[i] == s[i] && t[j] == s[j]);
        } else if j == p {
            assert(t[i] == s[i]);
            lemma_text_lt_total(s[i], x);
        } else if i == p {
            assert(t[j] == s[j - 1]);
            if p < j - 1 {
                lemma_text_lt_transitive(x, s[p], s[j - 1]);
            }
        } else if i < p {
            assert(t[i] == s[i] && t[j] == s[j - 1]);
        } else {
            assert(t[i] == s[i - 1] && t[j] == s[j - 1]);
        }
    }
}

/// The characters of a string slice.
pub fn chars_of(s: &str) -> (v: Vec<char>)
    ensures
        v@ == s@,
{
    let n = s.unicode_len();
    let mut v: Vec<char> = Vec::new();
    let mut i: usize = 0;
    while i < n
        invariant
            n == s@.len(),
            i <= n,
            v@ == s@.subrange(0, i as int),
        decreases n - i,
    {
        v.push(s.get_char(i));
        i = i + 1;
        assert(v@ =~= s@.subrange(0, i as int));
    }
    assert(v@ =~= s@);
    v
}

/// Whether `pat` occurs in `text` at position `i`.
fn occurs_at(text: &Vec<char>, pat: &Vec<char>, i: usize) -> (b: bool)
    requires
        i <= text@.len(),
    ensures
        b == (i + pat@.len() <= text@.len() && text@.subrange(i as int, i + pat@.len()) == pat@),
{
    let m = pat.len();
    if m > text.len() - i {
        return false;
    }
    let mut j: usize = 0;
    while j < m
        invariant
            m == pat@.len(),
            i + m <= text.len(),
            j <= m,
            forall|k: int| 0 <= k < j ==> text@[i + k] == pat@[k],
        decreases m - j,
    {
        if text[i + j] != pat[j] {
            assert(text@.subrange(i as int, i + m)[j as int] != pat@[j as int]);
            return false;
        }
        j = j + 1;
    }
    assert(text@.subrange(i as int, i + m) =~= pat@);
    true
}

/// Replaces every non-overlapping occurrence of `pat` in `s` by `rep`.
pub fn replace_str(s: &str, pat: &str, rep: &str) -> (r: String)
    requires
        pat@.len() > 0,
    ensures
        r@ == replace_all(s@, pat@, rep@),
{
    let sv = chars_of(s);
    let pv = chars_of(pat);
    let n = sv.len();
    let m = pv.len();
    let mut out = String::new();
    let mut seg: usize = 0;
    let mut i: usize = 0;
    proof {
        assert(s@.skip(0) =~= s@);
        assert(out@ + s@.subrange(0, 0) =~= Seq::<char>::empty());
        assert(Seq::<char>::empty() + replace_all(s@, pat@, rep@) =~= replace_all(s@, pat@, rep@));
    }
    while i < n
        invariant
            sv@ == s@,
            pv@ == pat@,
            n == s@.len(),
            m == pat@.len(),
            m > 0,
            seg <= i <= n,
            out@ + s@.subrange(seg as int, i as int) + replace_all(s@.skip(i as int), pat@, rep@)
                == replace_all(s@, pat@, rep@),
        decreases n - i,
    {
        let ghost t = s@.skip(i as int);
        if occurs_at(&sv, &pv, i) {
            proof {
                assert(t.take(m as int) =~= s@.subrange(i as int, i + m));
                assert(t.skip(m as int) =~= s@.skip(i + m));
                assert(replace_all(t, pat@, rep@) == rep@ + replace_all(s@.skip(i + m), pat@, rep@));
            }
            let ghost old_out = out@;
            out.append(s.substring_char(seg, i));
            out.append(rep);
            proof {
                let tail = replace_all(s@.skip(i + m), pat@, rep@);
                assert(s@.subrange((i + m) as int, (i + m) as int) =~= Seq::<char>::empty());
                assert(out@ =~= old_out + s@.subrange(seg as int, i as int) + rep@);
                assert(out@ + s@.subrange((i + m) as int, (i + m) as int) + tail =~= old_out
                    + s@.subrange(seg as int, i as int) + (rep@ + tail));
            }
            i = i + m;
            seg = i;
        } else {
            proof {
                if 0 < m <= t.len() {
                    assert(t.take(m as int) =~= s@.subrange(i as int, i + m));
                }
                assert(t.skip(1) =~= s@.skip(i + 1));
                let tail = replace_all(s@.skip(i + 1), pat@, rep@);
                assert(replace_all(t, pat@, rep@) == seq![s@[i as int]] + tail);
                assert(s@.subrange(seg as int, i + 1) =~= s@.subrange(seg as int, i as int) + seq![
                    s@[i as int],
                ]);
                assert(out@ + s@.subrange(seg as int, i + 1) + tail =~= out@ + s@.subrange(
                    seg as int,
                    i as int,
                ) + (seq![s@[i as int]] + tail));
            }
            i = i + 1;
        }
    }
    proof {
        assert(s@.skip(n as int) =~= Seq::<char>::empty());
        assert(replace_all(s@.skip(n as int), pat@, rep@) =~= Seq::<char>::empty());
    }
    let ghost before = out@;
    out.append(s.substring_char(seg, n));
    proof {
        assert(out@ =~= before + s@.subrange(seg as int, n as int) + Seq::<char>::empty());
    }
    out
}

/// Whether two strings are equal.
pub fn str_eq(a: &str, b: &str) -> (r: bool)
    ensures
        r == (a@ == b@),
{
    let av = chars_of(a);
    let bv = chars_of(b);
    if av.len() != bv.len() {
        return false;
    }
    let mut i: usize = 0;
    while i < av.len()
        invariant
            av@ == a@,
            bv@ == b@,
            a@.len() == b@.len(),
            i <= a@.len(),
            forall|k: int| 0 <= k < i ==> a@[k] == b@[k],
        decreases a@.len() - i,
    {
        if av[i] != bv[i] {
            return false;
        }
        i = i + 1;
    }
    assert(a@ =~= b@);
    true
}

/// Whether `a` comes strictly before `b`.
pub fn str_lt(a: &str, b: &str) -> (r: bool)
    ensures
        r == text_lt(a@, b@),
{
    let av = chars_of(a);
    let bv = chars_of(b);
    let mut i: usize = 0;
    proof {
        assert(a@.skip(0) =~= a@);
        assert(b@.skip(0) =~= b@);
    }
    while i < av.len() && i < bv.len()
        invariant
            av@ == a@,
            bv@ == b@,
            i <= a@.len(),
            i <= b@.len(),
            text_lt(a@, b@) == text_lt(a@.skip(i as int), b@.skip(i as int)),
        decreases a@.len() - i,
    {
        let x = av[i];
        let y = bv[i];
        proof {
            assert(a@.skip(i as int)[0] == x);
            assert(b@.skip(i as int)[0] == y);
            assert(a@.skip(i as int).skip(1) =~= a@.skip(i + 1));
            assert(b@.skip(i as int).skip(1) =~= b@.skip(i + 1));
        }
        if x < y {
            return true;
        }
        if x != y {
            return false;
        }
        i = i + 1;
    }
    proof {
        assert(a@.skip(i as int).len() == a@.len() - i);
        assert(b@.skip(i as int).len() == b@.len() - i);
    }
    i < bv.len()
}

/// Copies a string.
pub fn copy_string(s: &String) -> (r: String)
    ensures
        r@ == s@,
{
    String::from_str(s.as_str())
}

/// Whether `needle` occurs somewhere in `hay`.
pub open spec fn contains_text(hay: Seq<char>, needle: Seq<char>) -> bool {
    exists|i: int| 0 <= i && i + needle.len() <= hay.len() && #[trigger] hay.subrange(i, i + needle.len()) == needle
}

/// Whether `needle` occurs somewhere in `hay`, as `str::contains` answers.
pub fn str_contains(hay: &str, needle: &str) -> (r: bool)
    ensures
        r == contains_text(hay@, needle@),
{
    let hv = chars_of(hay);
    let nv = chars_of(needle);
    let mut i: usize = 0;
    loop
        invariant
            hv@ == hay@,
            nv@ == needle@,
            i <= hv@.len(),
            forall|k: int| 0 <= k < i && k + needle@.len() <= hay@.len() ==> #[trigger] hay@.subrange(k, k + needle@.len()) != needle@,
        decreases hv@.len() - i,
    {
        if occurs_at(&hv, &nv, i) {
            return true;
        }
        if i == hv.len() {
            return false;
        }
        i = i + 1;
    }
}

/// The lower-case form of a text, as `str::to_lowercase` gives it.
pub uninterp spec fn lowercase(s: Seq<char>) -> Seq<char>;

/// Calls `str::to_lowercase`, whose result (Unicode's lower-case mapping,
/// the same for every locale) depends on the text alone.
#[verifier::external_body]
pub(crate) fn to_lowercase(s: &str) -> (r: String)
    ensures
        r@ == lowercase(s@),
{
    s.to_lowercase()
}

} // verus!
