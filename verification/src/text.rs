//! Character-level text operations used by the rest of the library.
use vstd::prelude::*;

verus! {

/// `std::string::String::push`: appends one character to the end of the string.
#[verifier::external_body]
fn push_char(s: &mut String, c: char)
    ensures
        final(s)@ == old(s)@.push(c),
{
    s.push(c);
}

/// The characters of `s`, in order.
pub fn chars_of(s: &str) -> (v: Vec<char>)
    ensures
        v@ == s@,
{
    let mut v: Vec<char> = Vec::new();
    let chars = s.chars();
    for c in it: chars
        invariant
            it.seq() == s@,
            v@ == it.seq().take(it.index() as int),
    {
        v.push(c);
    }
    v
}

/// The string made of the characters of `v`, in order.
pub fn string_of(v: &Vec<char>) -> (s: String)
    ensures
        s@ == v@,
{
    let mut s = String::new();
    for i in 0..v.len()
        invariant
            s@ == v@.take(i as int),
    {
        push_char(&mut s, v[i]);
        assert(v@.take(i + 1) == v@.take(i as int).push(v@[i as int]));
    }
    assert(v@.take(v.len() as int) == v@);
    s
}


/// `s` with every occurrence of `pat` replaced by `rep`, scanning from the left
/// and never letting two replaced occurrences overlap.
pub open spec fn replaced(s: Seq<char>, pat: Seq<char>, rep: Seq<char>) -> Seq<char>
    decreases s.len(),
{
    if s.len() == 0 {
        Seq::empty()
    } else if pat.len() > 0 && pat.len() <= s.len() && s.take(pat.len() as int) == pat {
        rep + replaced(s.skip(pat.len() as int), pat, rep)
    } else {
        seq![s[0]] + replaced(s.skip(1), pat, rep)
    }
}

/// Replacing a pattern whose first character never occurs in `s` leaves `s` as it is.
pub proof fn lemma_replaced_absent(s: Seq<char>, pat: Seq<char>, rep: Seq<char>)
    requires
        pat.len() > 0,
        !s.contains(pat[0]),
    ensures
        replaced(s, pat, rep) == s,
    decreases s.len(),
{
    if s.len() > 0 {
        if pat.len() <= s.len() && s.take(pat.len() as int) == pat {
            assert(s.take(pat.len() as int)[0] == s[0]);
            assert(s.contains(s[0]));
        }
        assert forall|c: char| s.skip(1).contains(c) implies s.contains(c) by {
            let k = choose|k: int| 0 <= k < s.skip(1).len() && s.skip(1)[k] == c;
            assert(s[k + 1] == c);
        }
        lemma_replaced_absent(s.skip(1), pat, rep);
        assert(s =~= seq![s[0]] + s.skip(1));
    }
}

/// Replacing a pattern that occurs nowhere in `s` leaves `s` as it is.
pub proof fn lemma_replaced_no_occurrence(s: Seq<char>, pat: Seq<char>, rep: Seq<char>)
    requires
        pat.len() > 0,
        forall|i: int| !#[trigger] occurs_at(s, i, pat),
    ensures
        replaced(s, pat, rep) == s,
    decreases s.len(),
{
    if s.len() > 0 {
        if pat.len() <= s.len() && s.take(pat.len() as int) == pat {
            assert(s.subrange(0, pat.len() as int) =~= s.take(pat.len() as int));
            assert(occurs_at(s, 0, pat));
        }
        let t = s.skip(1);
        assert forall|i: int| !#[trigger] occurs_at(t, i, pat) by {
            if occurs_at(t, i, pat) {
                assert(s.subrange(i + 1, i + 1 + pat.len()) =~= t.subrange(i, i + pat.len()));
                assert(occurs_at(s, i + 1, pat));
            }
        }
        lemma_replaced_no_occurrence(t, pat, rep);
        assert(s =~= seq![s[0]] + t);
    }
}

/// A text that starts with the pattern has the pattern replaced first.
pub proof fn lemma_replaced_prefix(s: Seq<char>, pat: Seq<char>, rep: Seq<char>)
    requires
        pat.len() > 0,
    ensures
        replaced(pat + s, pat, rep) == rep + replaced(s, pat, rep),
{
    assert((pat + s).take(pat.len() as int) =~= pat);
    assert((pat + s).skip(pat.len() as int) =~= s);
}

/// Text without the pattern's first character, followed by the pattern, has
/// just that last occurrence replaced.
pub proof fn lemma_replaced_suffix(s: Seq<char>, pat: Seq<char>, rep: Seq<char>)
    requires
        pat.len() > 0,
        !s.contains(pat[0]),
    ensures
        replaced(s + pat, pat, rep) == s + rep,
    decreases s.len(),
{
    if s.len() == 0 {
        assert(s + pat =~= pat + Seq::<char>::empty());
        lemma_replaced_prefix(Seq::<char>::empty(), pat, rep);
        assert(replaced(Seq::<char>::empty(), pat, rep) =~= Seq::<char>::empty());
        assert(s + rep =~= rep + Seq::<char>::empty());
    } else {
        let t = s + pat;
        if pat.len() <= t.len() && t.take(pat.len() as int) == pat {
            assert(t.take(pat.len() as int)[0] == s[0]);
            assert(s.contains(s[0]));
        }
        assert forall|c: char| s.skip(1).contains(c) implies s.contains(c) by {
            let k = choose|k: int| 0 <= k < s.skip(1).len() && s.skip(1)[k] == c;
            assert(s[k + 1] == c);
        }
        lemma_replaced_suffix(s.skip(1), pat, rep);
        assert(t.skip(1) =~= s.skip(1) + pat);
        assert(s + rep =~= seq![s[0]] + (s.skip(1) + rep));
    }
}

/// Whether `pat` occurs in `v` starting at position `i`.
pub open spec fn occurs_at(v: Seq<char>, i: int, pat: Seq<char>) -> bool {
    0 <= i && i + pat.len() <= v.len() && v.subrange(i, i + pat.len()) == pat
}

fn matches_at(v: &Vec<char>, i: usize, pat: &Vec<char>) -> (r: bool)
    requires
        i <= v.len(),
    ensures
        r == occurs_at(v@, i as int, pat@),
{
    if pat.len() > v.len() - i {
        return false;
    }
    let mut k: usize = 0;
    while k < pat.len()
        invariant
            i + pat.len() <= v.len(),
            k <= pat.len(),
            forall|j: int| 0 <= j < k ==> v@[i + j] == pat@[j],
        decreases pat.len() - k,
    {
        if v[i + k] != pat[k] {
            assert(v@.subrange(i as int, i + pat.len())[k as int] != pat@[k as int]);
            return false;
        }
        k = k + 1;
    }
    assert(v@.subrange(i as int, i + pat.len()) =~= pat@);
    true
}

/// Replaces every occurrence of `pat` in `s` by `rep`, as `str::replace` does.
pub fn replace_all(s: &str, pat: &str, rep: &str) -> (r: String)
    requires
        pat@.len() > 0,
    ensures
        r@ == replaced(s@, pat@, rep@),
{
    let v = chars_of(s);
    let p = chars_of(pat);
    let q = chars_of(rep);
    let mut out: Vec<char> = Vec::new();
    let mut i: usize = 0;
    assert(v@.skip(0) =~= v@);
    assert(out@ + replaced(v@, p@, q@) =~= replaced(v@, p@, q@));
    while i < v.len()
        invariant
            v@ == s@,
            p@ == pat@,
            q@ == rep@,
            p@.len() > 0,
            i <= v.len(),
            out@ + replaced(v@.skip(i as int), p@, q@) == replaced(v@, p@, q@),
        decreases v.len() - i,
    {
        let ghost rest = v@.skip(i as int);
        let ghost before = out@;
        if matches_at(&v, i, &p) {
            assert(rest.take(p@.len() as int) =~= v@.subrange(i as int, i + p@.len()));
            assert(rest.skip(p@.len() as int) =~= v@.skip(i + p@.len()));
            let mut k: usize = 0;
            while k < q.len()
                invariant
                    k <= q@.len(),
                    out@ == before + q@.take(k as int),
                decreases q.len() - k,
            {
                out.push(q[k]);
                assert(q@.take(k + 1) =~= q@.take(k as int).push(q@[k as int]));
                k = k + 1;
            }
            assert(q@.take(q@.len() as int) =~= q@);
            assert(out@ + replaced(v@.skip(i + p@.len()), p@, q@) =~= before + replaced(rest, p@, q@));
            i = i + p.len();
        } else {
            proof {
                if p@.len() <= rest.len() {
                    assert(rest.take(p@.len() as int) =~= v@.subrange(i as int, i + p@.len()));
                }
            }
            assert(rest.skip(1) =~= v@.skip(i + 1));
            out.push(v[i]);
            assert(out@ + replaced(v@.skip(i + 1), p@, q@) =~= before + replaced(rest, p@, q@));
            i = i + 1;
        }
    }
    assert(v@.skip(i as int) =~= Seq::<char>::empty());
    assert(out@ + replaced(Seq::<char>::empty(), p@, q@) =~= out@);
    string_of(&out)
}

/// Whether `s` ends with `suffix`.
pub open spec fn has_suffix(s: Seq<char>, suffix: Seq<char>) -> bool {
    suffix.len() <= s.len() && s.skip(s.len() - suffix.len()) == suffix
}

/// Whether `s` ends with `suffix`, as `str::ends_with` answers.
pub fn ends_with(s: &str, suffix: &str) -> (r: bool)
    ensures
        r == has_suffix(s@, suffix@),
{
    let v = chars_of(s);
    let p = chars_of(suffix);
    if p.len() > v.len() {
        return false;
    }
    let start = v.len() - p.len();
    let r = matches_at(&v, start, &p);
    assert(v@.subrange(start as int, start + p@.len()) =~= v@.skip(v@.len() - p@.len()));
    r
}

/// The concatenation of three texts.
pub fn concat3(a: &str, b: &str, c: &str) -> (r: String)
    ensures
        r@ == a@ + b@ + c@,
{
    let mut r = String::from_str(a);
    r.append(b);
    r.append(c);
    r
}

} // verus!
