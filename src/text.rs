use vstd::prelude::*;

verus! {

/// `s` with every non-overlapping occurrence of `pat`, scanned left to right,
/// replaced by `rep`. An empty `pat` matches before every character and at
/// the end.
pub open spec fn replace_all(s: Seq<char>, pat: Seq<char>, rep: Seq<char>) -> Seq<char>
    decreases s.len(),
{
    if pat.len() == 0 {
        if s.len() == 0 {
            rep
        } else {
            rep + seq![s[0]] + replace_all(s.drop_first(), pat, rep)
        }
    } else if s.len() >= pat.len() && s.take(pat.len() as int) == pat {
        rep + replace_all(s.skip(pat.len() as int), pat, rep)
    } else if s.len() == 0 {
        s
    } else {
        seq![s[0]] + replace_all(s.drop_first(), pat, rep)
    }
}

/// The substitutions applied in order, each to the result of the ones before.
pub open spec fn apply_substitutions(s: Seq<char>, subs: Seq<(Seq<char>, Seq<char>)>) -> Seq<char>
    decreases subs.len(),
{
    if subs.len() == 0 {
        s
    } else {
        let prev = apply_substitutions(s, subs.drop_last());
        replace_all(prev, subs.last().0, subs.last().1)
    }
}

/// The character sequences of a list of (search, replace) pairs.
pub open spec fn substitutions_view(subs: Seq<(String, String)>) -> Seq<(Seq<char>, Seq<char>)> {
    subs.map_values(|p: (String, String)| (p.0@, p.1@))
}

/// Relies on `str::chars` collected into a `Vec`: the string's characters in order.
#[verifier::external_body]
fn chars_of(s: &str) -> (r: Vec<char>)
    ensures
        r@ == s@,
{
    s.chars().collect()
}

/// Relies on collecting characters into a `String`: the same characters in order.
#[verifier::external_body]
pub(crate) fn string_of(v: &Vec<char>) -> (r: String)
    ensures
        r@ == v@,
{
    v.iter().collect()
}

fn push_all(out: &mut Vec<char>, src: &Vec<char>)
    ensures
        final(out)@ == old(out)@ + src@,
{
    let mut j: usize = 0;
    while j < src.len()
        invariant
            j <= src@.len(),
            out@ == old(out)@ + src@.take(j as int),
        decreases src@.len() - j,
    {
        out.push(src[j]);
        j = j + 1;
        assert(src@.take(j as int) == src@.take(j - 1) + seq![src@[j - 1]]);
    }
    assert(src@.take(src@.len() as int) == src@);
}

/// Whether `pat` occurs in `s` at position `i`.
fn occurs_at(s: &Vec<char>, i: usize, pat: &Vec<char>) -> (r: bool)
    requires
        i <= s@.len(),
    ensures
        r == (s@.len() - i >= pat@.len() && s@.subrange(i as int, i + pat@.len()) == pat@),
{
    let n = s.len();
    if n - i < pat.len() {
        return false;
    }
    let mut j: usize = 0;
    while j < pat.len()
        invariant
            n == s@.len(),
            j <= pat@.len(),
            i <= s@.len(),
            i + pat@.len() <= s@.len(),
            forall|k: int| 0 <= k < j ==> s@[i + k] == pat@[k],
        decreases pat@.len() - j,
    {
        if s[i + j] != pat[j] {
            assert(s@.subrange(i as int, i + pat@.len())[j as int] != pat@[j as int]);
            return false;
        }
        j = j + 1;
    }
    assert(s@.subrange(i as int, i + pat@.len()) == pat@);
    true
}

/// Replaces every non-overlapping occurrence of `pat` in `s` by `rep`.
pub fn replace_chars(s: &Vec<char>, pat: &Vec<char>, rep: &Vec<char>) -> (r: Vec<char>)
    ensures
        r@ == replace_all(s@, pat@, rep@),
{
    let mut out: Vec<char> = Vec::new();
    let mut i: usize = 0;
    let n = s.len();
    assert(s@.skip(0) == s@);
    assert(out@ + replace_all(s@, pat@, rep@) == replace_all(s@, pat@, rep@));
    if pat.len() == 0 {
        while i < n
            invariant
                n == s@.len(),
                i <= n,
                pat@.len() == 0,
                out@ + replace_all(s@.skip(i as int), pat@, rep@) == replace_all(s@, pat@, rep@),
            decreases n - i,
        {
            let ghost t = s@.skip(i as int);
            assert(t.drop_first() == s@.skip(i + 1));
            push_all(&mut out, rep);
            out.push(s[i]);
            i = i + 1;
            assert(out@ + replace_all(s@.skip(i as int), pat@, rep@) == replace_all(s@, pat@, rep@));
        }
        push_all(&mut out, rep);
        assert(s@.skip(i as int).len() == 0);
    } else {
        while i < n
            invariant
                n == s@.len(),
                i <= n,
                pat@.len() > 0,
                out@ + replace_all(s@.skip(i as int), pat@, rep@) == replace_all(s@, pat@, rep@),
            decreases n - i,
        {
            let ghost t = s@.skip(i as int);
            if occurs_at(s, i, pat) {
                assert(t.take(pat@.len() as int) == s@.subrange(i as int, i + pat@.len()));
                assert(t.skip(pat@.len() as int) == s@.skip(i + pat@.len()));
                push_all(&mut out, rep);
                i = i + pat.len();
            } else {
                assert(t.len() >= pat@.len() ==> t.take(pat@.len() as int) == s@.subrange(i as int, i + pat@.len()));
                assert(t.drop_first() == s@.skip(i + 1));
                out.push(s[i]);
                i = i + 1;
                assert(out@ + replace_all(s@.skip(i as int), pat@, rep@) == replace_all(s@, pat@, rep@));
            }
        }
        assert(s@.skip(i as int).len() == 0);
    }
    out
}

/// Applies the (search, replace) pairs in order to `source`, each to the
/// accumulated result, replacing every non-overlapping occurrence.
pub fn apply_replacements(source: &str, replacements: &Vec<(String, String)>) -> (r: String)
    ensures
        r@ == apply_substitutions(source@, substitutions_view(replacements@)),
{
    let mut cur = chars_of(source);
    let mut i: usize = 0;
    let ghost subs = substitutions_view(replacements@);
    while i < replacements.len()
        invariant
            i <= replacements@.len(),
            subs == substitutions_view(replacements@),
            cur@ == apply_substitutions(source@, subs.take(i as int)),
        decreases replacements@.len() - i,
    {
        let pat = chars_of(replacements[i].0.as_str());
        let rep = chars_of(replacements[i].1.as_str());
        cur = replace_chars(&cur, &pat, &rep);
        assert(subs.take(i + 1).drop_last() == subs.take(i as int));
        i = i + 1;
    }
    assert(subs.take(i as int) == subs);
    string_of(&cur)
}

} // verus!
