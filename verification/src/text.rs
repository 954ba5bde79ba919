//! Small verified helpers on text: characters of a string, building strings
//! character by character, and comparing strings.

use vstd::prelude::*;

verus! {

/// Appends one character to a string (`String::push`).
#[verifier::external_body]
pub(crate) fn push_char(s: &mut String, c: char)
    ensures
        final(s)@ == old(s)@.push(c),
{
    s.push(c);
}

/// The characters of `s`, in order.
pub fn chars_of(s: &str) -> (v: Vec<char>)
    ensures
        v@ == s@,
{
    let mut v: Vec<char> = Vec::new();
    for c in it: s.chars()
        invariant
            it.seq() == s@,
            v@ == s@.take(it.index()),
    {
        v.push(c);
        assert(s@.take(it.index() + 1) == s@.take(it.index()).push(c));
    }
    assert(v@ == s@);
    v
}


/// Appends a string slice.
pub(crate) fn push_str(s: &mut String, t: &str)
    ensures
        final(s)@ == old(s)@ + t@,
{
    s.append(t);
}


/// `p` is a prefix of `s`.
pub open spec fn starts_with(s: Seq<char>, p: Seq<char>) -> bool {
    p.len() <= s.len() && s.take(p.len() as int) == p
}

/// `s` with every leading copy of the non-empty `p` removed, as
/// `str::trim_start_matches` does.
pub open spec fn strip_leading_copies(s: Seq<char>, p: Seq<char>) -> Seq<char>
    decreases s.len(),
{
    if p.len() > 0 && starts_with(s, p) {
        strip_leading_copies(s.skip(p.len() as int), p)
    } else {
        s
    }
}

/// `s` with every match of the non-empty `from` replaced by `to`, matches taken
/// from the left without overlap, as `str::replace` does.
pub open spec fn replace_all(s: Seq<char>, from: Seq<char>, to: Seq<char>) -> Seq<char>
    decreases s.len(),
{
    if s.len() == 0 {
        s
    } else if from.len() > 0 && starts_with(s, from) {
        to + replace_all(s.skip(from.len() as int), from, to)
    } else {
        seq![s[0]] + replace_all(s.skip(1), from, to)
    }
}

/// Whether `s` from position `i` on starts with `p`.
pub fn starts_with_at(s: &Vec<char>, i: usize, p: &Vec<char>) -> (r: bool)
    requires
        i <= s.len(),
    ensures
        r == starts_with(s@.skip(i as int), p@),
{
    if p.len() > s.len() - i {
        return false;
    }
    let mut j: usize = 0;
    while j < p.len()
        invariant
            i + p.len() <= s.len(),
            j <= p.len(),
            forall|k: int| 0 <= k < j ==> s@[i + k] == p@[k],
        decreases p.len() - j,
    {
        if s[i + j] != p[j] {
            assert(s@.skip(i as int).take(p.len() as int)[j as int] != p@[j as int]);
            return false;
        }
        j += 1;
    }
    assert(s@.skip(i as int).take(p.len() as int) =~= p@);
    true
}

/// Whether the two strings hold the same text.
pub fn same_text(a: &str, b: &str) -> (r: bool)
    ensures
        r == (a@ == b@),
{
    let x = chars_of(a);
    let y = chars_of(b);
    if x.len() != y.len() {
        return false;
    }
    let r = starts_with_at(&x, 0, &y);
    assert(x@.skip(0) == x@);
    if r {
        assert(x@.take(y@.len() as int) == x@);
    }
    r
}

/// Whether `s` starts with `p`.
pub fn text_starts_with(s: &str, p: &str) -> (r: bool)
    ensures
        r == starts_with(s@, p@),
{
    let x = chars_of(s);
    let y = chars_of(p);
    assert(x@.skip(0) == x@);
    starts_with_at(&x, 0, &y)
}

/// The first position at or after `i` where `s` no longer starts with `p`
/// when copies of `p` are removed one after another.
pub fn skip_leading_copies(s: &Vec<char>, i: usize, p: &Vec<char>) -> (k: usize)
    requires
        i <= s.len(),
        p.len() > 0,
    ensures
        i <= k <= s.len(),
        s@.skip(k as int) == strip_leading_copies(s@.skip(i as int), p@),
{
    let mut k = i;
    while starts_with_at(s, k, p)
        invariant
            i <= k <= s.len(),
            p.len() > 0,
            strip_leading_copies(s@.skip(k as int), p@) == strip_leading_copies(
                s@.skip(i as int),
                p@,
            ),
        decreases s.len() - k,
    {
        assert(s@.skip(k as int).skip(p.len() as int) =~= s@.skip(k + p.len()));
        k = k + p.len();
    }
    k
}

/// Appends to `out` the text of `s` from position `i` on, with every match of
/// the non-empty `from` replaced by `to`.
pub fn push_replaced(out: &mut String, s: &Vec<char>, i: usize, from: &Vec<char>, to: &str)
    requires
        i <= s.len(),
        from.len() > 0,
    ensures
        final(out)@ == old(out)@ + replace_all(s@.skip(i as int), from@, to@),
{
    let mut j = i;
    while j < s.len()
        invariant
            i <= j <= s.len(),
            from.len() > 0,
            out@ + replace_all(s@.skip(j as int), from@, to@) == old(out)@ + replace_all(
                s@.skip(i as int),
                from@,
                to@,
            ),
        decreases s.len() - j,
    {
        let ghost before = out@;
        if starts_with_at(s, j, from) {
            assert(s@.skip(j as int).skip(from.len() as int) =~= s@.skip(j + from.len()));
            push_str(out, to);
            assert(before + replace_all(s@.skip(j as int), from@, to@) == out@ + replace_all(
                s@.skip(j + from.len()),
                from@,
                to@,
            ));
            j = j + from.len();
        } else {
            assert(s@.skip(j as int).skip(1) =~= s@.skip(j + 1));
            assert(s@.skip(j as int)[0] == s@[j as int]);
            push_char(out, s[j]);
            assert(before + replace_all(s@.skip(j as int), from@, to@) == out@ + replace_all(
                s@.skip(j + 1),
                from@,
                to@,
            ));
            j = j + 1;
        }
    }
    assert(s@.skip(j as int).len() == 0);
    assert(out@ + replace_all(s@.skip(j as int), from@, to@) == out@);
}

} // verus!
