//! Character-level text operations: pattern replacement, joining, and the
//! decimal rendering of integers.
use vstd::prelude::*;

verus! {

/// The text of `s` with every non-overlapping occurrence of `pat`, found from
/// left to right, replaced by `rep`. An empty pattern leaves `s` unchanged.
pub open spec fn replace_all(s: Seq<char>, pat: Seq<char>, rep: Seq<char>) -> Seq<char>
    decreases s.len(),
{
    if pat.len() == 0 || s.len() < pat.len() {
        s
    } else if s.take(pat.len() as int) == pat {
        rep + replace_all(s.skip(pat.len() as int), pat, rep)
    } else {
        seq![s[0]] + replace_all(s.skip(1), pat, rep)
    }
}

/// `pat` occurs in `s` at position `i`.
pub open spec fn occurs_at(s: Seq<char>, pat: Seq<char>, i: int) -> bool {
    0 <= i && i + pat.len() <= s.len() && s.subrange(i, i + pat.len()) == pat
}

/// The characters of a string slice.
#[verifier::external_body]
pub(crate) fn chars_of(s: &str) -> (v: Vec<char>)
    ensures
        v@ == s@,
{
    s.chars().collect()
}

/// The string made of the given characters.
#[verifier::external_body]
pub(crate) fn string_from_chars(v: &Vec<char>) -> (s: String)
    ensures
        s@ == v@,
{
    v.iter().collect()
}

fn occurs_at_exec(s: &Vec<char>, pat: &Vec<char>, i: usize) -> (r: bool)
    requires
        i <= s.len(),
    ensures
        r == occurs_at(s@, pat@, i as int),
{
    if pat.len() > s.len() - i {
        return false;
    }
    let mut j: usize = 0;
    while j < pat.len()
        invariant
            i + pat.len() <= s.len(),
            j <= pat.len(),
            forall|k: int| 0 <= k < j ==> s@[i + k] == pat@[k],
        decreases pat.len() - j,
    {
        if s[i + j] != pat[j] {
            assert(s@.subrange(i as int, i + pat.len())[j as int] != pat@[j as int]);
            return false;
        }
        j = j + 1;
    }
    assert(s@.subrange(i as int, i + pat.len()) =~= pat@);
    true
}

/// Appends `extra` to `out`.
fn push_all(out: &mut Vec<char>, extra: &Vec<char>)
    ensures
        final(out)@ == old(out)@ + extra@,
{
    let mut j: usize = 0;
    while j < extra.len()
        invariant
            j <= extra.len(),
            out@ == old(out)@ + extra@.take(j as int),
        decreases extra.len() - j,
    {
        out.push(extra[j]);
        j = j + 1;
        assert(out@ =~= old(out)@ + extra@.take(j as int));
    }
    assert(extra@.take(extra.len() as int) =~= extra@);
}

proof fn lemma_replace_short(s: Seq<char>, pat: Seq<char>, rep: Seq<char>)
    requires
        s.len() < pat.len(),
    ensures
        replace_all(s, pat, rep) == s,
{
}

/// Replaces every occurrence of `pat` in `s`, scanning from left to right.
pub fn replace_chars(s: &Vec<char>, pat: &Vec<char>, rep: &Vec<char>) -> (r: Vec<char>)
    requires
        pat.len() > 0,
    ensures
        r@ == replace_all(s@, pat@, rep@),
{
    let mut out: Vec<char> = Vec::new();
    let mut i: usize = 0;
    assert(s@.skip(0) =~= s@);
    while i < s.len()
        invariant
            pat.len() > 0,
            i <= s.len(),
            out@ + replace_all(s@.skip(i as int), pat@, rep@) == replace_all(s@, pat@, rep@),
        decreases s.len() - i,
    {
        let ghost rest = s@.skip(i as int);
        if occurs_at_exec(s, pat, i) {
            assert(rest.take(pat.len() as int) =~= s@.subrange(i as int, i + pat.len()));
            assert(rest.skip(pat.len() as int) =~= s@.skip(i + pat.len()));
            push_all(&mut out, rep);
            i = i + pat.len();
            assert(out@ + replace_all(s@.skip(i as int), pat@, rep@) =~= replace_all(
                s@,
                pat@,
                rep@,
            ));
        } else {
            proof {
                if rest.len() >= pat@.len() {
                    assert(rest.take(pat.len() as int) =~= s@.subrange(i as int, i + pat.len()));
                } else {
                    lemma_replace_short(rest, pat@, rep@);
                    lemma_replace_short(rest.skip(1), pat@, rep@);
                }
            }
            assert(rest.skip(1) =~= s@.skip(i + 1));
            out.push(s[i]);
            i = i + 1;
            assert(out@ + replace_all(s@.skip(i as int), pat@, rep@) =~= replace_all(
                s@,
                pat@,
                rep@,
            ));
        }
    }
    assert(s@.skip(i as int) =~= Seq::<char>::empty());
    assert(out@ + Seq::<char>::empty() =~= out@);
    out
}

/// The character of a decimal digit.
pub open spec fn digit_char(d: nat) -> char {
    ((d + 48) as u8) as char
}

/// The decimal notation of `n`, without sign or leading zeros.
pub open spec fn decimal(n: nat) -> Seq<char>
    decreases n,
{
    if n < 10 {
        seq![digit_char(n)]
    } else {
        decimal(n / 10).push(digit_char(n % 10))
    }
}

/// The decimal notation of a signed integer: a minus sign before the digits
/// of a negative one.
pub open spec fn signed_decimal(x: int) -> Seq<char> {
    if x < 0 {
        seq!['-'] + decimal((-x) as nat)
    } else {
        decimal(x as nat)
    }
}

fn push_decimal(n: u64, out: &mut Vec<char>)
    ensures
        final(out)@ == old(out)@ + decimal(n as nat),
    decreases n,
{
    if n >= 10 {
        push_decimal(n / 10, out);
    }
    let d: u8 = (n % 10) as u8;
    out.push((d + 48) as char);
    assert(final(out)@ =~= old(out)@ + decimal(n as nat));
}

/// The decimal notation of `n`.
pub fn u64_to_decimal(n: u64) -> (r: String)
    ensures
        r@ == decimal(n as nat),
{
    let mut out: Vec<char> = Vec::new();
    push_decimal(n, &mut out);
    assert(out@ =~= decimal(n as nat));
    string_from_chars(&out)
}

/// The decimal notation of `x`, with a leading `-` when it is negative.
pub fn i64_to_decimal(x: i64) -> (r: String)
    ensures
        r@ == signed_decimal(x as int),
{
    let mut out: Vec<char> = Vec::new();
    if x < 0 {
        out.push('-');
        let magnitude: u64 = if x == i64::MIN {
            9223372036854775808u64
        } else {
            (-x) as u64
        };
        push_decimal(magnitude, &mut out);
    } else {
        push_decimal(x as u64, &mut out);
    }
    assert(out@ =~= signed_decimal(x as int));
    string_from_chars(&out)
}

/// When the replaced text's prefix `q` holds no character equal to the first
/// character of `rep`, the same prefix stood in the original text.
proof fn lemma_replaced_prefix(t: Seq<char>, pat: Seq<char>, rep: Seq<char>, q: Seq<char>)
    requires
        pat.len() > 0,
        rep.len() > 0,
        forall|k: int| 0 <= k < q.len() ==> #[trigger] q[k] != rep[0],
        q.len() <= replace_all(t, pat, rep).len(),
        replace_all(t, pat, rep).take(q.len() as int) == q,
    ensures
        q.len() <= t.len(),
        t.take(q.len() as int) == q,
    decreases t.len(),
{
    let r = replace_all(t, pat, rep);
    if q.len() == 0 {
        assert(t.take(0) =~= q);
    } else if t.len() < pat.len() {
    } else if t.take(pat.len() as int) == pat {
        assert(r[0] == rep[0]);
        assert(r.take(q.len() as int)[0] == q[0]);
    } else {
        let rest = replace_all(t.skip(1), pat, rep);
        assert(r == seq![t[0]] + rest);
        assert(rest.take(q.len() - 1) =~= q.skip(1)) by {
            assert forall|k: int| 0 <= k < q.len() - 1 implies rest.take(q.len() - 1)[k] == q.skip(1)[k] by {
                assert(r.take(q.len() as int)[k + 1] == q[k + 1]);
            }
        }
        lemma_replaced_prefix(t.skip(1), pat, rep, q.skip(1));
        assert(r.take(q.len() as int)[0] == q[0]);
        assert(t.take(q.len() as int) =~= seq![t[0]] + t.skip(1).take(q.len() - 1));
        assert(seq![t[0]] + q.skip(1) =~= q);
    }
}

/// After the replacement, the pattern occurs nowhere, provided the
/// replacement holds no character equal to the pattern's first one and the
/// rest of the pattern holds no character equal to the replacement's first.
pub proof fn lemma_replace_all_leaves_no_pattern(s: Seq<char>, pat: Seq<char>, rep: Seq<char>)
    requires
        pat.len() > 0,
        rep.len() > 0,
        forall|k: int| 0 <= k < rep.len() ==> #[trigger] rep[k] != pat[0],
        forall|k: int| 1 <= k < pat.len() ==> #[trigger] pat[k] != rep[0],
    ensures
        forall|i: int| !#[trigger] occurs_at(replace_all(s, pat, rep), pat, i),
    decreases s.len(),
{
    let r = replace_all(s, pat, rep);
    if s.len() < pat.len() {
        assert forall|i: int| !#[trigger] occurs_at(r, pat, i) by {}
    } else if s.take(pat.len() as int) == pat {
        let rest = replace_all(s.skip(pat.len() as int), pat, rep);
        lemma_replace_all_leaves_no_pattern(s.skip(pat.len() as int), pat, rep);
        assert forall|i: int| !#[trigger] occurs_at(r, pat, i) by {
            if occurs_at(r, pat, i) {
                if i < rep.len() {
                    assert(r.subrange(i, i + pat.len())[0] == pat[0]);
                    assert(r[i] == rep[i]);
                } else {
                    assert(rest.subrange(i - rep.len(), i - rep.len() + pat.len()) =~= r.subrange(
                        i,
                        i + pat.len(),
                    ));
                    assert(occurs_at(rest, pat, i - rep.len()));
                }
            }
        }
    } else {
        let rest = replace_all(s.skip(1), pat, rep);
        lemma_replace_all_leaves_no_pattern(s.skip(1), pat, rep);
        assert forall|i: int| !#[trigger] occurs_at(r, pat, i) by {
            if occurs_at(r, pat, i) {
                if i == 0 {
                    let q = pat.skip(1);
                    assert(rest.take(q.len() as int) =~= q) by {
                        assert forall|k: int| 0 <= k < q.len() implies rest.take(q.len() as int)[k]
                            == q[k] by {
                            assert(r.subrange(0, pat.len() as int)[k + 1] == pat[k + 1]);
                        }
                    }
                    lemma_replaced_prefix(s.skip(1), pat, rep, q);
                    assert(r.subrange(0, pat.len() as int)[0] == pat[0]);
                    assert(s.take(pat.len() as int) =~= seq![s[0]] + s.skip(1).take(q.len() as int));
                    assert(seq![pat[0]] + q =~= pat);
                } else {
                    assert(rest.subrange(i - 1, i - 1 + pat.len()) =~= r.subrange(i, i + pat.len()));
                    assert(occurs_at(rest, pat, i - 1));
                }
            }
        }
    }
}

/// A text in which the pattern occurs nowhere is left as it is.
pub proof fn lemma_replace_all_without_pattern(s: Seq<char>, pat: Seq<char>, rep: Seq<char>)
    requires
        pat.len() > 0,
        forall|i: int| !#[trigger] occurs_at(s, pat, i),
    ensures
        replace_all(s, pat, rep) == s,
    decreases s.len(),
{
    if s.len() >= pat.len() {
        assert(!occurs_at(s, pat, 0));
        assert(s.subrange(0, pat.len() as int) =~= s.take(pat.len() as int));
        assert forall|i: int| !#[trigger] occurs_at(s.skip(1), pat, i) by {
            if occurs_at(s.skip(1), pat, i) {
                assert(s.subrange(i + 1, i + 1 + pat.len()) =~= s.skip(1).subrange(i, i + pat.len()));
                assert(occurs_at(s, pat, i + 1));
            }
        }
        lemma_replace_all_without_pattern(s.skip(1), pat, rep);
        assert(seq![s[0]] + s.skip(1) =~= s);
    }
}

proof fn lemma_digit_char_injective(a: nat, b: nat)
    requires
        a < 10,
        b < 10,
        digit_char(a) == digit_char(b),
    ensures
        a == b,
{
    let x: u8 = (a + 48) as u8;
    let y: u8 = (b + 48) as u8;
    assert(x as char as u32 == x as u32);
    assert(y as char as u32 == y as u32);
}

proof fn lemma_decimal_nonempty(n: nat)
    ensures
        decimal(n).len() >= 1,
        n >= 10 ==> decimal(n).len() >= 2,
    decreases n,
{
    if n >= 10 {
        lemma_decimal_nonempty(n / 10);
    }
}

/// Different numbers have different decimal notations.
pub proof fn lemma_decimal_injective(a: nat, b: nat)
    requires
        decimal(a) == decimal(b),
    ensures
        a == b,
    decreases a,
{
    lemma_decimal_nonempty(a);
    lemma_decimal_nonempty(b);
    if a < 10 && b < 10 {
        assert(decimal(a)[0] == digit_char(a));
        assert(decimal(b)[0] == digit_char(b));
        lemma_digit_char_injective(a, b);
    } else if a >= 10 && b >= 10 {
        assert(decimal(a).last() == digit_char(a % 10));
        assert(decimal(b).last() == digit_char(b % 10));
        lemma_digit_char_injective(a % 10, b % 10);
        assert(decimal(a / 10) =~= decimal(a).drop_last());
        assert(decimal(b / 10) =~= decimal(b).drop_last());
        lemma_decimal_injective(a / 10, b / 10);
    }
}

} // verus!
