//! Character-sequence utilities: lexicographic ordering of strings,
//! decimal rendering of counters, and line splitting.

use vstd::prelude::*;

verus! {

/// Relies on `str`'s `FromIterator<char>` implementation: collecting an
/// iterator over the vector's characters yields a string whose characters
/// are exactly those of the vector, in order.
#[verifier::external_body]
pub(crate) fn chars_to_string(v: &Vec<char>) -> (s: String)
    ensures
        s@ == v@,
{
    v.iter().collect()
}

/// The decimal digit for one value below ten.
pub open spec fn dec_digit(d: nat) -> char
    recommends
        d < 10,
{
    if d == 0 {
        '0'
    } else if d == 1 {
        '1'
    } else if d == 2 {
        '2'
    } else if d == 3 {
        '3'
    } else if d == 4 {
        '4'
    } else if d == 5 {
        '5'
    } else if d == 6 {
        '6'
    } else if d == 7 {
        '7'
    } else if d == 8 {
        '8'
    } else {
        '9'
    }
}

/// The decimal rendering of a natural number, without leading zeros.
pub open spec fn dec_digits(n: nat) -> Seq<char>
    decreases n,
{
    if n < 10 {
        seq![dec_digit(n)]
    } else {
        dec_digits(n / 10) + seq![dec_digit(n % 10)]
    }
}

fn digit_char(d: usize) -> (c: char)
    requires
        d < 10,
    ensures
        c == dec_digit(d as nat),
{
    if d == 0 {
        '0'
    } else if d == 1 {
        '1'
    } else if d == 2 {
        '2'
    } else if d == 3 {
        '3'
    } else if d == 4 {
        '4'
    } else if d == 5 {
        '5'
    } else if d == 6 {
        '6'
    } else if d == 7 {
        '7'
    } else if d == 8 {
        '8'
    } else {
        '9'
    }
}

/// Appends the decimal rendering of `n` to `out`.
pub fn push_decimal(n: usize, out: &mut Vec<char>)
    ensures
        final(out)@ == old(out)@ + dec_digits(n as nat),
    decreases n,
{
    if n < 10 {
        out.push(digit_char(n));
    } else {
        push_decimal(n / 10, out);
        out.push(digit_char(n % 10));
    }
}

/// Strict lexicographic order on character sequences, by code point.
pub open spec fn chars_lt(a: Seq<char>, b: Seq<char>) -> bool
    decreases a.len(),
{
    if b.len() == 0 {
        false
    } else if a.len() == 0 {
        true
    } else if a[0] != b[0] {
        a[0] < b[0]
    } else {
        chars_lt(a.subrange(1, a.len() as int), b.subrange(1, b.len() as int))
    }
}

/// Reflexive lexicographic order on character sequences.
pub open spec fn chars_le(a: Seq<char>, b: Seq<char>) -> bool {
    chars_lt(a, b) || a == b
}

/// Of two character sequences, exactly one of "less", "equal", "greater"
/// holds.
pub proof fn lemma_chars_lt_trichotomy(a: Seq<char>, b: Seq<char>)
    ensures
        chars_lt(a, b) || chars_lt(b, a) || a == b,
        chars_lt(a, b) ==> !chars_lt(b, a) && a != b,
    decreases a.len(),
{
    if a.len() == 0 && b.len() == 0 {
        assert(a =~= b);
    } else if a.len() > 0 && b.len() > 0 {
        let at = a.subrange(1, a.len() as int);
        let bt = b.subrange(1, b.len() as int);
        lemma_chars_lt_trichotomy(at, bt);
        if a[0] == b[0] && at == bt {
            assert forall|j: int| 0 <= j < a.len() implies a[j] == b[j] by {
                if j > 0 {
                    assert(a[j] == at[j - 1]);
                    assert(b[j] == bt[j - 1]);
                }
            }
            assert(a =~= b);
        }
    } else if a.len() == 0 {
        assert(chars_lt(a, b));
    } else {
        assert(chars_lt(b, a));
    }
}

/// Lexicographic order is transitive.
pub proof fn lemma_chars_lt_transitive(a: Seq<char>, b: Seq<char>, c: Seq<char>)
    requires
        chars_lt(a, b),
        chars_lt(b, c),
    ensures
        chars_lt(a, c),
    decreases a.len(),
{
    if a.len() == 0 {
        assert(b.len() > 0);
        assert(c.len() > 0);
    } else {
        assert(b.len() > 0);
        assert(c.len() > 0);
        let at = a.subrange(1, a.len() as int);
        let bt = b.subrange(1, b.len() as int);
        let ct = c.subrange(1, c.len() as int);
        if a[0] == b[0] && b[0] == c[0] {
            lemma_chars_lt_transitive(at, bt, ct);
        }
    }
}

/// Dropping an equal prefix does not change the lexicographic comparison.
proof fn lemma_chars_lt_skip(a: Seq<char>, b: Seq<char>, i: int)
    requires
        0 <= i <= a.len(),
        i <= b.len(),
        forall|j: int| 0 <= j < i ==> a[j] == b[j],
    ensures
        chars_lt(a, b) == chars_lt(
            a.subrange(i, a.len() as int),
            b.subrange(i, b.len() as int),
        ),
    decreases i,
{
    if i == 0 {
        assert(a.subrange(0, a.len() as int) =~= a);
        assert(b.subrange(0, b.len() as int) =~= b);
    } else {
        let at = a.subrange(1, a.len() as int);
        let bt = b.subrange(1, b.len() as int);
        lemma_chars_lt_skip(at, bt, i - 1);
        assert(at.subrange(i - 1, at.len() as int) =~= a.subrange(i, a.len() as int));
        assert(bt.subrange(i - 1, bt.len() as int) =~= b.subrange(i, b.len() as int));
    }
}

/// Compares two strings in lexicographic code-point order.
pub fn str_lt(a: &str, b: &str) -> (r: bool)
    ensures
        r == chars_lt(a@, b@),
{
    let an = a.unicode_len();
    let bn = b.unicode_len();
    let mut i: usize = 0;
    loop
        invariant
            i <= an,
            i <= bn,
            an == a@.len(),
            bn == b@.len(),
            forall|j: int| 0 <= j < i ==> a@[j] == b@[j],
        ensures
            scan_stop(a@, b@, i as int),
        decreases an - i,
    {
        if i >= an || i >= bn {
            break ;
        }
        let ca = a.get_char(i);
        let cb = b.get_char(i);
        if ca != cb {
            break ;
        }
        i = i + 1;
    }
    proof {
        lemma_chars_lt_skip(a@, b@, i as int);
    }
    if i >= b.unicode_len() {
        false
    } else if i >= a.unicode_len() {
        true
    } else {
        let ca = a.get_char(i);
        let cb = b.get_char(i);
        proof {
            let at = a@.subrange(i as int, a@.len() as int);
            let bt = b@.subrange(i as int, b@.len() as int);
            assert(at[0] == a@[i as int]);
            assert(bt[0] == b@[i as int]);
        }
        ca < cb
    }
}

/// What holds where the comparison scan of `str_lt` stops: an equal prefix,
/// and a difference at the stopping point when both strings continue.
pub open spec fn scan_stop(a: Seq<char>, b: Seq<char>, i: int) -> bool {
    &&& 0 <= i <= a.len()
    &&& i <= b.len()
    &&& (forall|j: int| 0 <= j < i ==> a[j] == b[j])
    &&& (i < a.len() && i < b.len() ==> a[i] != b[i])
}

/// The character sequences of a sequence of strings.
pub open spec fn string_views(s: Seq<String>) -> Seq<Seq<char>> {
    s.map_values(|x: String| x@)
}

/// Strictly increasing in lexicographic order: sorted, without duplicates.
pub open spec fn strictly_sorted(s: Seq<Seq<char>>) -> bool {
    forall|i: int, j: int| 0 <= i < j < s.len() ==> chars_lt(s[i], s[j])
}

/// A strictly sorted sequence is determined by the set of its elements.
pub proof fn lemma_strictly_sorted_canonical(a: Seq<Seq<char>>, b: Seq<Seq<char>>)
    requires
        strictly_sorted(a),
        strictly_sorted(b),
        a.to_set() == b.to_set(),
    ensures
        a == b,
    decreases a.len(),
{
    if a.len() == 0 {
        if b.len() > 0 {
            assert(b.to_set().contains(b[0]));
            assert(a.contains(b[0]));
        }
        assert(a =~= b);
    } else if b.len() == 0 {
        assert(a.to_set().contains(a[0]));
        assert(b.contains(a[0]));
    } else {
        assert(a.to_set().contains(a[0]));
        assert(b.contains(a[0]));
        assert(b.to_set().contains(b[0]));
        assert(a.contains(b[0]));
        let ka = choose|i: int| 0 <= i < a.len() && a[i] == b[0];
        let kb = choose|i: int| 0 <= i < b.len() && b[i] == a[0];
        assert(a[0] == b[0]) by {
            if ka > 0 {
                assert(chars_lt(a[0], a[ka]));
            }
            if kb > 0 {
                assert(chars_lt(b[0], b[kb]));
            }
            lemma_chars_lt_trichotomy(a[0], b[0]);
        }
        let at = a.subrange(1, a.len() as int);
        let bt = b.subrange(1, b.len() as int);
        assert(at.to_set() =~= bt.to_set()) by {
            assert forall|y: Seq<char>| at.to_set().contains(y) implies bt.to_set().contains(
                y,
            ) by {
                lemma_tail_member(a, y);
                lemma_tail_member(b, y);
            }
            assert forall|y: Seq<char>| bt.to_set().contains(y) implies at.to_set().contains(
                y,
            ) by {
                lemma_tail_member(a, y);
                lemma_tail_member(b, y);
            }
        }
        lemma_strictly_sorted_canonical(at, bt);
        assert(a =~= b) by {
            assert forall|i: int| 0 <= i < a.len() implies a[i] == b[i] by {
                if i > 0 {
                    assert(a[i] == at[i - 1]);
                    assert(b[i] == bt[i - 1]);
                }
            }
        }
    }
}

/// In a strictly sorted, non-empty sequence, the tail holds exactly the
/// elements other than the head.
proof fn lemma_tail_member(a: Seq<Seq<char>>, y: Seq<char>)
    requires
        strictly_sorted(a),
        a.len() > 0,
    ensures
        a.subrange(1, a.len() as int).to_set().contains(y) <==> a.to_set().contains(y) && y
            != a[0],
{
    let at = a.subrange(1, a.len() as int);
    if at.to_set().contains(y) {
        let k = choose|i: int| 0 <= i < at.len() && at[i] == y;
        assert(a[k + 1] == y);
        assert(chars_lt(a[0], a[k + 1]));
        lemma_chars_lt_trichotomy(a[0], y);
        assert(a.to_set().contains(y));
    }
    if a.to_set().contains(y) && y != a[0] {
        let k = choose|i: int| 0 <= i < a.len() && a[i] == y;
        assert(k > 0);
        assert(at[k - 1] == y);
        assert(at.to_set().contains(y));
    }
}

/// The element set of a one-element sequence.
pub proof fn lemma_singleton_to_set(x: Seq<char>)
    ensures
        seq![x].to_set() =~= set![x],
{
    let s = seq![x];
    assert(s[0] == x);
    assert(s.contains(x));
    assert forall|y: Seq<char>| s.to_set().contains(y) implies set![x].contains(y) by {
        let k = choose|i: int| 0 <= i < s.len() && s[i] == y;
        assert(k == 0);
    }
}

/// The element set of a two-element sequence.
pub proof fn lemma_pair_to_set(x: Seq<char>, y: Seq<char>)
    ensures
        seq![x, y].to_set() =~= set![x, y],
{
    let s = seq![x, y];
    assert(s[0] == x);
    assert(s[1] == y);
    assert(s.contains(x));
    assert(s.contains(y));
    assert forall|z: Seq<char>| s.to_set().contains(z) implies set![x, y].contains(z) by {
        let k = choose|i: int| 0 <= i < s.len() && s[i] == z;
        assert(k == 0 || k == 1);
    }
}

/// Extending a prefix by one string adds exactly that string's characters
/// to the set of views.
pub proof fn lemma_views_prefix_to_set(s: Seq<String>, i: int)
    requires
        0 <= i < s.len(),
    ensures
        string_views(s.subrange(0, i + 1)).to_set() == string_views(s.subrange(0, i)).to_set()
            .insert(s[i]@),
{
    let short = string_views(s.subrange(0, i));
    let long = string_views(s.subrange(0, i + 1));
    assert(long.to_set() =~= short.to_set().insert(s[i]@)) by {
        assert forall|y: Seq<char>| long.to_set().contains(y) implies short.to_set().insert(
            s[i]@,
        ).contains(y) by {
            let k = choose|k: int| 0 <= k < long.len() && long[k] == y;
            if k < i {
                assert(short[k] == y);
            }
        }
        assert forall|y: Seq<char>| short.to_set().insert(s[i]@).contains(y) implies long.to_set()
            .contains(y) by {
            if y == s[i]@ {
                assert(long[i] == y);
            } else {
                let k = choose|k: int| 0 <= k < short.len() && short[k] == y;
                assert(long[k] == y);
            }
        }
    }
}

/// Inserts `x` into a strictly sorted vector, keeping it sorted; a string
/// already present is not added again.
pub fn insert_sorted_unique(v: &mut Vec<String>, x: String)
    requires
        strictly_sorted(string_views(old(v)@)),
    ensures
        strictly_sorted(string_views(final(v)@)),
        string_views(final(v)@).to_set() == string_views(old(v)@).to_set().insert(x@),
{
    let ghost vs0 = string_views(v@);
    let n = v.len();
    let mut j: usize = 0;
    loop
        invariant
            j <= n,
            n == v@.len(),
            v@ == old(v)@,
            forall|k: int| 0 <= k < j ==> chars_lt(string_views(v@)[k], x@),
        ensures
            j <= n,
            v@ == old(v)@,
            forall|k: int| 0 <= k < j ==> chars_lt(string_views(v@)[k], x@),
            j < n ==> !chars_lt(string_views(v@)[j as int], x@),
        decreases n - j,
    {
        if j == n {
            break ;
        }
        if !str_lt(v[j].as_str(), x.as_str()) {
            break ;
        }
        j = j + 1;
    }
    if j < n {
        let same = x == v[j];
        if same {
            proof {
                assert(string_views(v@)[j as int] == x@);
                assert(string_views(v@).to_set().contains(x@));
                assert(string_views(final(v)@).to_set() =~= string_views(old(v)@).to_set().insert(
                    x@,
                ));
            }
            return ;
        }
    }
    let ghost xv = x@;
    v.insert(j, x);
    proof {
        let vs1 = string_views(v@);
        assert(vs1.len() == vs0.len() + 1);
        assert forall|k: int| 0 <= k < vs1.len() implies vs1[k] == (if k < j {
            vs0[k]
        } else if k == j {
            xv
        } else {
            vs0[k - 1]
        }) by {
            if k < j {
                assert(v@[k] == old(v)@[k]);
            } else if k > j {
                assert(v@[k] == old(v)@[k - 1]);
            }
        }
        assert(strictly_sorted(vs1)) by {
            assert forall|p: int, q: int| 0 <= p < q < vs1.len() implies chars_lt(
                vs1[p],
                vs1[q],
            ) by {
                if j < vs0.len() {
                    lemma_chars_lt_trichotomy(xv, vs0[j as int]);
                }
                if p == j && q > j && q - 1 > j {
                    lemma_chars_lt_transitive(xv, vs0[j as int], vs0[q - 1]);
                }
            }
        }
        assert(vs1.to_set() =~= vs0.to_set().insert(xv)) by {
            assert forall|y: Seq<char>| vs1.to_set().contains(y) implies vs0.to_set().insert(
                xv,
            ).contains(y) by {
                let k = choose|i: int| 0 <= i < vs1.len() && vs1[i] == y;
                if k < j {
                    assert(vs0[k] == y);
                } else if k > j {
                    assert(vs0[k - 1] == y);
                }
            }
            assert forall|y: Seq<char>| vs0.to_set().insert(xv).contains(y) implies vs1.to_set()
                .contains(y) by {
                if y == xv {
                    assert(vs1[j as int] == y);
                } else {
                    let k = choose|i: int| 0 <= i < vs0.len() && vs0[i] == y;
                    if k < j {
                        assert(vs1[k] == y);
                    } else {
                        assert(vs1[k + 1] == y);
                    }
                }
            }
        }
    }
}

/// Whether `c` is a decimal digit.
pub open spec fn is_dec_digit(c: char) -> bool {
    '0' <= c <= '9'
}

/// The numeric value of a digit character.
pub open spec fn digit_val(c: char) -> nat
    recommends
        is_dec_digit(c),
{
    ((c as int) - ('0' as int)) as nat
}

/// The value of a digit string, most significant digit first.
pub open spec fn dec_val(s: Seq<char>) -> nat
    decreases s.len(),
{
    if s.len() == 0 {
        0
    } else {
        dec_val(s.drop_last()) * 10 + digit_val(s.last())
    }
}

/// A canonical decimal numeral: digits only, non-empty, no leading zero.
pub open spec fn canonical_dec(s: Seq<char>) -> bool {
    &&& s.len() > 0
    &&& (forall|i: int| 0 <= i < s.len() ==> is_dec_digit(#[trigger] s[i]))
    &&& (s.len() > 1 ==> s[0] != '0')
}

/// The rendering of a number is its canonical numeral, and evaluates back
/// to the number.
pub proof fn lemma_dec_digits_canonical(n: nat)
    ensures
        canonical_dec(dec_digits(n)),
        dec_val(dec_digits(n)) == n,
        n >= 1 ==> dec_digits(n)[0] != '0',
        n == 0 ==> dec_digits(n) == seq!['0'],
    decreases n,
{
    if n < 10 {
        let s = dec_digits(n);
        assert(s == seq![dec_digit(n)]);
        assert(s.drop_last() =~= Seq::<char>::empty());
        assert(dec_val(Seq::<char>::empty()) == 0);
        assert(s.last() == dec_digit(n));
        assert(digit_val(dec_digit(n)) == n);
    } else {
        lemma_dec_digits_canonical(n / 10);
        let p = dec_digits(n / 10);
        let s = dec_digits(n);
        assert(s == p + seq![dec_digit(n % 10)]);
        assert(s.drop_last() =~= p);
        assert(s.last() == dec_digit(n % 10));
        assert(is_dec_digit(dec_digit(n % 10)));
        assert(digit_val(dec_digit(n % 10)) == n % 10);
        assert(dec_val(s) == (n / 10) * 10 + n % 10);
        assert((n / 10) * 10 + n % 10 == n) by (nonlinear_arith);
        assert(s[0] == p[0]);
    }
}

/// A canonical numeral renders back to itself.
pub proof fn lemma_canonical_dec_digits(s: Seq<char>)
    requires
        canonical_dec(s),
    ensures
        dec_digits(dec_val(s)) == s,
    decreases s.len(),
{
    if s.len() == 1 {
        assert(s.drop_last() =~= Seq::<char>::empty());
        assert(dec_val(Seq::<char>::empty()) == 0);
        assert(s.last() == s[0]);
        assert(dec_val(s) == digit_val(s[0]));
        assert(digit_val(s[0]) < 10);
        assert(dec_digit(digit_val(s[0])) == s[0]);
        assert(dec_digits(dec_val(s)) =~= s);
    } else {
        let p = s.drop_last();
        assert(forall|i: int| 0 <= i < p.len() ==> p[i] == s[i]);
        lemma_canonical_dec_digits(p);
        assert(dec_val(p) >= 1) by {
            if dec_val(p) == 0 {
                assert(dec_digits(0) == seq![dec_digit(0)]);
                assert(p =~= seq!['0']);
                assert(s[0] == '0');
            }
        }
        let v = dec_val(s);
        assert(v == dec_val(p) * 10 + digit_val(s.last()));
        assert(v >= 10) by (nonlinear_arith)
            requires
                v == dec_val(p) * 10 + digit_val(s.last()),
                dec_val(p) >= 1,
        ;
        assert(v / 10 == dec_val(p) && v % 10 == digit_val(s.last())) by (nonlinear_arith)
            requires
                v == dec_val(p) * 10 + digit_val(s.last()),
                digit_val(s.last()) < 10,
        ;
        assert(dec_digits(v) == dec_digits(dec_val(p)) + seq![dec_digit(digit_val(s.last()))]);
        assert(dec_digit(digit_val(s.last())) == s.last());
        assert(dec_digits(v) =~= s);
    }
}

/// A digit string's value is at least the value of any of its prefixes.
proof fn lemma_dec_val_prefix(s: Seq<char>, i: int)
    requires
        0 <= i <= s.len(),
    ensures
        dec_val(s) >= dec_val(s.subrange(0, i)),
    decreases s.len() - i,
{
    if i < s.len() {
        lemma_dec_val_prefix(s, i + 1);
        let p = s.subrange(0, i);
        let q = s.subrange(0, i + 1);
        assert(q.drop_last() =~= p);
        assert(dec_val(q) == dec_val(p) * 10 + digit_val(q.last()));
        assert(dec_val(q) >= dec_val(p)) by (nonlinear_arith)
            requires
                dec_val(q) == dec_val(p) * 10 + digit_val(q.last()),
        ;
    } else {
        assert(s.subrange(0, s.len() as int) =~= s);
    }
}

/// Reads a string as a `u8` written in canonical decimal. `None` means the
/// string is the rendering of no `u8` value.
pub fn parse_u8_decimal(s: &str) -> (r: Option<u8>)
    ensures
        match r {
            Some(n) => s@ == dec_digits(n as nat),
            None => forall|n: u8| s@ != dec_digits(n as nat),
        },
{
    let len = s.unicode_len();
    if len == 0 {
        proof {
            assert forall|n: u8| s@ != dec_digits(n as nat) by {
                lemma_dec_digits_canonical(n as nat);
            }
        }
        return None;
    }
    if len > 1 && s.get_char(0) == '0' {
        proof {
            assert forall|n: u8| s@ != dec_digits(n as nat) by {
                lemma_dec_digits_canonical(n as nat);
            }
        }
        return None;
    }
    let mut acc: u32 = 0;
    let mut i: usize = 0;
    while i < len
        invariant
            i <= len,
            len == s@.len(),
            len > 1 ==> s@[0] != '0',
            acc <= 255,
            forall|j: int| 0 <= j < i ==> is_dec_digit(#[trigger] s@[j]),
            acc as nat == dec_val(s@.subrange(0, i as int)),
        decreases len - i,
    {
        let c = s.get_char(i);
        if c < '0' || c > '9' {
            proof {
                assert(!is_dec_digit(s@[i as int]));
                assert forall|n: u8| s@ != dec_digits(n as nat) by {
                    lemma_dec_digits_canonical(n as nat);
                }
            }
            return None;
        }
        let d: u32 = (c as u32) - ('0' as u32);
        proof {
            assert(d == digit_val(s@[i as int]));
            assert(s@.subrange(0, i + 1).drop_last() =~= s@.subrange(0, i as int));
        }
        acc = acc * 10 + d;
        i = i + 1;
        if acc > 255 {
            proof {
                lemma_dec_val_prefix(s@, i as int);
                assert forall|n: u8| s@ != dec_digits(n as nat) by {
                    lemma_dec_digits_canonical(n as nat);
                }
            }
            return None;
        }
    }
    proof {
        assert(s@.subrange(0, len as int) =~= s@);
        assert(canonical_dec(s@));
        lemma_canonical_dec_digits(s@);
    }
    Some(acc as u8)
}

/// Whether two strings have the same characters.
pub fn str_eq(a: &str, b: &str) -> (r: bool)
    ensures
        r == (a@ == b@),
{
    let an = a.unicode_len();
    let bn = b.unicode_len();
    if an != bn {
        return false;
    }
    let mut i: usize = 0;
    while i < an
        invariant
            i <= an,
            an == a@.len(),
            an == bn,
            bn == b@.len(),
            forall|j: int| 0 <= j < i ==> a@[j] == b@[j],
        decreases an - i,
    {
        let ca = a.get_char(i);
        let cb = b.get_char(i);
        if ca != cb {
            return false;
        }
        i = i + 1;
    }
    proof {
        assert(a@ =~= b@);
    }
    true
}

/// The decimal rendering of a count, as a string.
pub fn decimal_string(n: usize) -> (s: String)
    ensures
        s@ == dec_digits(n as nat),
{
    let mut buf: Vec<char> = Vec::new();
    push_decimal(n, &mut buf);
    chars_to_string(&buf)
}

} // verus!
