//! Text helpers over `str`/`String`, specified on their character views.

use vstd::prelude::*;

verus! {

/// Unicode `White_Space`, the property that `char::is_whitespace` tests.
pub open spec fn is_space(c: char) -> bool {
    let u = c as u32;
    ||| 0x09 <= u <= 0x0d
    ||| u == 0x20
    ||| u == 0x85
    ||| u == 0xa0
    ||| u == 0x1680
    ||| 0x2000 <= u <= 0x200a
    ||| u == 0x2028
    ||| u == 0x2029
    ||| u == 0x202f
    ||| u == 0x205f
    ||| u == 0x3000
}

/// The characters of `s` after its leading white space.
pub open spec fn trim_front(s: Seq<char>) -> Seq<char>
    decreases s.len(),
{
    if s.len() > 0 && is_space(s[0]) {
        trim_front(s.drop_first())
    } else {
        s
    }
}

/// The characters of `s` before its trailing white space.
pub open spec fn trim_back(s: Seq<char>) -> Seq<char>
    decreases s.len(),
{
    if s.len() > 0 && is_space(s.last()) {
        trim_back(s.drop_last())
    } else {
        s
    }
}

/// What `str::trim` leaves of `s`.
pub open spec fn trimmed(s: Seq<char>) -> Seq<char> {
    trim_back(trim_front(s))
}

/// Whether `c` is white space, as `char::is_whitespace` decides it.
pub fn is_whitespace(c: char) -> (b: bool)
    ensures
        b == is_space(c),
{
    let u: u32 = c as u32;
    (0x09 <= u && u <= 0x0d) || u == 0x20 || u == 0x85 || u == 0xa0 || u == 0x1680 || (0x2000
        <= u && u <= 0x200a) || u == 0x2028 || u == 0x2029 || u == 0x202f || u == 0x205f || u
        == 0x3000
}

proof fn lemma_trim_front_skip(s: Seq<char>, i: int)
    requires
        0 <= i < s.len(),
        is_space(s[i]),
    ensures
        trim_front(s.skip(i)) == trim_front(s.skip(i + 1)),
{
    assert(s.skip(i).drop_first() =~= s.skip(i + 1));
}

proof fn lemma_trim_back_take(s: Seq<char>, j: int)
    requires
        0 < j <= s.len(),
        is_space(s[j - 1]),
    ensures
        trim_back(s.take(j)) == trim_back(s.take(j - 1)),
{
    assert(s.take(j).drop_last() =~= s.take(j - 1));
}

/// `s` without its leading and trailing white space, as `str::trim` gives it.
pub fn trim(s: &str) -> (r: String)
    ensures
        r@ == trimmed(s@),
{
    let n: usize = s.unicode_len();
    let mut a: usize = 0;
    proof {
        assert(s@.skip(0) =~= s@);
    }
    while a < n && is_whitespace(s.get_char(a))
        invariant
            n == s@.len(),
            a <= n,
            trim_front(s@) == trim_front(s@.skip(a as int)),
        decreases n - a,
    {
        proof {
            lemma_trim_front_skip(s@, a as int);
        }
        a = a + 1;
    }
    let ghost front = s@.skip(a as int);
    assert(trim_front(front) == front);
    let mut b: usize = n;
    proof {
        assert(front.take(front.len() as int) =~= front);
    }
    while b > a && is_whitespace(s.get_char(b - 1))
        invariant
            n == s@.len(),
            a <= b <= n,
            front == s@.skip(a as int),
            trim_back(front) == trim_back(front.take(b - a)),
        decreases b,
    {
        proof {
            assert(front[b - a - 1] == s@[b - 1]);
            lemma_trim_back_take(front, b - a);
        }
        b = b - 1;
    }
    let ghost kept = front.take(b - a);
    assert(trim_back(kept) == kept);
    let t = s.substring_char(a, b);
    assert(t@ =~= kept);
    String::from_str(t)
}

} // verus!

verus! {

/// The text `a` followed by `b`.
pub fn concat2(a: &str, b: &str) -> (r: String)
    ensures
        r@ == a@ + b@,
{
    let mut r = String::from_str(a);
    r.append(b);
    r
}

/// The text `a`, then `b`, then `c`.
pub fn concat3(a: &str, b: &str, c: &str) -> (r: String)
    ensures
        r@ == a@ + b@ + c@,
{
    let mut r = String::from_str(a);
    r.append(b);
    r.append(c);
    r
}

/// The text `a`, then `b`, then `c`, then `d`.
pub fn concat4(a: &str, b: &str, c: &str, d: &str) -> (r: String)
    ensures
        r@ == a@ + b@ + c@ + d@,
{
    let mut r = concat3(a, b, c);
    r.append(d);
    r
}

/// Whether two texts are the same characters.
pub fn same_text(a: &str, b: &str) -> (r: bool)
    ensures
        r == (a@ == b@),
{
    let x = String::from_str(a);
    let y = String::from_str(b);
    x == y
}

} // verus!

verus! {

/// `s.push(c)`.
#[verifier::external_body]
pub fn push_char(s: &mut String, c: char)
    ensures
        final(s)@ == old(s)@.push(c),
{
    s.push(c);
}

/// The decimal digit `d`.
pub open spec fn digit_char(d: nat) -> char {
    (48 + d) as char
}

/// The decimal digits of `n`, most significant first, without leading zeros.
pub open spec fn digits(n: nat) -> Seq<char>
    decreases n,
{
    if n < 10 {
        seq![digit_char(n)]
    } else {
        digits(n / 10).push(digit_char(n % 10))
    }
}

/// How `i64` (and any integer) `Display`s: a minus sign where it is
/// negative, then the digits of its magnitude.
pub open spec fn decimal(i: int) -> Seq<char> {
    if i < 0 {
        seq!['-'] + digits((-i) as nat)
    } else {
        digits(i as nat)
    }
}

fn push_digits(s: &mut String, n: u64)
    ensures
        final(s)@ == old(s)@ + digits(n as nat),
    decreases n,
{
    if n >= 10 {
        push_digits(s, n / 10);
    }
    let d: u8 = (n % 10) as u8;
    let c = (48u8 + d) as char;
    assert(c == digit_char((n % 10) as nat));
    push_char(s, c);
    proof {
        if n < 10 {
            assert(old(s)@ + digits(n as nat) =~= old(s)@.push(c));
        } else {
            assert(old(s)@ + digits(n as nat) =~= (old(s)@ + digits((n / 10) as nat)).push(c));
        }
    }
}

/// The decimal text of `i`, as `format!("{}", i)` writes it.
pub fn i64_to_decimal(i: i64) -> (r: String)
    ensures
        r@ == decimal(i as int),
{
    let mut r = String::new();
    if i < 0 {
        push_char(&mut r, '-');
        let wide: i128 = i as i128;
        let mag: u64 = (-wide) as u64;
        push_digits(&mut r, mag);
        assert(r@ =~= seq!['-'] + digits((-i) as nat));
    } else {
        push_digits(&mut r, i as u64);
        assert(r@ =~= digits(i as nat));
    }
    r
}

} // verus!

verus! {

proof fn lemma_digits_nonempty(n: nat)
    ensures
        digits(n).len() >= 1,
        digits(n)[0] != '-',
    decreases n,
{
    if n >= 10 {
        lemma_digits_nonempty(n / 10);
    }
}

proof fn lemma_digit_char_injective(a: nat, b: nat)
    requires
        a < 10,
        b < 10,
        digit_char(a) == digit_char(b),
    ensures
        a == b,
{
    assert((48 + a) as char as u32 == 48 + a);
    assert((48 + b) as char as u32 == 48 + b);
}

proof fn lemma_digits_injective(a: nat, b: nat)
    requires
        digits(a) == digits(b),
    ensures
        a == b,
    decreases a + b,
{
    lemma_digits_nonempty(a);
    lemma_digits_nonempty(b);
    if a < 10 && b < 10 {
        lemma_digit_char_injective(a, b);
    } else if a >= 10 && b >= 10 {
        lemma_digits_nonempty(a / 10);
        lemma_digits_nonempty(b / 10);
        assert(digits(a).drop_last() =~= digits(a / 10));
        assert(digits(b).drop_last() =~= digits(b / 10));
        lemma_digits_injective(a / 10, b / 10);
        assert(digits(a).last() == digit_char(a % 10));
        assert(digits(b).last() == digit_char(b % 10));
        lemma_digit_char_injective(a % 10, b % 10);
    } else if a < 10 {
        lemma_digits_nonempty(b / 10);
        assert(digits(b).len() >= 2);
    } else {
        lemma_digits_nonempty(a / 10);
        assert(digits(a).len() >= 2);
    }
}

/// Law: different integers are written as different decimal texts.
pub proof fn lemma_decimal_injective(a: int, b: int)
    requires
        decimal(a) == decimal(b),
    ensures
        a == b,
{
    if a < 0 && b < 0 {
        assert(decimal(a).drop_first() =~= digits((-a) as nat));
        assert(decimal(b).drop_first() =~= digits((-b) as nat));
        lemma_digits_injective((-a) as nat, (-b) as nat);
    } else if a >= 0 && b >= 0 {
        lemma_digits_injective(a as nat, b as nat);
    } else if a < 0 {
        lemma_digits_nonempty(b as nat);
        assert(decimal(a)[0] == '-');
    } else {
        lemma_digits_nonempty(a as nat);
        assert(decimal(b)[0] == '-');
    }
}

} // verus!

verus! {

proof fn lemma_trim_front_shape(s: Seq<char>)
    ensures
        exists|k: int| 0 <= k <= s.len() && trim_front(s) == #[trigger] s.skip(k),
        trim_front(s).len() > 0 ==> !is_space(trim_front(s)[0]),
    decreases s.len(),
{
    if s.len() > 0 && is_space(s[0]) {
        lemma_trim_front_shape(s.drop_first());
        let k = choose|k: int|
            0 <= k <= s.drop_first().len() && trim_front(s.drop_first())
                == #[trigger] s.drop_first().skip(k);
        assert(s.drop_first().skip(k) =~= s.skip(k + 1));
    } else {
        assert(s.skip(0) =~= s);
    }
}

proof fn lemma_trim_back_shape(s: Seq<char>)
    ensures
        exists|k: int| 0 <= k <= s.len() && trim_back(s) == #[trigger] s.take(k),
        trim_back(s).len() > 0 ==> !is_space(trim_back(s).last()),
    decreases s.len(),
{
    if s.len() > 0 && is_space(s.last()) {
        lemma_trim_back_shape(s.drop_last());
        let k = choose|k: int|
            0 <= k <= s.drop_last().len() && trim_back(s.drop_last())
                == #[trigger] s.drop_last().take(k);
        assert(s.drop_last().take(k) =~= s.take(k));
    } else {
        assert(s.take(s.len() as int) =~= s);
    }
}

/// Law: a trimmed text neither starts nor ends with white space, and
/// trimming it again leaves it as it is.
pub proof fn lemma_trimmed_is_trim(s: Seq<char>)
    ensures
        trimmed(s).len() > 0 ==> !is_space(trimmed(s)[0]) && !is_space(trimmed(s).last()),
        trimmed(trimmed(s)) == trimmed(s),
{
    let f = trim_front(s);
    lemma_trim_front_shape(s);
    lemma_trim_back_shape(f);
    let t = trimmed(s);
    let k = choose|k: int| 0 <= k <= f.len() && trim_back(f) == #[trigger] f.take(k);
    if t.len() > 0 {
        assert(t[0] == f[0]);
        assert(trim_front(t) == t);
        assert(trim_back(t) == t);
    } else {
        assert(trim_front(t) == t);
        assert(trim_back(t) == t);
    }
}

/// Trimming the front of `x + y` trims `x`, and goes on into `y` only where
/// `x` was all white space.
pub proof fn lemma_trim_front_concat(x: Seq<char>, y: Seq<char>)
    ensures
        trim_front(x + y) == if trim_front(x).len() == 0 {
            trim_front(y)
        } else {
            trim_front(x) + y
        },
    decreases x.len(),
{
    if x.len() == 0 {
        assert(x + y =~= y);
    } else if is_space(x[0]) {
        assert((x + y).drop_first() =~= x.drop_first() + y);
        lemma_trim_front_concat(x.drop_first(), y);
    } else {
        assert((x + y)[0] == x[0]);
    }
}

/// Trimming the back of `x + y` trims `y`, and goes on into `x` only where
/// `y` was all white space.
pub proof fn lemma_trim_back_concat(x: Seq<char>, y: Seq<char>)
    ensures
        trim_back(x + y) == if trim_back(y).len() == 0 {
            trim_back(x)
        } else {
            x + trim_back(y)
        },
    decreases y.len(),
{
    if y.len() == 0 {
        assert(x + y =~= x);
    } else if is_space(y.last()) {
        assert((x + y).drop_last() =~= x + y.drop_last());
        lemma_trim_back_concat(x, y.drop_last());
    } else {
        assert((x + y).last() == y.last());
    }
}

/// Trimming commutes with a character map that keeps white space white
/// space and everything else not.
pub proof fn lemma_trimmed_map(s: Seq<char>, f: spec_fn(char) -> char)
    requires
        forall|c: char| is_space(#[trigger] f(c)) == is_space(c),
    ensures
        trimmed(s.map_values(f)) == trimmed(s).map_values(f),
{
    lemma_trim_front_map(s, f);
    lemma_trim_back_map(trim_front(s), f);
}

proof fn lemma_trim_front_map(s: Seq<char>, f: spec_fn(char) -> char)
    requires
        forall|c: char| is_space(#[trigger] f(c)) == is_space(c),
    ensures
        trim_front(s.map_values(f)) == trim_front(s).map_values(f),
    decreases s.len(),
{
    let m = s.map_values(f);
    if s.len() > 0 && is_space(s[0]) {
        assert(is_space(f(s[0])));
        assert(m.drop_first() =~= s.drop_first().map_values(f));
        lemma_trim_front_map(s.drop_first(), f);
    } else if s.len() > 0 {
        assert(!is_space(f(s[0])));
    } else {
        assert(m =~= s.map_values(f));
    }
}

proof fn lemma_trim_back_map(s: Seq<char>, f: spec_fn(char) -> char)
    requires
        forall|c: char| is_space(#[trigger] f(c)) == is_space(c),
    ensures
        trim_back(s.map_values(f)) == trim_back(s).map_values(f),
    decreases s.len(),
{
    let m = s.map_values(f);
    if s.len() > 0 && is_space(s.last()) {
        assert(is_space(f(s.last())));
        assert(m.drop_last() =~= s.drop_last().map_values(f));
        lemma_trim_back_map(s.drop_last(), f);
    } else if s.len() > 0 {
        assert(!is_space(f(s.last())));
    } else {
        assert(m =~= s.map_values(f));
    }
}

/// A text of one space and `t`, then another space, trims to what `t` trims to.
pub proof fn lemma_trimmed_padded(t: Seq<char>)
    ensures
        trimmed(seq![' '] + t + seq![' ']) == trimmed(t),
{
    let sp: Seq<char> = seq![' '];
    assert(is_space(' '));
    assert(trim_front(sp.drop_first()) == sp.drop_first());
    assert(trim_front(sp).len() == 0);
    assert(trim_back(sp.drop_last()) == sp.drop_last());
    assert(trim_back(sp).len() == 0);
    assert(sp + t + sp =~= sp + (t + sp));
    lemma_trim_front_concat(sp, t + sp);
    lemma_trim_front_concat(t, sp);
    if trim_front(t).len() > 0 {
        lemma_trim_back_concat(trim_front(t), sp);
    }
}

proof fn lemma_trim_front_spaces(s: Seq<char>)
    ensures
        exists|k: int|
            0 <= k <= s.len() && trim_front(s) == #[trigger] s.skip(k) && forall|j: int|
                0 <= j < k ==> is_space(#[trigger] s[j]),
    decreases s.len(),
{
    if s.len() > 0 && is_space(s[0]) {
        lemma_trim_front_spaces(s.drop_first());
        let d = s.drop_first();
        let k = choose|k: int|
            0 <= k <= d.len() && trim_front(d) == #[trigger] d.skip(k) && forall|j: int|
                0 <= j < k ==> is_space(#[trigger] d[j]);
        assert(d.skip(k) =~= s.skip(k + 1));
        assert forall|j: int| 0 <= j < k + 1 implies is_space(#[trigger] s[j]) by {
            if j > 0 {
                assert(s[j] == d[j - 1]);
            }
        }
    } else {
        assert(s.skip(0) =~= s);
    }
}

proof fn lemma_trim_back_spaces(s: Seq<char>)
    ensures
        exists|k: int|
            0 <= k <= s.len() && trim_back(s) == #[trigger] s.take(k) && forall|j: int|
                k <= j < s.len() ==> is_space(#[trigger] s[j]),
    decreases s.len(),
{
    if s.len() > 0 && is_space(s.last()) {
        lemma_trim_back_spaces(s.drop_last());
        let d = s.drop_last();
        let k = choose|k: int|
            0 <= k <= d.len() && trim_back(d) == #[trigger] d.take(k) && forall|j: int|
                k <= j < d.len() ==> is_space(#[trigger] d[j]);
        assert(d.take(k) =~= s.take(k));
        assert forall|j: int| k <= j < s.len() implies is_space(#[trigger] s[j]) by {
            if j < d.len() {
                assert(s[j] == d[j]);
            }
        }
    } else {
        assert(s.take(s.len() as int) =~= s);
    }
}

/// A trimmed text is the run of the characters of the text it came from
/// that lies between white space: every character before it and after it is
/// white space.
pub proof fn lemma_trimmed_is_slice(s: Seq<char>)
    ensures
        exists|a: int, b: int|
            0 <= a <= b <= s.len() && trimmed(s) == #[trigger] s.subrange(a, b) && (forall|j: int|
                0 <= j < a ==> is_space(#[trigger] s[j])) && (forall|j: int|
                b <= j < s.len() ==> is_space(#[trigger] s[j])),
{
    lemma_trim_front_spaces(s);
    let k = choose|k: int|
        0 <= k <= s.len() && trim_front(s) == #[trigger] s.skip(k) && forall|j: int|
            0 <= j < k ==> is_space(#[trigger] s[j]);
    let f = s.skip(k);
    lemma_trim_back_spaces(f);
    let m = choose|m: int|
        0 <= m <= f.len() && trim_back(f) == #[trigger] f.take(m) && forall|j: int|
            m <= j < f.len() ==> is_space(#[trigger] f[j]);
    assert(f.take(m) =~= s.subrange(k, k + m));
    assert forall|j: int| k + m <= j < s.len() implies is_space(#[trigger] s[j]) by {
        assert(s[j] == f[j - k]);
    }
}

/// Where `t` occurs in `s` and trims to something, what `t` trims to occurs
/// in what `s` trims to: the trimmed part of `t` starts and ends with other
/// than white space, so it lies inside the trimmed part of `s`.
pub proof fn lemma_trimmed_occurrence(s: Seq<char>, t: Seq<char>, i: int)
    requires
        0 <= i <= s.len() - t.len(),
        s.subrange(i, i + t.len()) == t,
        trimmed(t).len() > 0,
    ensures
        exists|p: int|
            0 <= p <= trimmed(s).len() - trimmed(t).len() && #[trigger] trimmed(s).subrange(
                p,
                p + trimmed(t).len(),
            ) == trimmed(t),
{
    lemma_trimmed_is_trim(t);
    lemma_trimmed_is_slice(t);
    lemma_trimmed_is_slice(s);
    let (a, b) = choose|a: int, b: int|
        0 <= a <= b <= t.len() && trimmed(t) == #[trigger] t.subrange(a, b) && (forall|j: int|
            0 <= j < a ==> is_space(#[trigger] t[j])) && (forall|j: int|
            b <= j < t.len() ==> is_space(#[trigger] t[j]));
    let (c, d) = choose|c: int, d: int|
        0 <= c <= d <= s.len() && trimmed(s) == #[trigger] s.subrange(c, d) && (forall|j: int|
            0 <= j < c ==> is_space(#[trigger] s[j])) && (forall|j: int|
            d <= j < s.len() ==> is_space(#[trigger] s[j]));
    let tt = trimmed(t);
    assert(tt[0] == t[a]);
    assert(t[a] == s[i + a]);
    assert(tt.last() == t[b - 1]);
    assert(t[b - 1] == s[i + b - 1]);
    if i + a < c {
        assert(is_space(s[i + a]));
    }
    if i + b - 1 >= d {
        assert(is_space(s[i + b - 1]));
    }
    let p = i + a - c;
    assert(trimmed(s).subrange(p, p + tt.len()) =~= tt);
}

} // verus!
