use vstd::prelude::*;
use crate::geometry::MAX_DELTA;

verus! {

pub open spec fn is_digit(c: char) -> bool {
    '0' <= c && c <= '9'
}

pub open spec fn all_digits(s: Seq<char>) -> bool {
    forall|i: int| 0 <= i < s.len() ==> is_digit(#[trigger] s[i])
}

/// The number that a string of decimal digits spells.
pub open spec fn digits_value(s: Seq<char>) -> int
    decreases s.len(),
{
    if s.len() == 0 {
        0
    } else {
        digits_value(s.drop_last()) * 10 + (s.last() as int - '0' as int)
    }
}

/// The first three digits after a decimal point, as thousandths.
pub open spec fn thousandths(f: Seq<char>) -> int {
    if f.len() >= 3 {
        digits_value(f.take(3))
    } else if f.len() == 2 {
        digits_value(f) * 10
    } else if f.len() == 1 {
        digits_value(f) * 100
    } else {
        0
    }
}

/// Index of the first `c` at or after `from`, or the length.
pub open spec fn index_from(s: Seq<char>, c: char, from: int) -> int
    decreases s.len() - from,
{
    if from >= s.len() {
        s.len() as int
    } else if s[from] == c {
        from
    } else {
        index_from(s, c, from + 1)
    }
}

/// White space as Unicode's White_Space property gives it, which is what
/// `char::is_whitespace` tests.
pub open spec fn is_white(c: char) -> bool {
    let u = c as u32;
    (0x9 <= u && u <= 0xd) || u == 0x20 || u == 0x85 || u == 0xa0 || u == 0x1680 || (0x2000 <= u
        && u <= 0x200a) || u == 0x2028 || u == 0x2029 || u == 0x202f || u == 0x205f || u == 0x3000
}

pub fn white_check(c: char) -> (r: bool)
    ensures
        r == is_white(c),
{
    let u = c as u32;
    (0x9 <= u && u <= 0xd) || u == 0x20 || u == 0x85 || u == 0xa0 || u == 0x1680 || (0x2000 <= u
        && u <= 0x200a) || u == 0x2028 || u == 0x2029 || u == 0x202f || u == 0x205f || u == 0x3000
}

/// `s` without its leading white space.
pub open spec fn trim_start(s: Seq<char>) -> Seq<char>
    decreases s.len(),
{
    if s.len() > 0 && is_white(s[0]) {
        trim_start(s.drop_first())
    } else {
        s
    }
}

/// `s` without its trailing white space.
pub open spec fn trim_end(s: Seq<char>) -> Seq<char>
    decreases s.len(),
{
    if s.len() > 0 && is_white(s.last()) {
        trim_end(s.drop_last())
    } else {
        s
    }
}

/// A decimal number `-?d*(.d*)?` with at least one digit, in thousandths:
/// digits past the third decimal are dropped and the magnitude is capped at
/// `MAX_DELTA`.
pub open spec fn decimal_value(t: Seq<char>) -> Option<int> {
    let neg = t.len() > 0 && t[0] == '-';
    let body = if neg { t.drop_first() } else { t };
    let p = index_from(body, '.', 0);
    let ip = body.take(p);
    let fp = if p < body.len() { body.skip(p + 1) } else { Seq::<char>::empty() };
    if all_digits(ip) && all_digits(fp) && ip.len() + fp.len() > 0 {
        let m = if digits_value(ip) * 1000 + thousandths(fp) > MAX_DELTA {
            MAX_DELTA as int
        } else {
            digits_value(ip) * 1000 + thousandths(fp)
        };
        Some(if neg { -m } else { m })
    } else {
        None
    }
}

/// The value of the field of `s` that starts at `from` and runs to the next
/// comma, white space around it ignored.
pub open spec fn field_value(s: Seq<char>, from: int) -> Option<int> {
    decimal_value(trim_end(trim_start(s.subrange(from, index_from(s, ',', from)))))
}

/// The values of the comma-separated fields of `s` from `from` on, which must
/// be exactly `n`; `None` when there are fewer or more fields or one of them
/// is no number.
pub open spec fn fields_from(s: Seq<char>, from: int, n: nat) -> Option<Seq<int>>
    decreases n,
{
    if n == 0 {
        Some(Seq::<int>::empty())
    } else {
        let e = index_from(s, ',', from);
        match field_value(s, from) {
            None => None,
            Some(v) => if n == 1 {
                if e >= s.len() {
                    Some(seq![v])
                } else {
                    None
                }
            } else if e >= s.len() {
                None
            } else {
                match fields_from(s, e + 1, (n - 1) as nat) {
                    None => None,
                    Some(vs) => Some(seq![v] + vs),
                }
            },
        }
    }
}

proof fn lemma_fields_len(s: Seq<char>, from: int, n: nat)
    ensures
        fields_from(s, from, n) matches Some(v) ==> v.len() == n,
    decreases n,
{
    if n > 1 {
        lemma_fields_len(s, index_from(s, ',', from) + 1, (n - 1) as nat);
    }
}

/// The first `c` at or after `from` lies between `from` and the end.
pub proof fn lemma_index_from_bounds(s: Seq<char>, c: char, from: int)
    requires
        0 <= from <= s.len(),
    ensures
        from <= index_from(s, c, from) <= s.len(),
        index_from(s, c, from) < s.len() ==> s[index_from(s, c, from)] == c,
    decreases s.len() - from,
{
    if from < s.len() && s[from] != c {
        lemma_index_from_bounds(s, c, from + 1);
    }
}

/// Index of the first `c` in `s[from..end]`, or `end`.
pub fn find_char(s: &Vec<char>, c: char, from: usize) -> (r: usize)
    requires
        from <= s@.len(),
    ensures
        r as int == index_from(s@, c, from as int),
{
    let mut i = from;
    while i < s.len() && s[i] != c
        invariant
            from <= i <= s@.len(),
            index_from(s@, c, i as int) == index_from(s@, c, from as int),
        decreases s@.len() - i,
    {
        i = i + 1;
    }
    i
}

proof fn lemma_trim_start_step(s: Seq<char>, a: int, e: int)
    requires
        0 <= a < e <= s.len(),
        is_white(s[a]),
    ensures
        trim_start(s.subrange(a, e)) == trim_start(s.subrange(a + 1, e)),
{
    assert(s.subrange(a, e).drop_first() =~= s.subrange(a + 1, e));
}

proof fn lemma_trim_end_step(s: Seq<char>, a: int, b: int)
    requires
        0 <= a < b <= s.len(),
        is_white(s[b - 1]),
    ensures
        trim_end(s.subrange(a, b)) == trim_end(s.subrange(a, b - 1)),
{
    assert(s.subrange(a, b).drop_last() =~= s.subrange(a, b - 1));
}

proof fn lemma_digits_step(s: Seq<char>, i: int)
    requires
        0 <= i < s.len(),
    ensures
        digits_value(s.take(i + 1)) == digits_value(s.take(i)) * 10 + (s[i] as int - '0' as int),
{
    assert(s.take(i + 1).drop_last() =~= s.take(i));
}

proof fn lemma_digits_nonneg(s: Seq<char>)
    requires
        all_digits(s),
    ensures
        digits_value(s) >= 0,
    decreases s.len(),
{
    if s.len() > 0 {
        lemma_digits_nonneg(s.drop_last());
    }
}

/// Reads the digits of `s[a..b]` as a number, capped at `MAX_DELTA`; `None`
/// when one of them is no digit.
fn read_digits(s: &Vec<char>, a: usize, b: usize) -> (r: Option<i64>)
    requires
        a <= b <= s@.len(),
    ensures
        r is Some <==> all_digits(s@.subrange(a as int, b as int)),
        r is Some ==> r->0 as int == (if digits_value(s@.subrange(a as int, b as int)) > MAX_DELTA {
            MAX_DELTA as int
        } else {
            digits_value(s@.subrange(a as int, b as int))
        }),
{
    let ghost t = s@.subrange(a as int, b as int);
    let mut acc: i64 = 0;
    let mut i: usize = a;
    while i < b
        invariant
            a <= i <= b <= s@.len(),
            t == s@.subrange(a as int, b as int),
            all_digits(t.take(i - a)),
            digits_value(t.take(i - a)) >= 0,
            acc as int == (if digits_value(t.take(i - a)) > MAX_DELTA {
                MAX_DELTA as int
            } else {
                digits_value(t.take(i - a))
            }),
        decreases b - i,
    {
        let c = s[i];
        if !('0' <= c && c <= '9') {
            proof {
                assert(t[i - a] == c);
            }
            return None;
        }
        proof {
            lemma_digits_step(t, i - a);
            assert(t.take(i - a + 1) =~= t.take(i - a).push(c));
        }
        let d = (c as u32 - '0' as u32) as i64;
        let next = acc * 10 + d;
        acc = if next > MAX_DELTA { MAX_DELTA } else { next };
        i = i + 1;
    }
    proof {
        assert(t.take(b - a) =~= t);
    }
    Some(acc)
}

fn copy_range(s: &Vec<char>, a: usize, b: usize) -> (r: Vec<char>)
    requires
        a <= b <= s@.len(),
    ensures
        r@ == s@.subrange(a as int, b as int),
{
    let mut r: Vec<char> = Vec::new();
    let mut i = a;
    while i < b
        invariant
            a <= i <= b <= s@.len(),
            r@ == s@.subrange(a as int, i as int),
        decreases b - i,
    {
        r.push(s[i]);
        proof {
            assert(r@ =~= s@.subrange(a as int, i + 1));
        }
        i = i + 1;
    }
    r
}

/// Reads `t` as a decimal number, see `decimal_value`.
pub fn read_decimal(t: &Vec<char>) -> (r: Option<i64>)
    ensures
        r matches Some(v) ==> decimal_value(t@) == Some(v as int),
        r is None ==> decimal_value(t@) is None,
        r matches Some(v) ==> -MAX_DELTA <= v <= MAX_DELTA,
{
    let neg = t.len() > 0 && t[0] == '-';
    let body = if neg { copy_range(t, 1, t.len()) } else { copy_range(t, 0, t.len()) };
    proof {
        if neg {
            assert(body@ =~= t@.drop_first());
        } else {
            assert(body@ =~= t@);
        }
    }
    let n = body.len();
    let p = find_char(&body, '.', 0);
    proof {
        lemma_index_from_bounds(body@, '.', 0);
    }
    let fp_start = if p < n { p + 1 } else { n };
    let ghost ip = body@.take(p as int);
    let ghost fp = if p < n { body@.skip(p + 1) } else { Seq::<char>::empty() };
    proof {
        assert(body@.subrange(0, p as int) =~= ip);
        assert(body@.subrange(fp_start as int, n as int) =~= fp);
    }
    let int_part = read_digits(&body, 0, p);
    let frac_all = read_digits(&body, fp_start, n);
    if int_part.is_none() || frac_all.is_none() || p + (n - fp_start) == 0 {
        return None;
    }
    let whole = int_part.unwrap();
    let flen = n - fp_start;
    let frac_end = if flen >= 3 { fp_start + 3 } else { n };
    proof {
        assert(body@.subrange(fp_start as int, frac_end as int) =~= (if flen >= 3 {
            fp.take(3)
        } else {
            fp
        }));
        lemma_digits_nonneg(ip);
        lemma_digits_nonneg(fp);
        if flen >= 3 {
            assert(all_digits(fp.take(3)));
        }
    }
    let head = read_digits(&body, fp_start, frac_end).unwrap();
    let frac: i64 = if flen >= 3 {
        head
    } else if flen == 2 {
        head * 10
    } else if flen == 1 {
        head * 100
    } else {
        0
    };
    proof {
        if flen >= 3 {
            assert(fp.take(3).len() == 3);
            lemma_digits_bound3(fp.take(3));
        } else if flen == 2 {
            lemma_digits_bound2(fp);
        } else if flen == 1 {
            lemma_digits_bound1(fp);
        }
    }
    let total = whole * 1000 + frac;
    let m = if total > MAX_DELTA { MAX_DELTA } else { total };
    Some(if neg { -m } else { m })
}

proof fn lemma_digits_bound1(s: Seq<char>)
    requires
        s.len() == 1,
        all_digits(s),
    ensures
        0 <= digits_value(s) <= 9,
{
    assert(digits_value(s.drop_last()) == 0);
    assert(is_digit(s[0]));
    assert(s.last() == s[0]);
}

proof fn lemma_digits_bound2(s: Seq<char>)
    requires
        s.len() == 2,
        all_digits(s),
    ensures
        0 <= digits_value(s) <= 99,
{
    lemma_digits_bound1(s.drop_last());
    assert(is_digit(s[1]));
}

proof fn lemma_digits_bound3(s: Seq<char>)
    requires
        s.len() == 3,
        all_digits(s),
    ensures
        0 <= digits_value(s) <= 999,
{
    lemma_digits_bound2(s.drop_last());
    assert(is_digit(s[2]));
}

/// `f` without white space at either end.
pub fn trimmed(f: &Vec<char>) -> (r: Vec<char>)
    ensures
        r@ == trim_end(trim_start(f@)),
{
    let n = f.len();
    let mut a: usize = 0;
    proof {
        assert(f@.subrange(0, n as int) =~= f@);
    }
    while a < n && white_check(f[a])
        invariant
            a <= n == f@.len(),
            trim_start(f@.subrange(a as int, n as int)) == trim_start(f@),
        decreases n - a,
    {
        proof {
            lemma_trim_start_step(f@, a as int, n as int);
        }
        a = a + 1;
    }
    let mut b: usize = n;
    proof {
        assert(trim_start(f@.subrange(a as int, n as int)) == f@.subrange(a as int, n as int));
    }
    while b > a && white_check(f[b - 1])
        invariant
            a <= b <= n == f@.len(),
            trim_end(f@.subrange(a as int, b as int)) == trim_end(trim_start(f@)),
        decreases b,
    {
        proof {
            lemma_trim_end_step(f@, a as int, b as int);
        }
        b = b - 1;
    }
    proof {
        let t = f@.subrange(a as int, b as int);
        if t.len() > 0 {
            assert(t.last() == f@[b - 1]);
        }
        assert(trim_end(t) == t);
    }
    copy_range(f, a, b)
}

/// Reads the `n` comma-separated decimal fields of `s`, see `fields_from`.
pub fn parse_fields(s: &Vec<char>, n: usize) -> (r: Option<Vec<i64>>)
    requires
        n >= 1,
    ensures
        r is Some <==> fields_from(s@, 0, n as nat) is Some,
        r matches Some(v) ==> fields_from(s@, 0, n as nat) == Some(
            v@.map_values(|x: i64| x as int),
        ),
        r matches Some(v) ==> forall|i: int|
            0 <= i < v@.len() ==> -MAX_DELTA <= #[trigger] v@[i] <= MAX_DELTA,
        r matches Some(v) ==> v@.len() == n,
{
    proof {
        lemma_fields_len(s@, 0, n as nat);
    }
    let mut out: Vec<i64> = Vec::new();
    let mut from: usize = 0;
    let mut k: usize = 0;
    while k < n
        invariant
            1 <= n,
            k <= n,
            from <= s@.len(),
            out@.len() == k,
            forall|i: int| 0 <= i < out@.len() ==> -MAX_DELTA <= #[trigger] out@[i] <= MAX_DELTA,
            fields_from(s@, 0, n as nat) == (match fields_from(s@, from as int, (n - k) as nat) {
                None => None,
                Some(vs) => Some(out@.map_values(|x: i64| x as int) + vs),
            }),
        decreases n - k,
    {
        let e = find_char(s, ',', from);
        proof {
            lemma_index_from_bounds(s@, ',', from as int);
        }
        let field = copy_range(s, from, e);
        let t = trimmed(&field);
        let v = read_decimal(&t);
        let ghost before = out@.map_values(|x: i64| x as int);
        match v {
            None => {
                return None;
            },
            Some(x) => {
                out.push(x);
                proof {
                    assert(out@.map_values(|x: i64| x as int) =~= before.push(x as int));
                }
                if k + 1 == n {
                    if e < s.len() {
                        return None;
                    }
                    proof {
                        assert(before.push(x as int) =~= before + seq![x as int]);
                        assert(fields_from(s@, (e + 1) as int, 0) == Some(Seq::<int>::empty()));
                        assert(before + seq![x as int] + Seq::<int>::empty() =~= before
                            + seq![x as int]);
                    }
                    k = k + 1;
                    from = e;
                    proof {
                        assert(fields_from(s@, from as int, 0) == Some(Seq::<int>::empty()));
                        assert(out@.map_values(|x: i64| x as int) + Seq::<int>::empty()
                            =~= out@.map_values(|x: i64| x as int));
                    }
                } else if e >= s.len() {
                    return None;
                } else {
                    proof {
                        match fields_from(s@, (e + 1) as int, (n - k - 1) as nat) {
                            None => {},
                            Some(vs) => {
                                assert(before + (seq![x as int] + vs) =~= before.push(x as int)
                                    + vs);
                            },
                        }
                    }
                    from = e + 1;
                    k = k + 1;
                }
            },
        }
    }
    proof {
        assert(out@.map_values(|x: i64| x as int) + Seq::<int>::empty() =~= out@.map_values(
            |x: i64| x as int,
        ));
    }
    Some(out)
}

} // verus!
