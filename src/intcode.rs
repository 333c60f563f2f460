//! Reading and writing intcodes as text.
//!
//! The text of an intcode is the debug form of a list of numbers: `[`, the
//! numbers in decimal separated by `", "`, and `]`, as in `[1, 0, 0, 3, 99]`.
use vstd::prelude::*;

use crate::text::chars_of;

verus! {

/// An intcode: a list of non-negative integers.
pub type IntCode = Vec<usize>;

/// Any error that occurs when parsing a string to an intcode.
#[derive(Debug, Clone, Copy, PartialEq, Eq, Structural)]
pub enum Error {
    /// The string does not look like a list.
    ParseVec,
    /// The list does not contain integers only.
    ParseInt,
}

/// Whether `c` is an ASCII decimal digit.
pub open spec fn is_digit(c: char) -> bool {
    '0' <= c && c <= '9'
}

/// The value of the decimal digit `c`.
pub open spec fn digit_value(c: char) -> int {
    c as int - '0' as int
}

/// The decimal digit for `d` (with `d < 10`).
pub open spec fn digit_char(d: int) -> char {
    (d + '0' as int) as char
}

/// The decimal form of `n`, without leading zeros.
pub open spec fn decimal(n: nat) -> Seq<char>
    decreases n,
{
    if n < 10 {
        seq![digit_char(n as int)]
    } else {
        decimal(n / 10).push(digit_char((n % 10) as int))
    }
}

/// Whether every character of `d` is a decimal digit.
pub open spec fn all_digits(d: Seq<char>) -> bool {
    forall|i: int| 0 <= i < d.len() ==> is_digit(#[trigger] d[i])
}

/// The number that the decimal digits `d` stand for (0 for no digits).
pub open spec fn digits_value(d: Seq<char>) -> nat
    decreases d.len(),
{
    if d.len() == 0 {
        0
    } else {
        (digits_value(d.drop_last()) * 10 + digit_value(d.last())) as nat
    }
}

/// The digits of a number token: what follows an optional leading `+`.
pub open spec fn token_digits(t: Seq<char>) -> Seq<char> {
    if t.len() > 0 && t[0] == '+' {
        t.drop_first()
    } else {
        t
    }
}

/// Whether the token `t` is a number that fits in a `usize`: an optional `+`
/// followed by one or more decimal digits, of a value up to `usize::MAX`.
pub open spec fn is_usize_token(t: Seq<char>) -> bool {
    let d = token_digits(t);
    &&& d.len() > 0
    &&& all_digits(d)
    &&& digits_value(d) <= usize::MAX
}

/// The value of the number token `t`.
pub open spec fn token_value(t: Seq<char>) -> usize {
    digits_value(token_digits(t)) as usize
}

/// The decimal form of a number has digits only, and reads back as the number.
pub proof fn lemma_decimal_reads_back(n: nat)
    ensures
        decimal(n).len() > 0,
        all_digits(decimal(n)),
        digits_value(decimal(n)) == n,
    decreases n,
{
    if n >= 10 {
        lemma_decimal_reads_back(n / 10);
        let d = decimal(n);
        assert(d.drop_last() =~= decimal(n / 10));
        assert((n / 10) * 10 + n % 10 == n) by (nonlinear_arith);
        assert(all_digits(d)) by {
            assert forall|i: int| 0 <= i < d.len() implies is_digit(#[trigger] d[i]) by {
                if i < d.len() - 1 {
                    assert(d[i] == decimal(n / 10)[i]);
                }
            }
        }
        assert(digits_value(d) == n);
    } else {
        assert(decimal(n).drop_last() =~= Seq::<char>::empty());
        assert(digits_value(Seq::<char>::empty()) == 0);
        assert(digits_value(decimal(n)) == n);
    }
}

/// Adding digits to the end of a number never makes it smaller.
pub proof fn lemma_digits_value_prefix(d: Seq<char>, k: int)
    requires
        0 <= k <= d.len(),
        all_digits(d),
    ensures
        digits_value(d.subrange(0, k)) <= digits_value(d),
    decreases d.len() - k,
{
    if k < d.len() {
        let e = d.drop_last();
        assert(all_digits(e)) by {
            assert forall|i: int| 0 <= i < e.len() implies is_digit(#[trigger] e[i]) by {
                assert(e[i] == d[i]);
            }
        }
        assert(is_digit(d[d.len() - 1]));
        lemma_digits_value_prefix(e, k);
        assert(e.subrange(0, k) =~= d.subrange(0, k));
    } else {
        assert(d.subrange(0, k) =~= d);
    }
}

/// Whether `b` holds the separator `", "` at index `i`.
pub open spec fn sep_at(b: Seq<char>, i: int) -> bool {
    0 <= i && i + 1 < b.len() && b[i] == ',' && b[i + 1] == ' '
}

/// The length of the first field of `b`: up to the first separator, or all of
/// `b` where it has none.
pub open spec fn first_field_len(b: Seq<char>) -> nat
    decreases b.len(),
{
    if b.len() < 2 {
        b.len()
    } else if sep_at(b, 0) {
        0
    } else {
        1 + first_field_len(b.drop_first())
    }
}

/// The first field of `b` ends at its first separator, or at its end.
pub proof fn lemma_first_field(b: Seq<char>)
    ensures
        first_field_len(b) <= b.len(),
        first_field_len(b) < b.len() ==> sep_at(b, first_field_len(b) as int),
        forall|i: int| 0 <= i < first_field_len(b) ==> !sep_at(b, i),
    decreases b.len(),
{
    if b.len() >= 2 && !sep_at(b, 0) {
        let t = b.drop_first();
        lemma_first_field(t);
        assert forall|i: int| 0 <= i < first_field_len(b) implies !sep_at(b, i) by {
            if i > 0 {
                assert(!sep_at(t, i - 1));
            }
        }
    }
}

/// The fields of `b`: its parts between the separators `", "`, read from the
/// left (as `str::split` does). There is always at least one.
pub open spec fn fields(b: Seq<char>) -> Seq<Seq<char>>
    decreases b.len(),
{
    let e = first_field_len(b);
    if e < b.len() {
        proof {
            lemma_first_field(b);
        }
        seq![b.subrange(0, e as int)] + fields(b.subrange(e + 2 as int, b.len() as int))
    } else {
        seq![b]
    }
}

/// Whether `t` starts with `[` and ends with `]`.
pub open spec fn bracketed(t: Seq<char>) -> bool {
    t.len() >= 2 && t[0] == '[' && t[t.len() - 1] == ']'
}

/// What lies between the brackets of `t`.
pub open spec fn inner(t: Seq<char>) -> Seq<char> {
    t.subrange(1, t.len() - 1)
}

/// The intcode that the text `t` stands for.
///
/// `ParseVec` where `t` is not enclosed in brackets; `ParseInt` where a field
/// between them is not a number that fits in a `usize` (so `[]` is refused).
pub open spec fn parsed(t: Seq<char>) -> Result<Seq<usize>, Error> {
    if !bracketed(t) {
        Err(Error::ParseVec)
    } else {
        let f = fields(inner(t));
        if forall|i: int| 0 <= i < f.len() ==> is_usize_token(#[trigger] f[i]) {
            Ok(Seq::new(f.len(), |i: int| token_value(f[i])))
        } else {
            Err(Error::ParseInt)
        }
    }
}

/// The numbers of `s` in decimal, separated by `", "`.
pub open spec fn joined(s: Seq<usize>) -> Seq<char>
    decreases s.len(),
{
    if s.len() == 0 {
        seq![]
    } else if s.len() == 1 {
        decimal(s[0] as nat)
    } else {
        decimal(s[0] as nat) + seq![',', ' '] + joined(s.drop_first())
    }
}

/// The text of the intcode `s`: its numbers in brackets, as in `[1, 0, 99]`.
pub open spec fn literal(s: Seq<usize>) -> Seq<char> {
    seq!['['] + joined(s) + seq![']']
}

/// Reads the number token `b[from..to]`.
fn parse_token(b: &Vec<char>, from: usize, to: usize) -> (r: Option<usize>)
    requires
        from <= to <= b@.len(),
    ensures
        ({
            let t = b@.subrange(from as int, to as int);
            r == if is_usize_token(t) {
                Some(token_value(t))
            } else {
                None::<usize>
            }
        }),
{
    let ghost t = b@.subrange(from as int, to as int);
    let mut start = from;
    if start < to && b[start] == '+' {
        start = start + 1;
    }
    let ghost d = b@.subrange(start as int, to as int);
    assert(token_digits(t) =~= d);
    if start == to {
        return None;
    }
    let mut acc: usize = 0;
    let mut i = start;
    while i < to
        invariant
            from <= start <= i <= to <= b@.len(),
            d == b@.subrange(start as int, to as int),
            d == token_digits(t),
            t == b@.subrange(from as int, to as int),
            all_digits(b@.subrange(start as int, i as int)),
            acc == digits_value(b@.subrange(start as int, i as int)),
        decreases to - i,
    {
        let c = b[i];
        if c < '0' || c > '9' {
            assert(!is_digit(d[i - start]));
            return None;
        }
        let ghost p = b@.subrange(start as int, i as int + 1);
        assert(p.drop_last() =~= b@.subrange(start as int, i as int));
        assert(digits_value(p) == acc * 10 + digit_value(c));
        assert(all_digits(p)) by {
            assert forall|j: int| 0 <= j < p.len() implies is_digit(#[trigger] p[j]) by {
                if j < p.len() - 1 {
                    assert(p[j] == b@.subrange(start as int, i as int)[j]);
                }
            }
        }
        let digit = (c as u32 - 48) as usize;
        let next = match acc.checked_mul(10) {
            Some(m) => m.checked_add(digit),
            None => None,
        };
        match next {
            Some(v) => {
                acc = v;
            },
            None => {
                proof {
                    if all_digits(d) {
                        lemma_digits_value_prefix(d, i - start + 1);
                        assert(d.subrange(0, i - start + 1) =~= p);
                    }
                }
                return None;
            },
        }
        i = i + 1;
    }
    assert(b@.subrange(start as int, i as int) =~= d);
    Some(acc)
}

/// Parses a string to an `IntCode`.
///
/// `s` must match the debug form of the intcode: `[`, the numbers separated by
/// `", "`, and `]`. Each number may carry a leading `+`, as `usize::from_str`
/// allows.
pub fn parse(s: &str) -> (r: Result<IntCode, Error>)
    ensures
        match r {
            Ok(v) => parsed(s@) == Ok::<Seq<usize>, Error>(v@),
            Err(e) => parsed(s@) == Err::<Seq<usize>, Error>(e),
        },
{
    let t = chars_of(s);
    let n = t.len();
    if n < 2 || t[0] != '[' || t[n - 1] != ']' {
        return Err(Error::ParseVec);
    }
    let hi = n - 1;
    let ghost body = inner(t@);
    let mut ints: Vec<usize> = Vec::new();
    let mut start: usize = 1;
    let ghost mut done: Seq<Seq<char>> = seq![];
    assert(t@.subrange(1, hi as int) =~= body);
    loop
        invariant
            t@ == s@,
            n == t@.len(),
            hi == n - 1,
            bracketed(t@),
            body == inner(t@),
            1 <= start <= hi,
            fields(body) == done + fields(t@.subrange(start as int, hi as int)),
            ints@.len() == done.len(),
            forall|j: int| 0 <= j < done.len() ==> is_usize_token(#[trigger] done[j]),
            forall|j: int| 0 <= j < done.len() ==> ints@[j] == token_value(#[trigger] done[j]),
        decreases hi - start,
    {
        let ghost rest = t@.subrange(start as int, hi as int);
        let mut e = start;
        while e + 1 < hi && !(t[e] == ',' && t[e + 1] == ' ')
            invariant
                start <= e <= hi,
                hi + 1 == n,
                n == t@.len(),
                rest == t@.subrange(start as int, hi as int),
                forall|i: int| 0 <= i < e - start ==> !sep_at(rest, i),
            decreases hi - e,
        {
            assert(!sep_at(rest, e - start));
            e = e + 1;
        }
        proof {
            lemma_first_field(rest);
        }
        let found = e + 1 < hi;
        let end = if found {
            e
        } else {
            hi
        };
        proof {
            let k = first_field_len(rest) as int;
            if found {
                assert(sep_at(rest, e - start));
                if k < e - start {
                    assert(sep_at(rest, k));
                }
            } else if k < rest.len() {
                assert(sep_at(rest, k));
            }
        }
        assert(first_field_len(rest) == end - start);
        let ghost field = t@.subrange(start as int, end as int);
        assert(field =~= fields(rest)[0]);
        match parse_token(&t, start, end) {
            None => {
                assert(fields(body)[done.len() as int] == field);
                return Err(Error::ParseInt);
            },
            Some(v) => {
                ints.push(v);
                proof {
                    done = done.push(field);
                }
                if !found {
                    assert(fields(rest) == seq![rest]);
                    assert(fields(body) == done);
                    assert(ints@ =~= Seq::new(done.len(), |i: int| token_value(done[i])));
                    return Ok(ints);
                }
                assert(rest.subrange(end - start + 2, rest.len() as int) =~= t@.subrange(
                    end + 2,
                    hi as int,
                ));
                assert(fields(body) =~= done + fields(t@.subrange(end + 2, hi as int)));
                start = end + 2;
            },
        }
    }
}

/// Appends the decimal form of `n` to `out`.
pub fn push_decimal(out: &mut String, n: usize)
    ensures
        final(out)@ == old(out)@ + decimal(n as nat),
    decreases n,
{
    if n >= 10 {
        push_decimal(out, n / 10);
    }
    let d = n % 10;
    let digits = "0123456789";
    proof {
        reveal_strlit("0123456789");
    }
    let c = digits.substring_char(d, d + 1);
    assert(c@ =~= seq![digit_char(d as int)]);
    out.append(c);
}

/// The text of an intcode: its numbers in brackets, separated by `", "`.
pub fn render(code: &[usize]) -> (r: String)
    ensures
        r@ == literal(code@),
{
    let s = Ghost(code@);
    proof {
        reveal_strlit("[");
        reveal_strlit(", ");
        reveal_strlit("]");
    }
    let mut out = String::from_str("[");
    let len = code.len();
    if len > 0 {
        push_decimal(&mut out, code[0]);
        assert(s@.drop_first() =~= s@.subrange(1, len as int));
        let mut i: usize = 1;
        while i < len
            invariant
                s@ == code@,
                len == code@.len(),
                1 <= i <= len,
                out@ + (if i < len {
                    seq![',', ' '] + joined(s@.subrange(i as int, len as int))
                } else {
                    seq![]
                }) == seq!['['] + joined(s@),
            decreases len - i,
        {
            let ghost before = out@;
            let ghost r = s@.subrange(i as int, len as int);
            assert(r.drop_first() =~= s@.subrange(i + 1, len as int));
            proof {
                reveal_strlit(", ");
            }
            out.append(", ");
            push_decimal(&mut out, code[i]);
            assert(out@ == before + seq![',', ' '] + decimal(r[0] as nat));
            i = i + 1;
            if i < len {
                assert(joined(r) == decimal(r[0] as nat) + seq![',', ' '] + joined(r.drop_first()));
                assert(before + seq![',', ' '] + joined(r) =~= out@ + seq![',', ' '] + joined(
                    s@.subrange(i as int, len as int),
                ));
            } else {
                assert(before + seq![',', ' '] + joined(r) =~= out@);
            }
        }
        assert(out@ =~= seq!['['] + joined(s@));
    } else {
        assert(joined(s@) =~= Seq::<char>::empty());
    }
    out.append("]");
    out
}

/// The fields of the numbers joined by `", "` are their decimal forms.
pub proof fn lemma_fields_of_joined(s: Seq<usize>)
    requires
        s.len() > 0,
    ensures
        fields(joined(s)) == Seq::new(s.len(), |i: int| decimal(s[i] as nat)),
    decreases s.len(),
{
    let b = joined(s);
    let d = decimal(s[0] as nat);
    lemma_decimal_reads_back(s[0] as nat);
    lemma_first_field(b);
    let k = first_field_len(b) as int;
    if s.len() == 1 {
        if k < b.len() {
            assert(is_digit(d[k]));
        }
        assert(fields(b) == seq![b]);
        assert(fields(b) =~= Seq::new(s.len(), |i: int| decimal(s[i] as nat)));
    } else {
        let t = s.drop_first();
        lemma_fields_of_joined(t);
        let m = d.len() as int;
        assert(b == d + seq![',', ' '] + joined(t));
        assert(sep_at(b, m));
        if k < m {
            assert(is_digit(d[k]));
            assert(b[k] == d[k]);
        }
        assert(k == m);
        assert(b.subrange(0, m) =~= d);
        assert(b.subrange(m + 2, b.len() as int) =~= joined(t));
        assert(fields(b) =~= Seq::new(s.len(), |i: int| decimal(s[i] as nat)));
    }
}

/// Parsing the text of a non-empty intcode gives the intcode back.
pub proof fn lemma_parse_render(s: Seq<usize>)
    requires
        s.len() > 0,
    ensures
        parsed(literal(s)) == Ok::<Seq<usize>, Error>(s),
{
    let t = literal(s);
    assert(inner(t) =~= joined(s));
    lemma_fields_of_joined(s);
    let f = fields(inner(t));
    assert forall|i: int| 0 <= i < f.len() implies is_usize_token(#[trigger] f[i]) && token_value(f[i]) == s[i] by {
        lemma_decimal_reads_back(s[i] as nat);
        assert(is_digit(f[i][0]));
        assert(token_digits(f[i]) == f[i]);
    }
    assert(Seq::new(f.len(), |i: int| token_value(f[i])) =~= s);
}

} // verus!
