//! Text helpers: concatenation, joining, comparison, decimal numbers.
use vstd::prelude::*;
use vstd::string::{StrSliceExecFns, StringExecFns};

verus! {

/// The views of a vector of strings.
pub open spec fn texts(v: Seq<String>) -> Seq<Seq<char>> {
    Seq::new(v.len(), |i: int| v[i]@)
}

/// The views of a sequence of string slices.
pub open spec fn slices(v: Seq<&str>) -> Seq<Seq<char>> {
    Seq::new(v.len(), |i: int| v[i]@)
}

pub fn concat2(a: &str, b: &str) -> (r: String)
    ensures
        r@ == a@ + b@,
{
    let mut s = a.to_owned();
    s.append(b);
    s
}

pub fn concat3(a: &str, b: &str, c: &str) -> (r: String)
    ensures
        r@ == a@ + b@ + c@,
{
    let mut s = a.to_owned();
    s.append(b);
    s.append(c);
    s
}

/// Whether two strings hold the same characters.
pub fn same_text(a: &str, b: &str) -> (r: bool)
    ensures
        r == (a@ == b@),
{
    a.to_owned() == b.to_owned()
}

/// A copy of a vector of strings.
pub fn clone_texts(v: &Vec<String>) -> (r: Vec<String>)
    ensures
        r@ == v@,
{
    let mut out: Vec<String> = Vec::new();
    for i in 0..v.len()
        invariant
            out@ == v@.take(i as int),
    {
        out.push(v[i].clone());
        assert(v@.take(i as int).push(v@[i as int]) =~= v@.take(i + 1));
    }
    assert(v@.take(v@.len() as int) =~= v@);
    out
}

/// `parts` written one after the other with `sep` between neighbours.
pub open spec fn joined(parts: Seq<Seq<char>>, sep: Seq<char>) -> Seq<char>
    decreases parts.len(),
{
    if parts.len() == 0 {
        Seq::empty()
    } else if parts.len() == 1 {
        parts[0]
    } else {
        joined(parts.drop_last(), sep) + sep + parts.last()
    }
}

/// Join string slices with a separator.
pub fn join(parts: &[&str], sep: &str) -> (r: String)
    ensures
        r@ == joined(slices(parts@), sep@),
{
    let mut out = String::new();
    let ghost all = slices(parts@);
    for i in 0..parts.len()
        invariant
            all == slices(parts@),
            out@ == joined(all.take(i as int), sep@),
    {
        if i > 0 {
            out.append(sep);
        }
        out.append(parts[i]);
        proof {
            assert(all.take(i + 1).drop_last() =~= all.take(i as int));
            assert(all.take(i + 1).last() == parts@[i as int]@);
            if i == 0 {
                assert(out@ =~= parts@[0]@);
            }
        }
    }
    assert(all.take(all.len() as int) =~= all);
    out
}

/// Whether a string holds a character.
pub fn contains_char(s: &str, c: char) -> (r: bool)
    ensures
        r == s@.contains(c),
{
    let n = s.unicode_len();
    for i in 0..n
        invariant
            n == s@.len(),
            forall|j: int| 0 <= j < i ==> s@[j] != c,
    {
        if s.get_char(i) == c {
            return true;
        }
    }
    false
}

/// The decimal digit `d` as a character.
pub open spec fn digit_char(d: int) -> char {
    if d == 0 {
        '0'
    } else if d == 1 {
        '1'
    } else if d == 2 {
        '2'
    } else if d == 3 {
        '3'
    } else if d == 4 {
        '4'
    } else if d == 5 {
        '5'
    } else if d == 6 {
        '6'
    } else if d == 7 {
        '7'
    } else if d == 8 {
        '8'
    } else {
        '9'
    }
}

/// A number in decimal notation without leading zeros.
pub open spec fn decimal_text(n: nat) -> Seq<char>
    decreases n,
{
    if n < 10 {
        seq![digit_char(n as int)]
    } else {
        decimal_text(n / 10).push(digit_char((n % 10) as int))
    }
}

fn append_digit(s: &mut String, d: u64)
    requires
        d < 10,
    ensures
        final(s)@ == old(s)@.push(digit_char(d as int)),
{
    proof {
        reveal_strlit("0");
        reveal_strlit("1");
        reveal_strlit("2");
        reveal_strlit("3");
        reveal_strlit("4");
        reveal_strlit("5");
        reveal_strlit("6");
        reveal_strlit("7");
        reveal_strlit("8");
        reveal_strlit("9");
    }
    let ghost before = s@;
    if d == 0 {
        s.append("0");
    } else if d == 1 {
        s.append("1");
    } else if d == 2 {
        s.append("2");
    } else if d == 3 {
        s.append("3");
    } else if d == 4 {
        s.append("4");
    } else if d == 5 {
        s.append("5");
    } else if d == 6 {
        s.append("6");
    } else if d == 7 {
        s.append("7");
    } else if d == 8 {
        s.append("8");
    } else {
        s.append("9");
    }
    assert(s@ =~= before.push(digit_char(d as int)));
}

/// A number in decimal notation.
pub fn decimal(n: u64) -> (r: String)
    ensures
        r@ == decimal_text(n as nat),
    decreases n,
{
    let mut s = if n < 10 {
        String::new()
    } else {
        decimal(n / 10)
    };
    append_digit(&mut s, n % 10);
    assert(n < 10 ==> s@ =~= seq![digit_char(n as int)]);
    s
}

/// Different numbers have different decimal notations.
pub proof fn decimal_text_injective(a: nat, b: nat)
    requires
        decimal_text(a) == decimal_text(b),
    ensures
        a == b,
    decreases a,
{
    decimal_text_nonempty(a);
    decimal_text_nonempty(b);
    assert(decimal_text(a).last() == digit_char((a % 10) as int));
    assert(decimal_text(b).last() == digit_char((b % 10) as int));
    if a < 10 && b >= 10 {
        decimal_text_nonempty(b / 10);
    } else if a >= 10 && b < 10 {
        decimal_text_nonempty(a / 10);
    } else if a >= 10 && b >= 10 {
        assert(decimal_text(a).drop_last() =~= decimal_text(a / 10));
        assert(decimal_text(b).drop_last() =~= decimal_text(b / 10));
        decimal_text_injective(a / 10, b / 10);
    }
}

proof fn decimal_text_nonempty(n: nat)
    ensures
        decimal_text(n).len() > 0,
    decreases n,
{
    if n >= 10 {
        decimal_text_nonempty(n / 10);
    }
}

/// The decimal digit that a character stands for.
pub open spec fn digit_value(c: char) -> Option<int> {
    if '0' <= c && c <= '9' {
        Some(c as int - '0' as int)
    } else {
        None
    }
}

/// The number that a sequence of decimal digits stands for.
pub open spec fn digits_value(s: Seq<char>) -> Option<int>
    decreases s.len(),
{
    if s.len() == 0 {
        Some(0)
    } else {
        match (digits_value(s.drop_last()), digit_value(s.last())) {
            (Some(n), Some(d)) => Some(10 * n + d),
            _ => None,
        }
    }
}

/// The digits of a number text: what follows an optional plus sign.
pub open spec fn number_digits(s: Seq<char>) -> Seq<char> {
    if s.len() > 0 && s[0] == '+' {
        s.drop_first()
    } else {
        s
    }
}

/// The unsigned 64-bit number written in a text: decimal digits, at least one,
/// after an optional plus sign.
pub open spec fn parsed_u64(s: Seq<char>) -> Option<u64> {
    let digits = number_digits(s);
    if digits.len() == 0 {
        None
    } else {
        match digits_value(digits) {
            Some(n) => if n <= u64::MAX {
                Some(n as u64)
            } else {
                None
            },
            None => None,
        }
    }
}

/// Once a prefix of the digits is no number or too large, so is the whole.
proof fn digits_value_prefix(s: Seq<char>, k: int)
    requires
        0 <= k <= s.len(),
    ensures
        digits_value(s.take(k)) is None ==> digits_value(s) is None,
        match (digits_value(s.take(k)), digits_value(s)) {
            (Some(a), Some(b)) => 0 <= a <= b,
            _ => true,
        },
    decreases s.len(),
{
    if k < s.len() {
        digits_value_prefix(s.drop_last(), k);
        assert(s.drop_last().take(k) =~= s.take(k));
    } else {
        assert(s.take(k) =~= s);
        if s.len() > 0 {
            digits_value_prefix(s.drop_last(), k - 1);
        }
    }
}

/// Read an unsigned 64-bit number.
pub fn parse_u64(s: &str) -> (r: Option<u64>)
    ensures
        r == parsed_u64(s@),
{
    let n = s.unicode_len();
    let start: usize = if n > 0 && s.get_char(0) == '+' {
        1
    } else {
        0
    };
    let ghost digits = number_digits(s@);
    assert(digits =~= s@.skip(start as int));
    if start == n {
        return None;
    }
    let mut value: u64 = 0;
    for i in start..n
        invariant
            start <= 1,
            start < n,
            n == s@.len(),
            digits == s@.skip(start as int),
            digits == number_digits(s@),
            digits_value(digits.take(i - start)) == Some(value as int),
    {
        let c = s.get_char(i);
        proof {
            let k = i - start;
            assert(digits.take(k + 1).drop_last() =~= digits.take(k));
            assert(digits.take(k + 1).last() == c);
            digits_value_prefix(digits, k + 1);
        }
        if c < '0' || c > '9' {
            return None;
        }
        let d: u64 = (c as u32 - '0' as u32) as u64;
        if value > (u64::MAX - d) / 10 {
            return None;
        }
        value = value * 10 + d;
    }
    assert(digits.take(n - start) =~= digits);
    Some(value)
}

/// A number reads back from its decimal notation.
pub proof fn decimal_text_parses(n: u64)
    ensures
        parsed_u64(decimal_text(n as nat)) == Some(n),
{
    decimal_text_value(n as nat);
    decimal_text_nonempty(n as nat);
}

proof fn decimal_text_value(n: nat)
    ensures
        digits_value(decimal_text(n)) == Some(n as int),
        decimal_text(n).len() > 0,
        decimal_text(n)[0] != '+',
    decreases n,
{
    let t = decimal_text(n);
    if n < 10 {
        assert(t.drop_last() =~= Seq::<char>::empty());
        assert(digits_value(t.drop_last()) == Some(0int));
    } else {
        decimal_text_value(n / 10);
        assert(t.drop_last() =~= decimal_text(n / 10));
        assert(t.last() == digit_char((n % 10) as int));
    }
}

/// Joining parts: one part is itself, and two lots of parts are joined with the
/// separator between them.
pub proof fn joined_parts(a: Seq<Seq<char>>, b: Seq<Seq<char>>, sep: Seq<char>)
    ensures
        joined(Seq::empty(), sep) == Seq::<char>::empty(),
        a.len() == 1 ==> joined(a, sep) == a[0],
        a.len() > 0 && b.len() > 0 ==> joined(a + b, sep) == joined(a, sep) + sep + joined(b, sep),
    decreases b.len(),
{
    if a.len() > 0 && b.len() > 0 {
        let all = a + b;
        assert(all.drop_last() =~= a + b.drop_last());
        assert(all.last() == b.last());
        if b.len() == 1 {
            assert(a + b.drop_last() =~= a);
            assert(joined(all, sep) == joined(a, sep) + sep + b[0]);
        } else {
            joined_parts(a, b.drop_last(), sep);
            assert(joined(all, sep) == joined(a, sep) + sep + joined(b.drop_last(), sep) + sep
                + b.last());
            assert(joined(b, sep) == joined(b.drop_last(), sep) + sep + b.last());
            assert(joined(all, sep) =~= joined(a, sep) + sep + joined(b, sep));
        }
    }
}

/// Decimal notation: one digit for a number below ten, and a digit more for ten
/// times a number and less than ten.
pub proof fn decimal_notation(n: nat, d: nat)
    requires
        d < 10,
    ensures
        decimal_text(d).len() == 1,
        decimal_text(d)[0] as int == '0' as int + d,
        n > 0 ==> decimal_text(10 * n + d) == decimal_text(n) + decimal_text(d),
{
    if n > 0 {
        assert((10 * n + d) / 10 == n && (10 * n + d) % 10 == d);
        assert(decimal_text(10 * n + d) =~= decimal_text(n) + decimal_text(d));
    }
}

/// A text of zeros.
pub open spec fn zeros(k: nat) -> Seq<char> {
    Seq::new(k, |i: int| '0')
}

/// A text reads as a number exactly when it is the number's decimal notation,
/// after any number of zeros; a plus sign may stand before it. Nothing else
/// reads as a number.
pub proof fn only_notations_read(s: Seq<char>, n: u64, k: nat)
    ensures
        parsed_u64(zeros(k) + decimal_text(n as nat)) == Some(n),
        parsed_u64(seq!['+'] + zeros(k) + decimal_text(n as nat)) == Some(n),
        parsed_u64(s) == Some(n) ==> exists|j: nat|
            s == #[trigger] zeros(j) + decimal_text(n as nat) || s == seq!['+'] + zeros(j)
                + decimal_text(n as nat),
{
    decimal_text_value(n as nat);
    let t = decimal_text(n as nat);
    zeros_add_nothing(k, t);
    let plain = zeros(k) + t;
    assert(k > 0 ==> plain[0] == '0');
    assert(k == 0 ==> plain[0] == t[0]);
    let signed = seq!['+'] + zeros(k) + t;
    assert(signed.drop_first() =~= plain);
    if parsed_u64(s) == Some(n) {
        let digits = number_digits(s);
        digits_are_notation(digits);
        let i = choose|i: nat|
            digits == #[trigger] zeros(i) + t || (n == 0 && digits == zeros(i));
        let j = if digits == zeros(i) + t {
            i
        } else {
            assert(digits =~= zeros((i - 1) as nat) + seq!['0']);
            assert(t =~= seq!['0']);
            (i - 1) as nat
        };
        assert(digits == zeros(j) + t);
        if s[0] == '+' {
            assert(s =~= seq!['+'] + digits);
            assert(seq!['+'] + (zeros(j) + t) =~= seq!['+'] + zeros(j) + t);
        }
        assert(zeros(j) + t == zeros(j) + t);
    }
}

proof fn zeros_add_nothing(k: nat, t: Seq<char>)
    requires
        digits_value(t) is Some,
    ensures
        digits_value(zeros(k) + t) == digits_value(t),
        digits_value(zeros(k)) == Some(0int),
    decreases t.len(), k,
{
    let s = zeros(k) + t;
    if t.len() > 0 {
        assert(s.drop_last() =~= zeros(k) + t.drop_last());
        assert(s.last() == t.last());
        zeros_add_nothing(k, t.drop_last());
    } else {
        assert(s =~= zeros(k));
        if k > 0 {
            assert(zeros(k).drop_last() =~= zeros((k - 1) as nat));
            zeros_add_nothing((k - 1) as nat, t);
        }
    }
}

proof fn digits_are_notation(digits: Seq<char>)
    requires
        digits_value(digits) is Some,
    ensures
        ({
            let n = digits_value(digits)->0;
            &&& n >= 0
            &&& exists|j: nat|
                digits == #[trigger] zeros(j) + decimal_text(n as nat) || (n == 0 && digits
                    == zeros(j))
        }),
    decreases digits.len(),
{
    let n = digits_value(digits)->0;
    if digits.len() == 0 {
        assert(digits =~= zeros(0));
        let j: nat = 0;
        assert(zeros(j) + decimal_text(0) == zeros(j) + decimal_text(0));
    } else {
        let before = digits.drop_last();
        let m = digits_value(before)->0;
        let d = digit_value(digits.last())->0;
        digits_are_notation(before);
        let j = choose|j: nat|
            before == #[trigger] zeros(j) + decimal_text(m as nat) || (m == 0 && before
                == zeros(j));
        decimal_notation(m as nat, d as nat);
        assert(digits =~= before.push(digits.last()));
        assert(decimal_text(d as nat) =~= seq![digits.last()]);
        if m == 0 {
            if before == zeros(j) {
                assert(digits =~= zeros(j) + decimal_text(n as nat));
            } else {
                assert(decimal_text(0) =~= seq!['0']);
                assert(before =~= zeros(j + 1));
                assert(digits =~= zeros(j + 1) + decimal_text(n as nat));
            }
        } else {
            assert(digits =~= zeros(j) + decimal_text(n as nat));
        }
    }
}

/// Texts in a contract are the texts themselves, in order.
pub proof fn texts_show_themselves(v: Seq<String>, i: int)
    ensures
        texts(v).len() == v.len(),
        0 <= i < v.len() ==> texts(v)[i] == v[i]@,
{
}

/// String slices in a contract are the slices themselves, in order.
pub proof fn slices_show_themselves(v: Seq<&str>, i: int)
    ensures
        slices(v).len() == v.len(),
        0 <= i < v.len() ==> slices(v)[i] == v[i]@,
{
}

} // verus!
