//! Character classes, the e-mail address grammar and decimal integer text.
use vstd::prelude::*;
use vstd::string::StringExecFns;

verus! {

/// The text an optional string holds.
pub open spec fn opt_view(o: Option<String>) -> Option<Seq<char>> {
    match o {
        Some(s) => Some(s@),
        None => None,
    }
}

/// An ASCII letter, `a`..`z` or `A`..`Z`.
pub open spec fn is_ascii_letter(c: char) -> bool {
    ('a' <= c && c <= 'z') || ('A' <= c && c <= 'Z')
}

/// An ASCII decimal digit.
pub open spec fn is_ascii_digit(c: char) -> bool {
    '0' <= c && c <= '9'
}

/// A character allowed before the `@` of an address.
pub open spec fn is_local_char(c: char) -> bool {
    is_ascii_letter(c) || is_ascii_digit(c) || c == '_' || c == '.' || c == '+' || c == '-'
}

/// A character allowed in the first domain label.
pub open spec fn is_label_char(c: char) -> bool {
    is_ascii_letter(c) || is_ascii_digit(c) || c == '-'
}

/// A character allowed after the first dot of the domain.
pub open spec fn is_tail_char(c: char) -> bool {
    is_label_char(c) || c == '.'
}

/// `local@label.tail`: a non-empty local part of local characters, one `@`,
/// a non-empty label of label characters, a dot, and a tail of one or more
/// non-empty labels separated by single dots.
pub open spec fn email_shape(s: Seq<char>) -> bool {
    exists|a: int, d: int|
        #![trigger s[a], s[d]]
        0 < a && a + 1 < d && d + 1 < s.len() && s[a] == '@' && s[d] == '.' && (forall|i: int|
            0 <= i < a ==> is_local_char(#[trigger] s[i])) && (forall|i: int|
            a < i < d ==> is_label_char(#[trigger] s[i])) && (forall|i: int|
            d < i < s.len() ==> is_tail_char(#[trigger] s[i])) && (forall|i: int|
            d <= i < s.len() && #[trigger] s[i] == '.' ==> i + 1 < s.len() && s[i + 1] != '.')
}

proof fn lemma_witness_fixed(s: Seq<char>, a: int, d: int, x: int, y: int)
    requires
        0 < a < d < s.len(),
        s[a] == '@',
        s[d] == '.',
        forall|j: int| 0 <= j < a ==> is_local_char(#[trigger] s[j]),
        forall|j: int| a < j < d ==> is_label_char(#[trigger] s[j]),
        0 < x && x + 1 < y && y + 1 < s.len() && s[x] == '@' && s[y] == '.',
        forall|i: int| 0 <= i < x ==> is_local_char(#[trigger] s[i]),
        forall|i: int| x < i < y ==> is_label_char(#[trigger] s[i]),
    ensures
        x == a,
        y == d,
{
    if x < a {
        assert(is_local_char(s[x]));
    } else if x > a {
        assert(is_local_char(s[a]));
    }
    if y < d {
        assert(is_label_char(s[y]));
    } else if y > d {
        assert(is_label_char(s[d]));
    }
}

/// True when some character of `s` is an ASCII letter.
pub open spec fn has_ascii_letter(s: Seq<char>) -> bool {
    exists|i: int| 0 <= i < s.len() && is_ascii_letter(#[trigger] s[i])
}

fn ascii_letter(c: char) -> (r: bool)
    ensures
        r == is_ascii_letter(c),
{
    ('a' <= c && c <= 'z') || ('A' <= c && c <= 'Z')
}

fn label_char(c: char) -> (r: bool)
    ensures
        r == is_label_char(c),
{
    ascii_letter(c) || ('0' <= c && c <= '9') || c == '-'
}

fn local_char(c: char) -> (r: bool)
    ensures
        r == is_local_char(c),
{
    label_char(c) || c == '_' || c == '.' || c == '+'
}

/// Whether `s` holds an ASCII letter.
pub fn contains_ascii_letter(s: &str) -> (r: bool)
    ensures
        r == has_ascii_letter(s@),
{
    let n = s.unicode_len();
    let mut i: usize = 0;
    while i < n
        invariant
            n == s@.len(),
            i <= n,
            forall|j: int| 0 <= j < i ==> !is_ascii_letter(#[trigger] s@[j]),
        decreases n - i,
    {
        if ascii_letter(s.get_char(i)) {
            return true;
        }
        i = i + 1;
    }
    false
}

/// Whether `s` has the shape of an e-mail address (see `email_shape`).
pub fn is_email_shaped(s: &str) -> (r: bool)
    ensures
        r == email_shape(s@),
{
    let n = s.unicode_len();
    let mut a: usize = 0;
    while a < n && local_char(s.get_char(a))
        invariant
            n == s@.len(),
            a <= n,
            forall|j: int| 0 <= j < a ==> is_local_char(#[trigger] s@[j]),
        decreases n - a,
    {
        a = a + 1;
    }
    if a == 0 || a >= n || s.get_char(a) != '@' {
        proof {
            assert forall|x: int, y: int|
                0 < x && x + 1 < y && y + 1 < s@.len() && s@[x] == '@' && s@[y] == '.' && (
                forall|i: int| 0 <= i < x ==> is_local_char(#[trigger] s@[i])) implies false by {
                if x < a {
                    assert(is_local_char(s@[x]));
                } else if x > a {
                    assert(is_local_char(s@[a as int]));
                }
            }
        }
        return false;
    }
    let mut d: usize = a + 1;
    while d < n && label_char(s.get_char(d))
        invariant
            n == s@.len(),
            a < d <= n,
            forall|j: int| a < j < d ==> is_label_char(#[trigger] s@[j]),
        decreases n - d,
    {
        d = d + 1;
    }
    if d == a + 1 || n - d <= 1 || s.get_char(d) != '.' {
        proof {
            assert forall|x: int, y: int|
                0 < x && x + 1 < y && y + 1 < s@.len() && s@[x] == '@' && s@[y] == '.' && (
                forall|i: int| 0 <= i < x ==> is_local_char(#[trigger] s@[i])) && (forall|i: int|
                    x < i < y ==> is_label_char(#[trigger] s@[i])) implies false by {
                if x < a {
                    assert(is_local_char(s@[x]));
                } else if x > a {
                    assert(is_local_char(s@[a as int]));
                }
                if y < d {
                    assert(is_label_char(s@[y]));
                } else if y > d {
                    if d < n {
                        assert(is_label_char(s@[d as int]));
                    }
                }
            }
        }
        return false;
    }
    if s.get_char(d + 1) == '.' {
        proof {
            assert forall|x: int, y: int|
                #![trigger s@[x], s@[y]]
                0 < x && x + 1 < y && y + 1 < s@.len() && s@[x] == '@' && s@[y] == '.' && (
                forall|i: int| 0 <= i < x ==> is_local_char(#[trigger] s@[i])) && (forall|i: int|
                    x < i < y ==> is_label_char(#[trigger] s@[i])) && (forall|i: int|
                    y <= i < s@.len() && #[trigger] s@[i] == '.' ==> i + 1 < s@.len() && s@[i + 1] != '.') implies false by {
                lemma_witness_fixed(s@, a as int, d as int, x, y);
            }
        }
        return false;
    }
    let mut t: usize = d + 1;
    while t < n
        invariant
            n == s@.len(),
            d < t <= n,
            0 < a,
            a + 1 < d,
            d + 1 < n,
            s@[a as int] == '@',
            s@[d as int] == '.',
            forall|j: int| 0 <= j < a ==> is_local_char(#[trigger] s@[j]),
            forall|j: int| a < j < d ==> is_label_char(#[trigger] s@[j]),
            forall|j: int| d < j < t ==> is_tail_char(#[trigger] s@[j]),
            s@[d + 1] != '.',
            forall|j: int| d <= j < t && #[trigger] s@[j] == '.' ==> j + 1 < n && s@[j + 1] != '.',
        decreases n - t,
    {
        let c = s.get_char(t);
        if !(label_char(c) || c == '.') {
            proof {
                assert forall|x: int, y: int|
                    0 < x && x + 1 < y && y + 1 < s@.len() && s@[x] == '@' && s@[y] == '.' && (
                    forall|i: int| 0 <= i < x ==> is_local_char(#[trigger] s@[i])) && (forall|i: int|
                        x < i < y ==> is_label_char(#[trigger] s@[i])) && (forall|i: int|
                        y < i < s@.len() ==> is_tail_char(#[trigger] s@[i])) implies false by {
                    if x < a {
                        assert(is_local_char(s@[x]));
                    } else if x > a {
                        assert(is_local_char(s@[a as int]));
                    }
                    if y < d {
                        assert(is_label_char(s@[y]));
                    } else if y > d {
                        assert(is_label_char(s@[d as int]));
                    }
                    assert(is_tail_char(s@[t as int]));
                }
            }
            return false;
        }
        if c == '.' && (t + 1 >= n || s.get_char(t + 1) == '.') {
            proof {
                assert forall|x: int, y: int|
                    #![trigger s@[x], s@[y]]
                    0 < x && x + 1 < y && y + 1 < s@.len() && s@[x] == '@' && s@[y] == '.' && (
                    forall|i: int| 0 <= i < x ==> is_local_char(#[trigger] s@[i])) && (forall|i: int|
                        x < i < y ==> is_label_char(#[trigger] s@[i])) && (forall|i: int|
                        y <= i < s@.len() && #[trigger] s@[i] == '.' ==> i + 1 < s@.len() && s@[i + 1] != '.') implies false by {
                    lemma_witness_fixed(s@, a as int, d as int, x, y);
                    assert(s@[t as int] == '.');
                }
            }
            return false;
        }
        t = t + 1;
    }
    assert(s@[a as int] == '@' && s@[d as int] == '.');
    true
}

/// The character of the decimal digit `d`, for `0 <= d < 10`.
pub open spec fn digit_char(d: int) -> char {
    seq!['0', '1', '2', '3', '4', '5', '6', '7', '8', '9'][d]
}

/// The value of a digit character.
pub open spec fn digit_value(c: char) -> int {
    (c as u32) as int - 48
}

/// The decimal digits of `n`, most significant first, without leading zeros.
pub open spec fn digits_of(n: nat) -> Seq<char>
    decreases n,
{
    if n < 10 {
        seq![digit_char(n as int)]
    } else {
        digits_of(n / 10).push(digit_char((n % 10) as int))
    }
}

/// The decimal text of `n`: a minus sign for a negative number, then its digits.
pub open spec fn decimal_text(n: int) -> Seq<char> {
    if n < 0 {
        seq!['-'] + digits_of((-n) as nat)
    } else {
        digits_of(n as nat)
    }
}

/// Every character of `s` is an ASCII digit.
pub open spec fn all_digits(s: Seq<char>) -> bool {
    forall|i: int| 0 <= i < s.len() ==> is_ascii_digit(#[trigger] s[i])
}

/// The number that a run of digits denotes.
pub open spec fn digits_value(s: Seq<char>) -> int
    decreases s.len(),
{
    if s.len() == 0 {
        0
    } else {
        digits_value(s.drop_last()) * 10 + digit_value(s.last())
    }
}

/// The 32-bit integer that `s` writes: an optional sign and at least
/// one digit, with a value in range; `None` for any other text.
pub open spec fn parsed_i32(s: Seq<char>) -> Option<i32> {
    if s.len() > 0 && s[0] == '-' {
        let ds = s.drop_first();
        if ds.len() > 0 && all_digits(ds) && -digits_value(ds) >= i32::MIN {
            Some((-digits_value(ds)) as i32)
        } else {
            None
        }
    } else {
        let ds = if s.len() > 0 && s[0] == '+' {
            s.drop_first()
        } else {
            s
        };
        if ds.len() > 0 && all_digits(ds) && digits_value(ds) <= i32::MAX {
            Some(digits_value(ds) as i32)
        } else {
            None
        }
    }
}

proof fn lemma_digits_value_grows(s: Seq<char>, k: int)
    requires
        all_digits(s),
        0 <= k <= s.len(),
    ensures
        0 <= digits_value(s.subrange(0, k)) <= digits_value(s),
    decreases s.len(),
{
    if s.len() > 0 {
        let p = s.drop_last();
        assert(all_digits(p)) by {
            assert forall|i: int| 0 <= i < p.len() implies is_ascii_digit(#[trigger] p[i]) by {
                assert(p[i] == s[i]);
            }
        }
        assert(is_ascii_digit(s[s.len() - 1]));
        if k == s.len() {
            assert(s.subrange(0, k) =~= s);
            lemma_digits_value_grows(p, p.len() as int);
            assert(p.subrange(0, p.len() as int) =~= p);
        } else {
            lemma_digits_value_grows(p, k);
            assert(p.subrange(0, k) =~= s.subrange(0, k));
        }
    } else {
        assert(s.subrange(0, k) =~= s);
    }
}

proof fn lemma_digits_of(n: nat)
    ensures
        digits_of(n).len() > 0,
        all_digits(digits_of(n)),
        digits_value(digits_of(n)) == n,
    decreases n,
{
    let ds = seq!['0', '1', '2', '3', '4', '5', '6', '7', '8', '9'];
    assert(forall|d: int| 0 <= d < 10 ==> is_ascii_digit(#[trigger] ds[d]) && digit_value(ds[d]) == d) by {
        assert forall|d: int| 0 <= d < 10 implies is_ascii_digit(#[trigger] ds[d]) && digit_value(ds[d]) == d by {
            if d == 0 {} else if d == 1 {} else if d == 2 {} else if d == 3 {} else if d == 4 {}
            else if d == 5 {} else if d == 6 {} else if d == 7 {} else if d == 8 {} else {}
        }
    }
    if n < 10 {
        let s = digits_of(n);
        assert(s.drop_last() =~= Seq::<char>::empty());
        assert(digits_value(s.drop_last()) == 0);
    } else {
        lemma_digits_of(n / 10);
        let s = digits_of(n);
        assert(s.drop_last() =~= digits_of(n / 10));
        assert(is_ascii_digit(digit_char((n % 10) as int)));
        assert(all_digits(s)) by {
            assert forall|i: int| 0 <= i < s.len() implies is_ascii_digit(#[trigger] s[i]) by {
                if i < s.len() - 1 {
                    assert(s[i] == digits_of(n / 10)[i]);
                }
            }
        }
    }
}

/// Reading back the decimal text of a 32-bit integer gives that integer.
pub proof fn lemma_decimal_round_trip(n: i32)
    ensures
        parsed_i32(decimal_text(n as int)) == Some(n),
{
    if n < 0 {
        let m = (-n) as nat;
        lemma_digits_of(m);
        let t = decimal_text(n as int);
        assert(t.drop_first() =~= digits_of(m));
    } else {
        lemma_digits_of(n as nat);
        assert(digits_of(n as nat)[0] != '-');
    }
}

/// Reads a 32-bit integer written as an optional sign and decimal digits.
pub fn parse_i32(s: &str) -> (r: Option<i32>)
    ensures
        r == parsed_i32(s@),
{
    let n = s.unicode_len();
    if n == 0 {
        return None;
    }
    let first = s.get_char(0);
    let neg = first == '-';
    let signed = neg || first == '+';
    let start: usize = if signed { 1 } else { 0 };
    if start >= n {
        return None;
    }
    let ghost ds = s@.subrange(start as int, n as int);
    assert(signed ==> ds =~= s@.drop_first());
    assert(!signed ==> ds =~= s@);
    let mut acc: u64 = 0;
    let mut i: usize = start;
    while i < n
        invariant
            n == s@.len(),
            start <= i <= n,
            ds == s@.subrange(start as int, n as int),
            neg == (s@[0] == '-'),
            signed == (s@[0] == '-' || s@[0] == '+'),
            signed ==> start == 1 && ds == s@.drop_first(),
            !signed ==> start == 0 && ds == s@,
            acc as int == digits_value(ds.subrange(0, i - start)),
            acc <= 2147483648,
            forall|j: int| start <= j < i ==> is_ascii_digit(#[trigger] s@[j]),
        decreases n - i,
    {
        let c = s.get_char(i);
        if !('0' <= c && c <= '9') {
            assert(!is_ascii_digit(ds[i - start]));
            return None;
        }
        let ghost k = i - start;
        assert(ds.subrange(0, k + 1).drop_last() =~= ds.subrange(0, k));
        acc = acc * 10 + (c as u32 - 48) as u64;
        if acc > 2147483648 {
            proof {
                assert forall|j: int| 0 <= j <= k implies is_ascii_digit(#[trigger] ds[j]) by {
                    assert(ds[j] == s@[start + j]);
                }
                if all_digits(ds) {
                    lemma_digits_value_grows(ds, k + 1);
                }
            }
            return None;
        }
        i = i + 1;
    }
    assert(ds.subrange(0, n - start) =~= ds);
    assert(all_digits(ds)) by {
        assert forall|j: int| 0 <= j < ds.len() implies is_ascii_digit(#[trigger] ds[j]) by {
            assert(ds[j] == s@[start + j]);
        }
    }
    if neg {
        Some((0 - acc as i64) as i32)
    } else if acc <= 2147483647 {
        Some(acc as i32)
    } else {
        None
    }
}

fn digit_text(d: u32) -> (r: &'static str)
    requires
        d < 10,
    ensures
        r@ == seq![digit_char(d as int)],
{
    match d {
        0 => {
            let t = "0";
            proof {
                reveal_strlit("0");
                assert(t@ =~= seq![digit_char(0)]);
            }
            t
        },
        1 => {
            let t = "1";
            proof {
                reveal_strlit("1");
                assert(t@ =~= seq![digit_char(1)]);
            }
            t
        },
        2 => {
            let t = "2";
            proof {
                reveal_strlit("2");
                assert(t@ =~= seq![digit_char(2)]);
            }
            t
        },
        3 => {
            let t = "3";
            proof {
                reveal_strlit("3");
                assert(t@ =~= seq![digit_char(3)]);
            }
            t
        },
        4 => {
            let t = "4";
            proof {
                reveal_strlit("4");
                assert(t@ =~= seq![digit_char(4)]);
            }
            t
        },
        5 => {
            let t = "5";
            proof {
                reveal_strlit("5");
                assert(t@ =~= seq![digit_char(5)]);
            }
            t
        },
        6 => {
            let t = "6";
            proof {
                reveal_strlit("6");
                assert(t@ =~= seq![digit_char(6)]);
            }
            t
        },
        7 => {
            let t = "7";
            proof {
                reveal_strlit("7");
                assert(t@ =~= seq![digit_char(7)]);
            }
            t
        },
        8 => {
            let t = "8";
            proof {
                reveal_strlit("8");
                assert(t@ =~= seq![digit_char(8)]);
            }
            t
        },
        _ => {
            let t = "9";
            proof {
                reveal_strlit("9");
                assert(t@ =~= seq![digit_char(9)]);
            }
            t
        },
    }
}

fn append_digits(out: &mut String, n: u32)
    ensures
        final(out)@ == old(out)@ + digits_of(n as nat),
    decreases n,
{
    if n >= 10 {
        append_digits(out, n / 10);
    }
    out.append(digit_text(n % 10));
    proof {
        if n >= 10 {
            assert(digits_of(n as nat) == digits_of((n / 10) as nat).push(digit_char((n % 10) as int)));
        } else {
            assert(digits_of(n as nat) == seq![digit_char(n as int)]);
        }
    }
    assert(final(out)@ =~= old(out)@ + digits_of(n as nat));
}

/// The decimal text of `n` (see `decimal_text`).
pub fn int_text(n: i32) -> (r: String)
    ensures
        r@ == decimal_text(n as int),
{
    let mut out = String::new();
    if n < 0 {
        out.append("-");
        proof {
            reveal_strlit("-");
        }
        let m = (0 - n as i64) as u32;
        append_digits(&mut out, m);
        assert(out@ =~= seq!['-'] + digits_of((-n) as nat));
    } else {
        append_digits(&mut out, n as u32);
        assert(out@ =~= digits_of(n as nat));
    }
    out
}

/// Whether two texts are equal, character by character.
pub fn same_text(a: &str, b: &str) -> (r: bool)
    ensures
        r == (a@ == b@),
{
    let n = a.unicode_len();
    if n != b.unicode_len() {
        return false;
    }
    let mut i: usize = 0;
    while i < n
        invariant
            n == a@.len(),
            n == b@.len(),
            i <= n,
            forall|j: int| 0 <= j < i ==> a@[j] == b@[j],
        decreases n - i,
    {
        if a.get_char(i) != b.get_char(i) {
            return false;
        }
        i = i + 1;
    }
    assert(a@ =~= b@);
    true
}

} // verus!
