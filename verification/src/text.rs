use vstd::prelude::*;

verus! {

/// True when `c` is one of the characters trimmed away around a command
/// line: the Unicode white-space set, the same set `str::trim` removes.
pub open spec fn is_space(c: char) -> bool {
    c as int == 0x20 || 0x9 <= c as int <= 0xD || c as int == 0x85 || c as int == 0xA0
        || c as int == 0x1680 || 0x2000 <= c as int <= 0x200A || c as int == 0x2028
        || c as int == 0x2029 || c as int == 0x202F || c as int == 0x205F || c as int == 0x3000
}

/// Decides `is_space` at run time.
pub fn char_is_space(c: char) -> (b: bool)
    ensures
        b == is_space(c),
{
    let u = c as u32;
    u == 0x20 || (0x9 <= u && u <= 0xD) || u == 0x85 || u == 0xA0 || u == 0x1680
        || (0x2000 <= u && u <= 0x200A) || u == 0x2028 || u == 0x2029 || u == 0x202F
        || u == 0x205F || u == 0x3000
}

/// Character-wise equality of two text slices.
pub fn str_eq(a: &str, b: &str) -> (r: bool)
    ensures
        r == (a@ == b@),
{
    let alen = a.unicode_len();
    let blen = b.unicode_len();
    if alen != blen {
        return false;
    }
    let mut i: usize = 0;
    while i < alen
        invariant
            a@.len() == alen,
            b@.len() == alen,
            i <= alen,
            forall|j: int| 0 <= j < i ==> a@[j] == b@[j],
        decreases alen - i,
    {
        if a.get_char(i) != b.get_char(i) {
            return false;
        }
        i = i + 1;
    }
    proof {
        assert(a@ =~= b@);
    }
    true
}

/// `s` with its leading white-space removed.
pub open spec fn trim_start(s: Seq<char>) -> Seq<char>
    decreases s.len(),
{
    if s.len() == 0 {
        s
    } else if is_space(s[0]) {
        trim_start(s.drop_first())
    } else {
        s
    }
}

/// `s` with its trailing white-space removed.
pub open spec fn trim_end(s: Seq<char>) -> Seq<char>
    decreases s.len(),
{
    if s.len() == 0 {
        s
    } else if is_space(s.last()) {
        trim_end(s.drop_last())
    } else {
        s
    }
}

/// `s` with white-space removed from both ends, as `str::trim` leaves it.
pub open spec fn spec_trim(s: Seq<char>) -> Seq<char> {
    trim_end(trim_start(s))
}

proof fn lemma_trim_start_at(s: Seq<char>, a: int)
    requires
        0 <= a <= s.len(),
        forall|j: int| 0 <= j < a ==> is_space(s[j]),
        a == s.len() || !is_space(s[a]),
    ensures
        trim_start(s) == s.skip(a),
    decreases a,
{
    if a == 0 {
        assert(s.skip(0) =~= s);
    } else {
        let t = s.drop_first();
        assert(forall|j: int| 0 <= j < a - 1 ==> s[j + 1] == t[j] && is_space(#[trigger] t[j]));
        lemma_trim_start_at(t, a - 1);
        assert(t.skip(a - 1) =~= s.skip(a));
    }
}

proof fn lemma_trim_end_at(s: Seq<char>, b: int)
    requires
        0 <= b <= s.len(),
        forall|j: int| b <= j < s.len() ==> is_space(s[j]),
        b == 0 || !is_space(s[b - 1]),
    ensures
        trim_end(s) == s.take(b),
    decreases s.len() - b,
{
    if b == s.len() {
        assert(s.take(b) =~= s);
    } else {
        let t = s.drop_last();
        lemma_trim_end_at(t, b);
        assert(t.take(b) =~= s.take(b));
    }
}

/// `s` with white-space removed from both ends.
pub fn trim<'a>(s: &'a str) -> (r: &'a str)
    ensures
        r@ == spec_trim(s@),
{
    let len = s.unicode_len();
    let mut a: usize = 0;
    while a < len && char_is_space(s.get_char(a))
        invariant
            s@.len() == len,
            a <= len,
            forall|j: int| 0 <= j < a ==> is_space(s@[j]),
        decreases len - a,
    {
        a = a + 1;
    }
    let mut b: usize = len;
    while b > a && char_is_space(s.get_char(b - 1))
        invariant
            s@.len() == len,
            a <= b <= len,
            forall|j: int| 0 <= j < a ==> is_space(s@[j]),
            forall|j: int| b <= j < len ==> is_space(s@[j]),
        decreases b,
    {
        b = b - 1;
    }
    proof {
        lemma_trim_start_at(s@, a as int);
        if b == a {
            lemma_trim_end_at(s@.skip(a as int), 0);
        } else {
            lemma_trim_end_at(s@.skip(a as int), b - a);
        }
        assert(s@.skip(a as int).take(b - a) =~= s@.subrange(a as int, b as int));
    }
    s.substring_char(a, b)
}

/// True when `c` is a decimal digit.
pub open spec fn is_digit(c: char) -> bool {
    0x30 <= c as int <= 0x39
}

/// The value of the decimal digit `c` (0 for a non-digit).
pub open spec fn digit_val(c: char) -> nat {
    if is_digit(c) {
        (c as int - 0x30) as nat
    } else {
        0
    }
}

/// True when every character of `s` is a decimal digit.
pub open spec fn all_digits(s: Seq<char>) -> bool {
    forall|i: int| 0 <= i < s.len() ==> is_digit(#[trigger] s[i])
}

/// The number a sequence of decimal digits denotes, most significant first.
pub open spec fn digits_val(s: Seq<char>) -> nat
    decreases s.len(),
{
    if s.len() == 0 {
        0
    } else {
        digits_val(s.drop_last()) * 10 + digit_val(s.last())
    }
}

/// Extending a digit string on the right never shrinks its value.
proof fn lemma_digits_val_prefix(s: Seq<char>, i: int)
    requires
        0 <= i <= s.len(),
    ensures
        digits_val(s.take(i)) <= digits_val(s),
    decreases s.len() - i,
{
    if i == s.len() {
        assert(s.take(i) =~= s);
    } else {
        assert(s.take(i + 1).drop_last() =~= s.take(i));
        assert(s.take(i + 1).last() == s[i]);
        lemma_digits_val_prefix(s, i + 1);
    }
}

/// What reading a selector numeral yields: its value, or the fact that it
/// exceeds the machine's range, or that the text is not a numeral at all.
#[derive(Debug, Clone, Copy, PartialEq, Eq, Structural)]
pub enum NumParse {
    Value(usize),
    TooBig,
    NotNumeral,
}

/// Reads the decimal numeral standing at position `start` of `s` and
/// reaching to its end.
pub fn parse_digits(s: &str, start: usize) -> (r: NumParse)
    requires
        start <= s@.len(),
    ensures
        ({
            let t = s@.skip(start as int);
            &&& (r == NumParse::NotNumeral) <==> (t.len() == 0 || !all_digits(t))
            &&& (t.len() > 0 && all_digits(t) && digits_val(t) <= usize::MAX) ==> r
                == NumParse::Value(digits_val(t) as usize)
            &&& (t.len() > 0 && all_digits(t) && digits_val(t) > usize::MAX) ==> r
                == NumParse::TooBig
        }),
{
    let ghost t = s@.skip(start as int);
    let len = s.unicode_len();
    if start >= len {
        return NumParse::NotNumeral;
    }
    let mut i: usize = start;
    while i < len
        invariant
            start <= i <= len,
            s@.len() == len,
            t == s@.skip(start as int),
            forall|j: int| start <= j < i ==> is_digit(#[trigger] s@[j]),
        decreases len - i,
    {
        let u = s.get_char(i) as u32;
        if u < 0x30 || u > 0x39 {
            proof {
                assert(s@.skip(start as int).len() == s@.len() - start);
                assert(s@.skip(start as int)[i - start] == s@[i as int]);
                assert(!is_digit(s@[i as int]));
                assert(!is_digit(t[i - start]));
            }
            return NumParse::NotNumeral;
        }
        i = i + 1;
    }
    proof {
        assert(forall|j: int| 0 <= j < t.len() ==> t[j] == s@[j + start] && is_digit(#[trigger] t[j]));
    }
    let mut acc: usize = 0;
    let mut k: usize = start;
    while k < len
        invariant
            start <= k <= len,
            s@.len() == len,
            t == s@.skip(start as int),
            all_digits(t),
            t.len() > 0,
            acc == digits_val(s@.subrange(start as int, k as int)),
        decreases len - k,
    {
        let c = s.get_char(k);
        proof {
            assert(s@.skip(start as int)[k - start] == s@[k as int]);
            assert(t[k - start] == s@[k as int]);
            assert(is_digit(s@[k as int]));
        }
        let d = (c as u32 - 0x30) as usize;
        proof {
            assert(d == digit_val(s@[k as int]));
            assert(s@.subrange(start as int, k + 1).drop_last() =~= s@.subrange(
                start as int,
                k as int,
            ));
            assert(s@.subrange(start as int, k + 1).last() == s@[k as int]);
        }
        let step = match acc.checked_mul(10) {
            Some(m) => m.checked_add(d),
            None => None,
        };
        match step {
            Some(v) => {
                acc = v;
            },
            None => {
                proof {
                    assert(digits_val(s@.subrange(start as int, k + 1)) > usize::MAX);
                    assert(s@.subrange(start as int, k + 1) =~= t.take(k + 1 - start));
                    lemma_digits_val_prefix(t, k + 1 - start);
                }
                return NumParse::TooBig;
            },
        }
        k = k + 1;
    }
    proof {
        assert(s@.subrange(start as int, len as int) =~= t);
    }
    NumParse::Value(acc)
}

/// The character for the decimal digit `n`.
pub open spec fn dec_digit(n: nat) -> char {
    if n == 0 {
        '0'
    } else if n == 1 {
        '1'
    } else if n == 2 {
        '2'
    } else if n == 3 {
        '3'
    } else if n == 4 {
        '4'
    } else if n == 5 {
        '5'
    } else if n == 6 {
        '6'
    } else if n == 7 {
        '7'
    } else if n == 8 {
        '8'
    } else {
        '9'
    }
}

/// The decimal numeral for `n`, most significant digit first, no sign and
/// no leading zero.
pub open spec fn dec_str(n: nat) -> Seq<char>
    decreases n,
{
    if n < 10 {
        seq![dec_digit(n)]
    } else {
        dec_str(n / 10) + seq![dec_digit(n % 10)]
    }
}

fn append_digit(d: usize, out: &mut String)
    requires
        d < 10,
    ensures
        final(out)@ == old(out)@ + seq![dec_digit(d as nat)],
{
    if d == 0 {
        proof {
            reveal_strlit("0");
        }
        out.append("0");
        assert(out@ =~= old(out)@ + seq![dec_digit(d as nat)]);
    } else if d == 1 {
        proof {
            reveal_strlit("1");
        }
        out.append("1");
        assert(out@ =~= old(out)@ + seq![dec_digit(d as nat)]);
    } else if d == 2 {
        proof {
            reveal_strlit("2");
        }
        out.append("2");
        assert(out@ =~= old(out)@ + seq![dec_digit(d as nat)]);
    } else if d == 3 {
        proof {
            reveal_strlit("3");
        }
        out.append("3");
        assert(out@ =~= old(out)@ + seq![dec_digit(d as nat)]);
    } else if d == 4 {
        proof {
            reveal_strlit("4");
        }
        out.append("4");
        assert(out@ =~= old(out)@ + seq![dec_digit(d as nat)]);
    } else if d == 5 {
        proof {
            reveal_strlit("5");
        }
        out.append("5");
        assert(out@ =~= old(out)@ + seq![dec_digit(d as nat)]);
    } else if d == 6 {
        proof {
            reveal_strlit("6");
        }
        out.append("6");
        assert(out@ =~= old(out)@ + seq![dec_digit(d as nat)]);
    } else if d == 7 {
        proof {
            reveal_strlit("7");
        }
        out.append("7");
        assert(out@ =~= old(out)@ + seq![dec_digit(d as nat)]);
    } else if d == 8 {
        proof {
            reveal_strlit("8");
        }
        out.append("8");
        assert(out@ =~= old(out)@ + seq![dec_digit(d as nat)]);
    } else {
        proof {
            reveal_strlit("9");
        }
        out.append("9");
        assert(out@ =~= old(out)@ + seq![dec_digit(d as nat)]);
    }
}

fn push_dec(n: usize, out: &mut String)
    ensures
        final(out)@ == old(out)@ + dec_str(n as nat),
    decreases n,
{
    if n < 10 {
        append_digit(n, out);
    } else {
        push_dec(n / 10, out);
        append_digit(n % 10, out);
        assert(out@ =~= old(out)@ + dec_str(n as nat));
    }
}

/// The decimal numeral for `n` as a fresh string.
pub fn usize_to_string(n: usize) -> (r: String)
    ensures
        r@ == dec_str(n as nat),
{
    let mut out = String::new();
    push_dec(n, &mut out);
    proof {
        assert(out@ =~= dec_str(n as nat));
    }
    out
}

} // verus!
