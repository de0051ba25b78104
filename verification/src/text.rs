//! Character-level string toolbox: decimal rendering, whitespace handling,
//! substring search and the conversions between `String` and `Vec<char>`.
use vstd::prelude::*;

verus! {

/// The character of a decimal digit.
pub open spec fn digit_char(d: nat) -> char
    recommends
        d < 10,
{
    (48 + d) as char
}

/// Decimal rendering of a natural number, without leading zeros.
pub open spec fn nat_dec(n: nat) -> Seq<char>
    decreases n,
{
    if n < 10 {
        seq![digit_char(n)]
    } else {
        nat_dec(n / 10).push(digit_char(n % 10))
    }
}

/// Decimal rendering of an integer, as `Display` prints it.
pub open spec fn int_dec(n: int) -> Seq<char> {
    if n < 0 {
        seq!['-'] + nat_dec((-n) as nat)
    } else {
        nat_dec(n as nat)
    }
}

/// `String::push`.
#[verifier::external_body]
pub fn string_push(s: &mut String, c: char)
    ensures
        final(s)@ == old(s)@.push(c),
{
    s.push(c);
}

/// `str::chars` collected into a vector.
pub fn str_chars(s: &str) -> (r: Vec<char>)
    ensures
        r@ == s@,
{
    broadcast use vstd::string::axiom_spec_iter, vstd::string::next_postcondition;

    let mut chars = s.chars();
    let mut out: Vec<char> = Vec::new();
    assert(vstd::std_specs::iter::IteratorSpec::remaining(&chars) == s@);
    loop
        invariant
            out@ + vstd::std_specs::iter::IteratorSpec::remaining(&chars) == s@,
            vstd::std_specs::iter::IteratorSpec::decrease(&chars) is Some,
        ensures
            out@ == s@,
        decreases vstd::std_specs::iter::IteratorSpec::decrease(&chars)->0,
    {
        let ghost before = vstd::std_specs::iter::IteratorSpec::remaining(&chars);
        match chars.next() {
            Some(c) => {
                out.push(c);
                assert(out@ + vstd::std_specs::iter::IteratorSpec::remaining(&chars) =~= s@) by {
                    assert(before =~= seq![c] + before.drop_first());
                }
            },
            None => {
                assert(out@ =~= s@);
                break ;
            },
        }
    }
    out
}

/// Appends every character of `v` to `s`.
pub fn push_chars(s: &mut String, v: &Vec<char>)
    ensures
        final(s)@ == old(s)@ + v@,
{
    let mut i: usize = 0;
    while i < v.len()
        invariant
            i <= v.len(),
            s@ == old(s)@ + v@.subrange(0, i as int),
        decreases v.len() - i,
    {
        string_push(s, v[i]);
        i = i + 1;
        assert(v@.subrange(0, i as int) == v@.subrange(0, i - 1).push(v@[i - 1]));
    }
    assert(v@.subrange(0, v.len() as int) == v@);
}

/// Appends every character of `t` to `s`.
pub fn push_str(s: &mut String, t: &str)
    ensures
        final(s)@ == old(s)@ + t@,
{
    let v = str_chars(t);
    push_chars(s, &v);
}

/// A `String` holding exactly the given characters.
pub fn string_of_chars(v: &Vec<char>) -> (r: String)
    ensures
        r@ == v@,
{
    let mut s = String::new();
    push_chars(&mut s, v);
    s
}

/// A `String` holding the characters `v[from..to]`.
pub fn string_of_range(v: &Vec<char>, from: usize, to: usize) -> (r: String)
    requires
        from <= to <= v.len(),
    ensures
        r@ == v@.subrange(from as int, to as int),
{
    let mut s = String::new();
    let mut i = from;
    while i < to
        invariant
            from <= i <= to,
            to <= v.len(),
            s@ == v@.subrange(from as int, i as int),
        decreases to - i,
    {
        string_push(&mut s, v[i]);
        i = i + 1;
        assert(v@.subrange(from as int, i as int) == v@.subrange(from as int, i - 1).push(
            v@[i - 1],
        ));
    }
    s
}

/// Decimal digits of `n`.
pub fn u64_dec_chars(n: u64) -> (r: Vec<char>)
    ensures
        r@ == nat_dec(n as nat),
{
    let mut m = n;
    let mut suffix: Vec<char> = Vec::new();
    while m >= 10
        invariant
            nat_dec(n as nat) == nat_dec(m as nat) + suffix@,
        decreases m,
    {
        let d = m % 10;
        let c = ((48 + d) as u8) as char;
        let ghost prev = suffix@;
        suffix.insert(0, c);
        assert(c == digit_char((m % 10) as nat));
        assert(nat_dec(m as nat) == nat_dec((m / 10) as nat).push(c));
        assert(suffix@ == seq![c] + prev);
        assert(nat_dec((m / 10) as nat).push(c) + prev == nat_dec((m / 10) as nat) + (seq![c]
            + prev));
        m = m / 10;
    }
    let c = ((48 + m) as u8) as char;
    let ghost prev = suffix@;
    suffix.insert(0, c);
    assert(suffix@ == seq![c] + prev);
    suffix
}

/// `n.to_string()` for unsigned integers.
pub fn u64_to_string(n: u64) -> (r: String)
    ensures
        r@ == nat_dec(n as nat),
{
    let v = u64_dec_chars(n);
    string_of_chars(&v)
}

/// `n.to_string()` for signed integers.
pub fn i64_to_string(n: i64) -> (r: String)
    ensures
        r@ == int_dec(n as int),
{
    if n < 0 {
        let mag: u64 = (-(n as i128)) as u64;
        let v = u64_dec_chars(mag);
        let mut s = String::new();
        string_push(&mut s, '-');
        push_chars(&mut s, &v);
        s
    } else {
        u64_to_string(n as u64)
    }
}

} // verus!

verus! {

/// Whether every character is an ASCII decimal digit.
pub open spec fn all_digits(s: Seq<char>) -> bool {
    forall|i: int| 0 <= i < s.len() ==> '0' <= #[trigger] s[i] <= '9'
}

/// Value of a string of decimal digits.
pub open spec fn digits_value(s: Seq<char>) -> nat
    decreases s.len(),
{
    if s.len() == 0 {
        0
    } else {
        digits_value(s.drop_last()) * 10 + ((s.last() as int - 48) as nat)
    }
}

/// What `str::parse` reads from an integer literal: an optional `+` or `-`
/// followed by at least one decimal digit, before any range check.
pub open spec fn parse_int(s: Seq<char>) -> Option<int> {
    if s.len() > 0 && s[0] == '-' {
        if s.len() > 1 && all_digits(s.drop_first()) {
            Some(-(digits_value(s.drop_first()) as int))
        } else {
            None
        }
    } else if s.len() > 0 && s[0] == '+' {
        if s.len() > 1 && all_digits(s.drop_first()) {
            Some(digits_value(s.drop_first()) as int)
        } else {
            None
        }
    } else if s.len() > 0 && all_digits(s) {
        Some(digits_value(s) as int)
    } else {
        None
    }
}

/// `s.parse::<i64>().ok()`.
pub open spec fn parse_i64(s: Seq<char>) -> Option<i64> {
    match parse_int(s) {
        Some(v) => if i64::MIN <= v <= i64::MAX {
            Some(v as i64)
        } else {
            None
        },
        None => None,
    }
}

/// `s.parse::<i32>().ok()`.
pub open spec fn parse_i32(s: Seq<char>) -> Option<i32> {
    match parse_int(s) {
        Some(v) => if i32::MIN <= v <= i32::MAX {
            Some(v as i32)
        } else {
            None
        },
        None => None,
    }
}

proof fn lemma_digits_value_grows(s: Seq<char>, i: int)
    requires
        0 <= i <= s.len(),
        all_digits(s),
    ensures
        digits_value(s.subrange(0, i)) <= digits_value(s),
    decreases s.len() - i,
{
    if i < s.len() {
        lemma_digits_value_grows(s, i + 1);
        let t = s.subrange(0, i + 1);
        assert(t.drop_last() == s.subrange(0, i));
        assert('0' <= t.last() <= '9');
    } else {
        assert(s.subrange(0, i) == s);
    }
}

/// Reads the digits `v[from..]` as a number, or `None` when some character
/// is not a digit, there is no digit, or the value exceeds `bound`.
fn digits_bounded(v: &Vec<char>, from: usize, bound: u64) -> (r: Option<u64>)
    requires
        from <= v.len(),
    ensures
        match r {
            Some(x) => from < v.len() && all_digits(v@.subrange(from as int, v.len() as int))
                && x == digits_value(v@.subrange(from as int, v.len() as int)) && x <= bound,
            None => !(from < v.len() && all_digits(v@.subrange(from as int, v.len() as int))
                && digits_value(v@.subrange(from as int, v.len() as int)) <= bound),
        },
{
    if from >= v.len() {
        return None;
    }
    let ghost s = v@.subrange(from as int, v.len() as int);
    let mut acc: u128 = 0;
    let mut i = from;
    while i < v.len()
        invariant
            from <= i <= v.len(),
            s == v@.subrange(from as int, v.len() as int),
            all_digits(s.subrange(0, i - from)),
            acc == digits_value(s.subrange(0, i - from)),
            acc <= bound,
        decreases v.len() - i,
    {
        let c = v[i];
        if !('0' <= c && c <= '9') {
            assert(s[i - from] == c);
            return None;
        }
        let d = (c as u32 - 48) as u128;
        let ghost t = s.subrange(0, i + 1 - from);
        assert(t.drop_last() == s.subrange(0, i - from));
        assert(t.last() == c);
        assert(all_digits(t));
        assert(digits_value(t) == acc * 10 + d);
        if acc * 10 + d > bound as u128 {
            proof {
                if all_digits(s) {
                    lemma_digits_value_grows(s, i + 1 - from);
                }
            }
            return None;
        }
        acc = acc * 10 + d;
        i = i + 1;
    }
    assert(s.subrange(0, v.len() - from) == s);
    Some(acc as u64)
}

/// `s.parse::<i64>().ok()` over the characters of `v`.
pub fn parse_i64_chars(v: &Vec<char>) -> (r: Option<i64>)
    ensures
        r == parse_i64(v@),
{
    let ghost s = v@;
    if v.len() > 0 && v[0] == '-' {
        assert(s.drop_first() == s.subrange(1, s.len() as int));
        match digits_bounded(v, 1, 0x8000_0000_0000_0000u64) {
            Some(x) => {
                if x == 0x8000_0000_0000_0000u64 {
                    Some(i64::MIN)
                } else {
                    Some(-(x as i64))
                }
            },
            None => None,
        }
    } else if v.len() > 0 && v[0] == '+' {
        assert(s.drop_first() == s.subrange(1, s.len() as int));
        match digits_bounded(v, 1, 0x7fff_ffff_ffff_ffffu64) {
            Some(x) => Some(x as i64),
            None => None,
        }
    } else {
        assert(s == s.subrange(0, s.len() as int));
        match digits_bounded(v, 0, 0x7fff_ffff_ffff_ffffu64) {
            Some(x) => Some(x as i64),
            None => None,
        }
    }
}

/// An integer literal (as `parse_int` reads it) within `u64`.
pub fn parse_u64_chars(v: &Vec<char>) -> (r: Option<u64>)
    ensures
        match parse_int(v@) {
            Some(n) => if 0 <= n <= u64::MAX {
                r == Some(n as u64)
            } else {
                r is None
            },
            None => r is None,
        },
{
    let ghost s = v@;
    if v.len() > 0 && v[0] == '-' {
        assert(s.drop_first() == s.subrange(1, s.len() as int));
        match digits_bounded(v, 1, 0) {
            Some(x) => Some(0),
            None => None,
        }
    } else if v.len() > 0 && v[0] == '+' {
        assert(s.drop_first() == s.subrange(1, s.len() as int));
        digits_bounded(v, 1, u64::MAX)
    } else {
        assert(s == s.subrange(0, s.len() as int));
        digits_bounded(v, 0, u64::MAX)
    }
}

/// `s.parse::<i64>().ok()`.
pub fn parse_i64_str(s: &str) -> (r: Option<i64>)
    ensures
        r == parse_i64(s@),
{
    let v = str_chars(s);
    parse_i64_chars(&v)
}

/// `s.parse::<i32>().ok()` over the characters of `v`.
pub fn parse_i32_chars(v: &Vec<char>) -> (r: Option<i32>)
    ensures
        r == parse_i32(v@),
{
    let ghost s = v@;
    if v.len() > 0 && v[0] == '-' {
        assert(s.drop_first() == s.subrange(1, s.len() as int));
        match digits_bounded(v, 1, 0x8000_0000u64) {
            Some(x) => {
                if x == 0x8000_0000u64 {
                    Some(i32::MIN)
                } else {
                    Some(-(x as i32))
                }
            },
            None => None,
        }
    } else if v.len() > 0 && v[0] == '+' {
        assert(s.drop_first() == s.subrange(1, s.len() as int));
        match digits_bounded(v, 1, 0x7fff_ffffu64) {
            Some(x) => Some(x as i32),
            None => None,
        }
    } else {
        assert(s == s.subrange(0, s.len() as int));
        match digits_bounded(v, 0, 0x7fff_ffffu64) {
            Some(x) => Some(x as i32),
            None => None,
        }
    }
}

/// Whether two character vectors are equal.
pub fn chars_eq(a: &Vec<char>, b: &Vec<char>) -> (r: bool)
    ensures
        r == (a@ == b@),
{
    if a.len() != b.len() {
        return false;
    }
    let mut i: usize = 0;
    while i < a.len()
        invariant
            i <= a.len(),
            a.len() == b.len(),
            forall|j: int| 0 <= j < i ==> a@[j] == b@[j],
        decreases a.len() - i,
    {
        if a[i] != b[i] {
            return false;
        }
        i = i + 1;
    }
    assert(a@ == b@);
    true
}

/// `a == b` on string slices.
pub fn str_eq(a: &str, b: &str) -> (r: bool)
    ensures
        r == (a@ == b@),
{
    let x = str_chars(a);
    let y = str_chars(b);
    chars_eq(&x, &y)
}

/// An owned copy of a string slice.
pub fn string_of_str(s: &str) -> (r: String)
    ensures
        r@ == s@,
{
    s.to_owned()
}

/// `char::is_whitespace`: the Unicode `White_Space` property.
pub open spec fn is_ws(c: char) -> bool {
    ||| ('\u{9}' <= c <= '\u{d}')
    ||| c == ' '
    ||| c == '\u{85}'
    ||| c == '\u{a0}'
    ||| c == '\u{1680}'
    ||| ('\u{2000}' <= c <= '\u{200a}')
    ||| c == '\u{2028}'
    ||| c == '\u{2029}'
    ||| c == '\u{202f}'
    ||| c == '\u{205f}'
    ||| c == '\u{3000}'
}

/// `char::is_whitespace`.
pub fn char_is_ws(c: char) -> (r: bool)
    ensures
        r == is_ws(c),
{
    ('\u{9}' <= c && c <= '\u{d}') || c == ' ' || c == '\u{85}' || c == '\u{a0}' || c == '\u{1680}'
        || ('\u{2000}' <= c && c <= '\u{200a}') || c == '\u{2028}' || c == '\u{2029}' || c
        == '\u{202f}' || c == '\u{205f}' || c == '\u{3000}'
}

/// `str::trim_start`.
pub open spec fn trim_start(s: Seq<char>) -> Seq<char>
    decreases s.len(),
{
    if s.len() > 0 && is_ws(s[0]) {
        trim_start(s.drop_first())
    } else {
        s
    }
}

/// `str::trim_end`.
pub open spec fn trim_end(s: Seq<char>) -> Seq<char>
    decreases s.len(),
{
    if s.len() > 0 && is_ws(s.last()) {
        trim_end(s.drop_last())
    } else {
        s
    }
}

/// `str::trim`.
pub open spec fn trim(s: Seq<char>) -> Seq<char> {
    trim_end(trim_start(s))
}

/// `str::trim` on characters.
pub fn trim_chars(v: &Vec<char>) -> (r: Vec<char>)
    ensures
        r@ == trim(v@),
{
    let mut i: usize = 0;
    assert(v@.subrange(0, v.len() as int) == v@);
    while i < v.len() && char_is_ws(v[i])
        invariant
            i <= v.len(),
            trim_start(v@) == trim_start(v@.subrange(i as int, v.len() as int)),
        decreases v.len() - i,
    {
        let ghost rest = v@.subrange(i as int, v.len() as int);
        assert(rest.drop_first() == v@.subrange(i + 1, v.len() as int));
        i = i + 1;
    }
    let ghost ts = v@.subrange(i as int, v.len() as int);
    assert(trim_start(ts) == ts);
    let mut j: usize = v.len();
    while j > i && char_is_ws(v[j - 1])
        invariant
            i <= j <= v.len(),
            ts == v@.subrange(i as int, v.len() as int),
            trim_end(ts) == trim_end(v@.subrange(i as int, j as int)),
        decreases j,
    {
        let ghost cur = v@.subrange(i as int, j as int);
        assert(cur.drop_last() == v@.subrange(i as int, j - 1));
        j = j - 1;
    }
    let mut out: Vec<char> = Vec::new();
    let mut k = i;
    while k < j
        invariant
            i <= k <= j,
            j <= v.len(),
            out@ == v@.subrange(i as int, k as int),
        decreases j - k,
    {
        out.push(v[k]);
        k = k + 1;
        assert(v@.subrange(i as int, k as int) == v@.subrange(i as int, k - 1).push(v@[k - 1]));
    }
    out
}

/// `s.trim().to_string()`.
pub fn trim_string(s: &str) -> (r: String)
    ensures
        r@ == trim(s@),
{
    let v = str_chars(s);
    let t = trim_chars(&v);
    string_of_chars(&t)
}

/// Whether `pat` occurs in `s` at position `i`.
pub open spec fn occurs_at(s: Seq<char>, pat: Seq<char>, i: int) -> bool {
    0 <= i && i + pat.len() <= s.len() && s.subrange(i, i + pat.len()) == pat
}

/// `str::find`: the first position where `pat` occurs.
pub open spec fn find(s: Seq<char>, pat: Seq<char>) -> Option<int>
    decreases s.len(),
{
    if occurs_at(s, pat, 0) {
        Some(0)
    } else if s.len() == 0 {
        None
    } else {
        match find(s.drop_first(), pat) {
            Some(k) => Some(k + 1),
            None => None,
        }
    }
}

/// `str::contains`.
pub open spec fn contains(s: Seq<char>, pat: Seq<char>) -> bool {
    find(s, pat) is Some
}

proof fn lemma_occurs_shift(s: Seq<char>, pat: Seq<char>, i: int)
    requires
        0 <= i < s.len(),
    ensures
        occurs_at(s.subrange(i, s.len() as int).drop_first(), pat, 0) == occurs_at(s, pat, i + 1),
        s.subrange(i, s.len() as int).drop_first() == s.subrange(i + 1, s.len() as int),
{
    let t = s.subrange(i, s.len() as int).drop_first();
    assert(t == s.subrange(i + 1, s.len() as int));
    if i + 1 + pat.len() <= s.len() {
        assert(t.subrange(0, pat.len() as int) == s.subrange(i + 1, i + 1 + pat.len()));
    }
}

/// Whether `pat` occurs in `s` at position `i`.
pub fn occurs_at_exec(s: &Vec<char>, pat: &Vec<char>, i: usize) -> (r: bool)
    ensures
        r == occurs_at(s@, pat@, i as int),
{
    if i > s.len() || pat.len() > s.len() - i {
        return false;
    }
    let mut k: usize = 0;
    while k < pat.len()
        invariant
            k <= pat.len(),
            i + pat.len() <= s.len(),
            forall|t: int| 0 <= t < k ==> s@[i + t] == pat@[t],
        decreases pat.len() - k,
    {
        if s[i + k] != pat[k] {
            assert(s@.subrange(i as int, i + pat.len())[k as int] != pat@[k as int]);
            return false;
        }
        k = k + 1;
    }
    assert(s@.subrange(i as int, i + pat.len()) == pat@);
    true
}

/// The first position at or after `from` where `pat` occurs, as `find` on
/// the suffix `s[from..]` counts it.
pub fn find_from(s: &Vec<char>, pat: &Vec<char>, from: usize) -> (r: Option<usize>)
    requires
        from <= s.len(),
    ensures
        match find(s@.subrange(from as int, s.len() as int), pat@) {
            Some(k) => r == Some((from + k) as usize),
            None => r is None,
        },
{
    let ghost base = s@.subrange(from as int, s.len() as int);
    let mut i = from;
    while i < s.len()
        invariant
            from <= i <= s.len(),
            base == s@.subrange(from as int, s.len() as int),
            find(base, pat@) == (match find(s@.subrange(i as int, s.len() as int), pat@) {
                Some(k) => Some(k + (i - from)),
                None => None,
            }),
        decreases s.len() - i,
    {
        let ghost cur = s@.subrange(i as int, s.len() as int);
        assert(occurs_at(cur, pat@, 0) == occurs_at(s@, pat@, i as int)) by {
            if i + pat@.len() <= s@.len() {
                assert(cur.subrange(0, pat@.len() as int) == s@.subrange(i as int, i + pat@.len()));
            }
        }
        if occurs_at_exec(s, pat, i) {
            return Some(i);
        }
        proof {
            lemma_occurs_shift(s@, pat@, i as int);
        }
        i = i + 1;
    }
    let ghost last = s@.subrange(i as int, s.len() as int);
    assert(last.len() == 0);
    if pat.len() == 0 {
        assert(occurs_at(last, pat@, 0)) by {
            assert(last.subrange(0, 0) == pat@);
        }
        return Some(i);
    }
    None
}

/// `str::replace`: every non-overlapping occurrence of `from`, scanning left
/// to right, replaced by `to`.
pub open spec fn replace_all(s: Seq<char>, from: Seq<char>, to: Seq<char>) -> Seq<char>
    recommends
        from.len() > 0,
    decreases s.len(),
{
    if s.len() == 0 || from.len() == 0 {
        s
    } else if occurs_at(s, from, 0) {
        to + replace_all(s.subrange(from.len() as int, s.len() as int), from, to)
    } else {
        seq![s[0]] + replace_all(s.drop_first(), from, to)
    }
}

/// `s.replace(from, to)` on characters, for a non-empty pattern.
pub fn replace_all_chars(s: &Vec<char>, from: &Vec<char>, to: &Vec<char>) -> (r: Vec<char>)
    requires
        from.len() > 0,
    ensures
        r@ == replace_all(s@, from@, to@),
{
    let mut out: Vec<char> = Vec::new();
    let mut i: usize = 0;
    assert(s@.subrange(0, s.len() as int) == s@);
    assert(Seq::<char>::empty() + replace_all(s@, from@, to@) == replace_all(s@, from@, to@));
    while i < s.len()
        invariant
            i <= s.len(),
            from@.len() > 0,
            replace_all(s@, from@, to@) == out@ + replace_all(
                s@.subrange(i as int, s.len() as int),
                from@,
                to@,
            ),
        decreases s.len() - i,
    {
        let ghost cur = s@.subrange(i as int, s.len() as int);
        assert(occurs_at(cur, from@, 0) == occurs_at(s@, from@, i as int)) by {
            if i + from@.len() <= s@.len() {
                assert(cur.subrange(0, from@.len() as int) == s@.subrange(
                    i as int,
                    i + from@.len(),
                ));
            }
        }
        if occurs_at_exec(s, from, i) {
            let ghost prev = out@;
            let mut k: usize = 0;
            while k < to.len()
                invariant
                    k <= to.len(),
                    out@ == prev + to@.subrange(0, k as int),
                decreases to.len() - k,
            {
                out.push(to[k]);
                k = k + 1;
                assert(to@.subrange(0, k as int) == to@.subrange(0, k - 1).push(to@[k - 1]));
            }
            assert(to@.subrange(0, to.len() as int) == to@);
            assert(cur.subrange(from@.len() as int, cur.len() as int) == s@.subrange(
                i + from@.len(),
                s.len() as int,
            ));
            assert(prev + (to@ + replace_all(
                s@.subrange(i + from@.len(), s.len() as int),
                from@,
                to@,
            )) == out@ + replace_all(s@.subrange(i + from@.len(), s.len() as int), from@, to@));
            i = i + from.len();
        } else {
            let ghost prev = out@;
            out.push(s[i]);
            assert(cur.drop_first() == s@.subrange(i + 1, s.len() as int));
            assert(prev + (seq![s@[i as int]] + replace_all(
                s@.subrange(i + 1, s.len() as int),
                from@,
                to@,
            )) == out@ + replace_all(s@.subrange(i + 1, s.len() as int), from@, to@));
            i = i + 1;
        }
    }
    assert(replace_all(s@.subrange(i as int, s.len() as int), from@, to@) == Seq::<char>::empty());
    out
}

/// `s.contains(pat)`.
pub fn contains_str(s: &str, pat: &str) -> (r: bool)
    ensures
        r == contains(s@, pat@),
{
    let a = str_chars(s);
    let b = str_chars(pat);
    assert(a@.subrange(0, a@.len() as int) == a@);
    find_from(&a, &b, 0).is_some()
}

/// The concatenation of two texts.
pub fn concat(a: &str, b: &str) -> (r: String)
    ensures
        r@ == a@ + b@,
{
    let mut s = string_of_str(a);
    push_str(&mut s, b);
    s
}

/// `str::split_whitespace`: the maximal runs of non-whitespace.
pub open spec fn words(s: Seq<char>) -> Seq<Seq<char>>
    decreases s.len(),
{
    if s.len() == 0 {
        Seq::empty()
    } else {
        let w = words(s.drop_last());
        let c = s.last();
        if is_ws(c) {
            w
        } else if s.len() >= 2 && !is_ws(s[s.len() - 2]) {
            w.update(w.len() - 1, w.last().push(c))
        } else {
            w.push(seq![c])
        }
    }
}

/// Pieces joined by single spaces.
pub open spec fn join_space(ws: Seq<Seq<char>>) -> Seq<char>
    decreases ws.len(),
{
    if ws.len() == 0 {
        Seq::empty()
    } else if ws.len() == 1 {
        ws[0]
    } else {
        join_space(ws.drop_last()) + seq![' '] + ws.last()
    }
}

/// `s.split_whitespace().collect::<Vec<_>>().join(" ")`.
pub open spec fn collapse_ws(s: Seq<char>) -> Seq<char> {
    join_space(words(s))
}

proof fn lemma_words_last(s: Seq<char>)
    requires
        s.len() > 0,
        !is_ws(s.last()),
    ensures
        words(s).len() > 0,
    decreases s.len(),
{
    if s.len() >= 2 && !is_ws(s[s.len() - 2]) {
        let d = s.drop_last();
        assert(d.last() == s[s.len() - 2]);
        lemma_words_last(d);
    }
}

proof fn lemma_join_extend(w: Seq<Seq<char>>, c: char)
    requires
        w.len() > 0,
    ensures
        join_space(w.update(w.len() - 1, w.last().push(c))) == join_space(w).push(c),
{
    let u = w.update(w.len() - 1, w.last().push(c));
    if w.len() == 1 {
    } else {
        assert(u.drop_last() == w.drop_last());
    }
}

/// `s.split_whitespace().collect::<Vec<_>>().join(" ")`.
pub fn collapse_ws_str(s: &str) -> (r: String)
    ensures
        r@ == collapse_ws(s@),
{
    let v = str_chars(s);
    let mut out = String::new();
    let mut in_word = false;
    let mut any = false;
    let mut i: usize = 0;
    while i < v.len()
        invariant
            i <= v.len(),
            v@ == s@,
            out@ == join_space(words(v@.subrange(0, i as int))),
            in_word == (i > 0 && !is_ws(v@[i - 1])),
            any == (words(v@.subrange(0, i as int)).len() > 0),
        decreases v.len() - i,
    {
        let c = v[i];
        let ghost pre = v@.subrange(0, i as int);
        let ghost next = v@.subrange(0, i + 1);
        assert(next.drop_last() == pre);
        assert(next.last() == c);
        let ghost w = words(pre);
        if char_is_ws(c) {
            in_word = false;
        } else if in_word {
            assert(next[next.len() - 2] == v@[i - 1]);
            proof {
                lemma_words_last(pre);
                lemma_join_extend(w, c);
            }
            string_push(&mut out, c);
        } else {
            if i >= 1 {
                assert(next[next.len() - 2] == v@[i - 1]);
            }
            assert(words(next) == w.push(seq![c]));
            if any {
                string_push(&mut out, ' ');
                assert(w.push(seq![c]).drop_last() == w);
            } else {
                assert(w.len() == 0);
            }
            string_push(&mut out, c);
            assert(out@ == join_space(w.push(seq![c])));
            in_word = true;
            any = true;
        }
        i = i + 1;
    }
    assert(v@.subrange(0, v.len() as int) == v@);
    out
}

/// `str::split` on any of the separator characters: the pieces between
/// separators, empty ones included.
pub open spec fn split_on(s: Seq<char>, seps: Seq<char>) -> Seq<Seq<char>>
    decreases s.len(),
{
    if s.len() == 0 {
        seq![Seq::empty()]
    } else {
        let p = split_on(s.drop_last(), seps);
        if seps.contains(s.last()) {
            p.push(Seq::empty())
        } else {
            p.update(p.len() - 1, p.last().push(s.last()))
        }
    }
}

pub proof fn lemma_split_on_nonempty(s: Seq<char>, seps: Seq<char>)
    ensures
        split_on(s, seps).len() >= 1,
    decreases s.len(),
{
    if s.len() > 0 {
        lemma_split_on_nonempty(s.drop_last(), seps);
    }
}

fn is_sep(c: char, seps: &Vec<char>) -> (r: bool)
    ensures
        r == seps@.contains(c),
{
    let mut i: usize = 0;
    while i < seps.len()
        invariant
            i <= seps.len(),
            forall|j: int| 0 <= j < i ==> seps@[j] != c,
        decreases seps.len() - i,
    {
        if seps[i] == c {
            assert(seps@[i as int] == c);
            return true;
        }
        i = i + 1;
    }
    false
}

/// `s.split(seps)`: the pieces, as character vectors.
pub fn split_chars(v: &Vec<char>, seps: &Vec<char>) -> (r: Vec<Vec<char>>)
    ensures
        r@.len() == split_on(v@, seps@).len(),
        forall|i: int| 0 <= i < r@.len() ==> #[trigger] r@[i]@ == split_on(v@, seps@)[i],
{
    let mut done: Vec<Vec<char>> = Vec::new();
    let mut cur: Vec<char> = Vec::new();
    let mut i: usize = 0;
    assert(v@.subrange(0, 0) == Seq::<char>::empty());
    while i < v.len()
        invariant
            i <= v.len(),
            split_on(v@.subrange(0, i as int), seps@).len() == done@.len() + 1,
            forall|j: int| 0 <= j < done@.len() ==> #[trigger] done@[j]@ == split_on(v@.subrange(0, i as int), seps@)[j],
            cur@ == split_on(v@.subrange(0, i as int), seps@).last(),
        decreases v.len() - i,
    {
        let ghost pre = v@.subrange(0, i as int);
        let ghost next = v@.subrange(0, i + 1);
        assert(next.drop_last() == pre);
        assert(next.last() == v@[i as int]);
        let ghost p = split_on(pre, seps@);
        if is_sep(v[i], seps) {
            let ghost old_done = done@;
            done.push(cur);
            cur = Vec::new();
            assert(split_on(next, seps@) == p.push(Seq::empty()));
            assert forall|j: int| 0 <= j < done@.len() implies #[trigger] done@[j]@ == split_on(next, seps@)[j] by {
                if j < old_done.len() {
                    assert(done@[j] == old_done[j]);
                }
            }
        } else {
            cur.push(v[i]);
            assert(split_on(next, seps@) == p.update(p.len() - 1, p.last().push(v@[i as int])));
        }
        i = i + 1;
    }
    assert(v@.subrange(0, v.len() as int) == v@);
    let ghost old_done = done@;
    done.push(cur);
    assert forall|j: int| 0 <= j < done@.len() implies #[trigger] done@[j]@ == split_on(v@, seps@)[j] by {
        if j < old_done.len() {
            assert(done@[j] == old_done[j]);
        }
    }
    done
}

/// Whether `s` starts with `pre`.
pub open spec fn starts_with(s: Seq<char>, pre: Seq<char>) -> bool {
    pre.len() <= s.len() && s.subrange(0, pre.len() as int) == pre
}

/// `str::starts_with` on characters.
pub fn starts_with_chars(s: &Vec<char>, pre: &Vec<char>) -> (r: bool)
    ensures
        r == starts_with(s@, pre@),
{
    occurs_at_exec(s, pre, 0)
}

} // verus!
