//! Character classes and small text utilities shared by the query grammar
//! and the value conversions: slicing by characters, decimal integers,
//! substring search and the byte order of strings.

use vstd::prelude::*;
use vstd::string::StringSliceAdditionalSpecFns;
use vstd::utf8::encode_utf8_decode_utf8;

verus! {

/// ASCII decimal digit.
pub open spec fn is_digit(c: char) -> bool {
    '0' <= c <= '9'
}

/// ASCII letter.
pub open spec fn is_alpha(c: char) -> bool {
    ('a' <= c <= 'z') || ('A' <= c <= 'Z')
}

/// ASCII letter or decimal digit.
pub open spec fn is_alphanumeric(c: char) -> bool {
    is_alpha(c) || is_digit(c)
}

/// Space, tab, carriage return or line feed.
pub open spec fn is_space(c: char) -> bool {
    c == ' ' || c == '\t' || c == '\r' || c == '\n'
}

/// The value of an ASCII decimal digit.
pub open spec fn digit_value(c: char) -> int {
    c as int - '0' as int
}

/// The ASCII digit that stands for `d`, for `d` below ten.
pub open spec fn digit_char(d: int) -> char {
    (d + '0' as int) as char
}

/// The upper-case form of an ASCII letter; any other character unchanged.
pub open spec fn ascii_upper(c: char) -> char {
    if 'a' <= c <= 'z' {
        (c as int - 32) as char
    } else {
        c
    }
}

/// Whether `c` is an ASCII decimal digit.
pub fn char_is_digit(c: char) -> (b: bool)
    ensures
        b == is_digit(c),
{
    '0' <= c && c <= '9'
}

/// Whether `c` is an ASCII letter.
pub fn char_is_alpha(c: char) -> (b: bool)
    ensures
        b == is_alpha(c),
{
    ('a' <= c && c <= 'z') || ('A' <= c && c <= 'Z')
}

/// Whether `c` is an ASCII letter or decimal digit.
pub fn char_is_alphanumeric(c: char) -> (b: bool)
    ensures
        b == is_alphanumeric(c),
{
    char_is_alpha(c) || char_is_digit(c)
}

/// Whether `c` is a space, a tab, a carriage return or a line feed.
pub fn char_is_space(c: char) -> (b: bool)
    ensures
        b == is_space(c),
{
    c == ' ' || c == '\t' || c == '\r' || c == '\n'
}

/// The upper-case form of an ASCII letter; any other character unchanged.
pub fn char_ascii_upper(c: char) -> (u: char)
    ensures
        u == ascii_upper(c),
{
    if 'a' <= c && c <= 'z' {
        ((c as u8) - 32u8) as char
    } else {
        c
    }
}

/// `String::push` appends one character.
pub assume_specification[ std::string::String::push ](s: &mut std::string::String, c: char)
    ensures
        final(s)@ == old(s)@.push(c),
;

/// The first character of `input`, if there is one.
pub fn first_char(input: &str) -> (c: Option<char>)
    ensures
        c == (if input@.len() > 0 {
            Some(input@[0])
        } else {
            None
        }),
{
    if input.is_empty() {
        None
    } else {
        Some(input.get_char(0))
    }
}

/// `input` without its first `count` characters.
pub fn skip_chars(input: &str, count: usize) -> (rest: &str)
    requires
        count <= input@.len(),
    ensures
        rest@ == input@.skip(count as int),
{
    let len = input.unicode_len();
    input.substring_char(count, len)
}

/// The first `count` characters of `input`.
pub fn take_chars(input: &str, count: usize) -> (head: &str)
    requires
        count <= input@.len(),
    ensures
        head@ == input@.take(count as int),
{
    input.substring_char(0, count)
}

/// Passing over whitespace leaves the end of the text, no longer than it was.
pub proof fn lemma_skip_spaces_shorter(s: Seq<char>)
    ensures
        skip_spaces(s).len() <= s.len(),
        skip_spaces(s) == s.skip(s.len() - skip_spaces(s).len()),
{
    lemma_run_bound(s, |c: char| is_space(c));
}

/// `input` without the whitespace at its front.
pub fn trim_start(input: &str) -> (rest: &str)
    ensures
        rest@ == skip_spaces(input@),
        rest@.len() <= input@.len(),
{
    let len = input.unicode_len();
    let mut i: usize = 0;
    while i < len && char_is_space(input.get_char(i))
        invariant
            i <= len,
            len == input@.len(),
            forall|j: int| 0 <= j < i ==> is_space(#[trigger] input@[j]),
        decreases len - i,
    {
        i += 1;
    }
    proof {
        lemma_run_is(input@, |c: char| is_space(c), i as nat);
    }
    input.substring_char(i, len)
}

/// Whether two string slices hold the same characters.
pub fn str_eq(a: &str, b: &str) -> (same: bool)
    ensures
        same == (a@ == b@),
{
    let x = a.as_bytes();
    let y = b.as_bytes();
    proof {
        encode_utf8_decode_utf8(a@);
        encode_utf8_decode_utf8(b@);
    }
    if x.len() != y.len() {
        return false;
    }
    let mut i: usize = 0;
    while i < x.len()
        invariant
            i <= x.len(),
            x.len() == y.len(),
            x@ == a.spec_bytes(),
            y@ == b.spec_bytes(),
            forall|j: int| 0 <= j < i ==> x@[j] == y@[j],
        decreases x.len() - i,
    {
        if x[i] != y[i] {
            return false;
        }
        i += 1;
    }
    assert(x@ =~= y@);
    true
}

/// Whether two texts are the same but for the case of their ASCII letters.
pub open spec fn same_no_case(a: Seq<char>, b: Seq<char>) -> bool {
    a.len() == b.len() && forall|i: int|
        0 <= i < a.len() ==> ascii_upper(#[trigger] a[i]) == ascii_upper(b[i])
}

/// Whether two string slices are the same but for the case of their ASCII
/// letters.
pub fn str_eq_no_case(a: &str, b: &str) -> (same: bool)
    ensures
        same == same_no_case(a@, b@),
{
    let len = a.unicode_len();
    if len != b.unicode_len() {
        return false;
    }
    let mut i: usize = 0;
    while i < len
        invariant
            i <= len,
            len == a@.len(),
            len == b@.len(),
            forall|j: int| 0 <= j < i ==> ascii_upper(#[trigger] a@[j]) == ascii_upper(b@[j]),
        decreases len - i,
    {
        if char_ascii_upper(a.get_char(i)) != char_ascii_upper(b.get_char(i)) {
            return false;
        }
        i += 1;
    }
    true
}

/// An owned copy of `text`.
pub fn owned(text: &str) -> (s: String)
    ensures
        s@ == text@,
{
    text.to_owned()
}

/// The number of characters at the front of `s` that belong to `class`.
pub open spec fn run_of(s: Seq<char>, class: spec_fn(char) -> bool) -> nat
    decreases s.len(),
{
    if s.len() > 0 && class(s[0]) {
        1 + run_of(s.skip(1), class)
    } else {
        0
    }
}

/// The number of decimal digits at the front of `s`.
pub open spec fn digit_run(s: Seq<char>) -> nat {
    run_of(s, |c: char| is_digit(c))
}

/// The number of whitespace characters at the front of `s`.
pub open spec fn space_run(s: Seq<char>) -> nat {
    run_of(s, |c: char| is_space(c))
}

/// `s` without the whitespace at its front.
pub open spec fn skip_spaces(s: Seq<char>) -> Seq<char> {
    s.skip(space_run(s) as int)
}

/// The number that a string of decimal digits writes.
pub open spec fn digits_value(s: Seq<char>) -> int
    decreases s.len(),
{
    if s.len() == 0 {
        0
    } else {
        digits_value(s.drop_last()) * 10 + digit_value(s.last())
    }
}

/// Whether `s` starts with a plus or a minus sign.
pub open spec fn has_sign(s: Seq<char>) -> bool {
    s.len() > 0 && (s[0] == '+' || s[0] == '-')
}

/// The integer written at the front of `s`: an optional sign and the longest
/// run of digits after it, which must not be empty. The result is the value
/// and the number of characters that write it.
pub open spec fn leading_int(s: Seq<char>) -> Option<(int, nat)> {
    let signed = has_sign(s);
    let body = if signed {
        s.skip(1)
    } else {
        s
    };
    let run = digit_run(body);
    let value = digits_value(body.take(run as int));
    if run == 0 {
        None
    } else if signed {
        Some((if s[0] == '-' { -value } else { value }, run + 1))
    } else {
        Some((value, run))
    }
}

/// The 64-bit integer written at the front of `s`, with the number of
/// characters it takes. `None` where no integer stands there or where it does
/// not fit.
pub open spec fn leading_i64(s: Seq<char>) -> Option<(i64, nat)> {
    match leading_int(s) {
        Some((value, used)) => if i64::MIN <= value <= i64::MAX {
            Some((value as i64, used))
        } else {
            None
        },
        None => None,
    }
}

/// The 64-bit integer that the whole of `s` writes: an optional sign, then
/// digits and nothing else.
pub open spec fn whole_i64(s: Seq<char>) -> Option<i64> {
    match leading_i64(s) {
        Some((value, used)) => if used == s.len() {
            Some(value)
        } else {
            None
        },
        None => None,
    }
}

/// A run ends at the first character outside the class, or with the text.
pub proof fn lemma_run_bound(s: Seq<char>, class: spec_fn(char) -> bool)
    ensures
        run_of(s, class) <= s.len(),
        forall|i: int| 0 <= i < run_of(s, class) ==> class(#[trigger] s[i]),
        run_of(s, class) < s.len() ==> !class(s[run_of(s, class) as int]),
    decreases s.len(),
{
    if s.len() > 0 && class(s[0]) {
        let t = s.skip(1);
        lemma_run_bound(t, class);
        assert forall|i: int| 0 <= i < run_of(s, class) implies class(#[trigger] s[i]) by {
            if i > 0 {
                assert(s[i] == t[i - 1]);
            }
        }
        if run_of(s, class) < s.len() {
            assert(s[run_of(s, class) as int] == t[run_of(t, class) as int]);
        }
    }
}

/// A run is found by its two ends: all of the class up to `k`, none at `k`.
pub proof fn lemma_run_is(s: Seq<char>, class: spec_fn(char) -> bool, k: nat)
    requires
        k <= s.len(),
        forall|i: int| 0 <= i < k ==> class(#[trigger] s[i]),
        k < s.len() ==> !class(s[k as int]),
    ensures
        run_of(s, class) == k,
    decreases s.len(),
{
    if k > 0 {
        let t = s.skip(1);
        assert(class(s[0]));
        assert forall|i: int| 0 <= i < k - 1 implies class(#[trigger] t[i]) by {
            assert(t[i] == s[i + 1]);
        }
        if k < s.len() {
            assert(t[k - 1] == s[k as int]);
        }
        lemma_run_is(t, class, (k - 1) as nat);
    }
}

/// Digits write no negative number.
pub proof fn lemma_digits_value_nonnegative(s: Seq<char>)
    requires
        forall|i: int| 0 <= i < s.len() ==> is_digit(#[trigger] s[i]),
    ensures
        0 <= digits_value(s),
    decreases s.len(),
{
    if s.len() > 0 {
        lemma_digits_value_nonnegative(s.drop_last());
        assert(is_digit(s[s.len() - 1]));
    }
}

/// Reads the integer written at the front of `input`, as `leading_i64` says.
/// The second part of the result is the number of characters read.
pub fn read_leading_i64(input: &str) -> (r: Option<(i64, usize)>)
    ensures
        match r {
            Some((value, used)) => leading_i64(input@) == Some((value, used as nat)) && 0 < used
                <= input@.len(),
            None => leading_i64(input@) is None,
        },
{
    let len = input.unicode_len();
    let mut negative = false;
    let mut start: usize = 0;
    if len > 0 {
        let c = input.get_char(0);
        if c == '-' {
            negative = true;
            start = 1;
        } else if c == '+' {
            start = 1;
        }
    }
    let ghost body = input@.skip(start as int);
    let mut i: usize = start;
    let mut acc: i128 = 0;
    let mut overflow = false;
    assert(body.take(0) =~= Seq::<char>::empty());
    while i < len && char_is_digit(input.get_char(i))
        invariant
            start <= i <= len,
            len == input@.len(),
            start == (if has_sign(input@) {
                1int
            } else {
                0int
            }),
            negative == (has_sign(input@) && input@[0] == '-'),
            body == input@.skip(start as int),
            forall|j: int| 0 <= j < i - start ==> is_digit(#[trigger] body[j]),
            !overflow ==> i64::MIN <= acc <= i64::MAX,
            !overflow ==> acc as int == (if negative {
                -digits_value(body.take(i - start))
            } else {
                digits_value(body.take(i - start))
            }),
            overflow ==> (if negative {
                -digits_value(body.take(i - start)) < i64::MIN
            } else {
                digits_value(body.take(i - start)) > i64::MAX
            }),
        decreases len - i,
    {
        let c = input.get_char(i);
        let d: i128 = (c as u32 - '0' as u32) as i128;
        proof {
            let before = body.take(i - start);
            let after = body.take(i - start + 1);
            assert(body[i - start] == input@[i as int]);
            assert(after.drop_last() =~= before);
            assert(after.last() == c);
            assert(digits_value(after) == digits_value(before) * 10 + d);
            assert forall|j: int| 0 <= j < before.len() implies is_digit(#[trigger] before[j]) by {
                assert(before[j] == body[j]);
            }
            lemma_digits_value_nonnegative(before);
        }
        if !overflow {
            acc = if negative {
                acc * 10 - d
            } else {
                acc * 10 + d
            };
            if acc < i64::MIN as i128 || acc > i64::MAX as i128 {
                overflow = true;
            }
        }
        i += 1;
    }
    proof {
        let run = (i - start) as nat;
        if i < len {
            assert(body[i - start] == input@[i as int]);
        }
        lemma_run_is(body, |c: char| is_digit(c), run);
        assert(input@.skip(0) =~= input@);
    }
    if i == start || overflow {
        None
    } else {
        Some((acc as i64, i))
    }
}

/// Reads `text` as a 64-bit integer, the whole of it.
pub fn parse_i64(text: &str) -> (r: Option<i64>)
    ensures
        r == whole_i64(text@),
{
    match read_leading_i64(text) {
        Some((value, used)) => {
            if used == text.unicode_len() {
                Some(value)
            } else {
                None
            }
        },
        None => None,
    }
}

/// The decimal digits of a natural number.
pub open spec fn nat_text(n: nat) -> Seq<char>
    decreases n,
{
    if n < 10 {
        seq![digit_char(n as int)]
    } else {
        nat_text(n / 10).push(digit_char((n % 10) as int))
    }
}

/// The decimal text of an integer: a minus sign where it is negative, then
/// its digits.
pub open spec fn int_text(n: int) -> Seq<char> {
    if n < 0 {
        seq!['-'] + nat_text((-n) as nat)
    } else {
        nat_text(n as nat)
    }
}

/// The digits of a natural number are digits, at least one, and write the
/// number.
pub proof fn lemma_nat_text(n: nat)
    ensures
        nat_text(n).len() >= 1,
        forall|i: int| 0 <= i < nat_text(n).len() ==> is_digit(#[trigger] nat_text(n)[i]),
        digits_value(nat_text(n)) == n,
    decreases n,
{
    let text = nat_text(n);
    if n < 10 {
        assert(text.drop_last() =~= Seq::<char>::empty());
        assert(digits_value(text.drop_last()) == 0);
    } else {
        lemma_nat_text(n / 10);
        assert(text.drop_last() =~= nat_text(n / 10));
    }
}

/// An integer written in decimal reads back as itself.
pub proof fn lemma_int_text_reads_back(n: i64)
    ensures
        whole_i64(int_text(n as int)) == Some(n),
{
    let text = int_text(n as int);
    let magnitude = (if n < 0 {
        -n
    } else {
        n as int
    }) as nat;
    let digits = nat_text(magnitude);
    lemma_nat_text(magnitude);
    lemma_run_is(digits, |c: char| is_digit(c), digits.len());
    assert(digits.take(digits.len() as int) =~= digits);
    if n < 0 {
        assert(text.skip(1) =~= digits);
    } else {
        assert(is_digit(text[0]));
    }
}

/// Writes a 64-bit integer in decimal.
pub fn i64_to_string(n: i64) -> (s: String)
    ensures
        s@ == int_text(n as int),
{
    let magnitude: u64 = if n < 0 {
        (-(n as i128)) as u64
    } else {
        n as u64
    };
    let mut digits: Vec<char> = Vec::new();
    let mut rest: u64 = magnitude;
    // the digits of `magnitude`, least significant first
    while rest >= 10
        invariant
            nat_text(magnitude as nat) == nat_text(rest as nat) + digits@.reverse(),
        decreases rest,
    {
        let d: u8 = (rest % 10) as u8;
        let c: char = (d + 48u8) as char;
        proof {
            assert(c == digit_char((rest % 10) as int));
            let pushed = digits@.push(c);
            assert(pushed.reverse() =~= seq![c] + digits@.reverse());
            assert(nat_text(rest as nat) == nat_text((rest / 10) as nat).push(c));
            assert(nat_text((rest / 10) as nat).push(c) + digits@.reverse() =~= nat_text(
                (rest / 10) as nat,
            ) + pushed.reverse());
        }
        digits.push(c);
        rest = rest / 10;
    }
    let last: char = ((rest as u8) + 48u8) as char;
    let mut s = String::new();
    if n < 0 {
        s.push('-');
    }
    s.push(last);
    let ghost head = s@;
    assert(nat_text(rest as nat) == seq![last]);
    let mut i: usize = digits.len();
    while i > 0
        invariant
            i <= digits.len(),
            s@ == head + digits@.reverse().take(digits.len() - i),
        decreases i,
    {
        i -= 1;
        proof {
            let r = digits@.reverse();
            let k = digits.len() - i - 1;
            assert(r[k] == digits@[i as int]);
            assert(r.take(k + 1) =~= r.take(k).push(r[k]));
            assert((head + r.take(k)).push(r[k]) =~= head + r.take(k + 1));
        }
        s.push(digits[i]);
    }
    proof {
        let r = digits@.reverse();
        assert(r.take(digits.len() as int) =~= r);
        if n < 0 {
            assert(head =~= seq!['-'] + seq![last]);
            assert(s@ =~= seq!['-'] + (seq![last] + r));
        } else {
            assert(head =~= seq![last]);
        }
    }
    s
}

/// Whether `needle` occurs in `haystack` as a run of neighbouring characters.
pub open spec fn contains_text(haystack: Seq<char>, needle: Seq<char>) -> bool {
    exists|i: int|
        0 <= i && i + needle.len() <= haystack.len() && #[trigger] haystack.subrange(
            i,
            i + needle.len(),
        ) == needle
}

/// The characters of `text`, one by one.
pub fn chars_of(text: &str) -> (v: Vec<char>)
    ensures
        v@ == text@,
{
    let len = text.unicode_len();
    let mut v: Vec<char> = Vec::new();
    let mut i: usize = 0;
    while i < len
        invariant
            i <= len,
            len == text@.len(),
            v@ == text@.take(i as int),
        decreases len - i,
    {
        proof {
            assert(text@.take(i + 1) =~= text@.take(i as int).push(text@[i as int]));
        }
        v.push(text.get_char(i));
        i += 1;
    }
    assert(text@.take(len as int) =~= text@);
    v
}

/// Searches `haystack` for `needle`, case and all.
pub fn str_contains(haystack: &str, needle: &str) -> (found: bool)
    ensures
        found == contains_text(haystack@, needle@),
{
    let h = chars_of(haystack);
    let n = chars_of(needle);
    if n.len() > h.len() {
        return false;
    }
    let last = h.len() - n.len();
    let mut i: usize = 0;
    while i <= last
        invariant
            i <= last + 1,
            last == h.len() - n.len(),
            n.len() <= h.len(),
            h@ == haystack@,
            n@ == needle@,
            forall|k: int| 0 <= k < i ==> #[trigger] h@.subrange(k, k + n.len()) != n@,
        decreases last + 1 - i,
    {
        let mut j: usize = 0;
        while j < n.len() && h[i + j] == n[j]
            invariant
                j <= n.len(),
                i + n.len() <= h.len(),
                forall|k: int| 0 <= k < j ==> h@[i + k] == n@[k],
            decreases n.len() - j,
        {
            j += 1;
        }
        if j == n.len() {
            assert(h@.subrange(i as int, i + n.len()) =~= n@);
            return true;
        }
        assert(h@.subrange(i as int, i + n.len())[j as int] != n@[j as int]);
        i += 1;
    }
    false
}

/// The order of two byte strings: the first place where they differ decides,
/// and a string comes before every longer string it begins.
pub open spec fn bytes_before(a: Seq<u8>, b: Seq<u8>) -> bool
    decreases a.len(),
{
    if b.len() == 0 {
        false
    } else if a.len() == 0 {
        true
    } else if a[0] != b[0] {
        a[0] < b[0]
    } else {
        bytes_before(a.skip(1), b.skip(1))
    }
}

/// Whether `a` comes before `b` in the order of their UTF-8 bytes.
pub fn str_before(a: &str, b: &str) -> (before: bool)
    ensures
        before == bytes_before(a.spec_bytes(), b.spec_bytes()),
{
    let x = a.as_bytes();
    let y = b.as_bytes();
    let mut i: usize = 0;
    assert(x@.skip(0) =~= x@ && y@.skip(0) =~= y@);
    while i < x.len() && i < y.len() && x[i] == y[i]
        invariant
            i <= x.len(),
            i <= y.len(),
            bytes_before(x@, y@) == bytes_before(x@.skip(i as int), y@.skip(i as int)),
        decreases x.len() - i,
    {
        proof {
            let p = x@.skip(i as int);
            let q = y@.skip(i as int);
            assert(p.skip(1) =~= x@.skip(i + 1));
            assert(q.skip(1) =~= y@.skip(i + 1));
        }
        i += 1;
    }
    if i == y.len() {
        false
    } else if i == x.len() {
        true
    } else {
        x[i] < y[i]
    }
}

} // verus!
