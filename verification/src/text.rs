//! Operations on strings that the rules of the protocol are made of.

use vstd::prelude::*;

verus! {

/// Lexicographic order by code point, the order in which `String` sorts.
pub open spec fn lex_lt(a: Seq<char>, b: Seq<char>) -> bool
    decreases a.len(),
{
    if b.len() == 0 {
        false
    } else if a.len() == 0 {
        true
    } else if a[0] != b[0] {
        a[0] < b[0]
    } else {
        lex_lt(a.drop_first(), b.drop_first())
    }
}

/// The ASCII letters of `s` in lower case, every other character as it is.
pub open spec fn ascii_lower(s: Seq<char>) -> Seq<char> {
    Seq::new(s.len(), |i: int| ascii_lower_char(s[i]))
}

/// `c` in lower case where it is an ASCII letter.
pub open spec fn ascii_lower_char(c: char) -> char {
    if 'A' <= c && c <= 'Z' {
        ((c as u32) + 32) as char
    } else {
        c
    }
}

/// Does `s` begin with `prefix`?
pub open spec fn has_prefix(s: Seq<char>, prefix: Seq<char>) -> bool {
    prefix.len() <= s.len() && s.take(prefix.len() as int) == prefix
}

/// No string is before itself.
pub proof fn lemma_lex_irreflexive(a: Seq<char>)
    ensures
        !lex_lt(a, a),
    decreases a.len(),
{
    if a.len() > 0 {
        lemma_lex_irreflexive(a.drop_first());
    }
}

/// Of two different strings one is before the other.
pub proof fn lemma_lex_total(a: Seq<char>, b: Seq<char>)
    ensures
        a == b || lex_lt(a, b) || lex_lt(b, a),
    decreases a.len(),
{
    if a.len() == 0 || b.len() == 0 {
        if a.len() == 0 && b.len() == 0 {
            assert(a =~= b);
        }
    } else if a[0] == b[0] {
        lemma_lex_total(a.drop_first(), b.drop_first());
        if a.drop_first() == b.drop_first() {
            assert(a =~= seq![a[0]] + a.drop_first());
            assert(b =~= seq![b[0]] + b.drop_first());
        }
    }
}

/// The order of strings is transitive.
pub proof fn lemma_lex_transitive(a: Seq<char>, b: Seq<char>, c: Seq<char>)
    requires
        lex_lt(a, b),
        lex_lt(b, c),
    ensures
        lex_lt(a, c),
    decreases a.len(),
{
    if a.len() > 0 && a[0] == b[0] && b[0] == c[0] {
        lemma_lex_transitive(a.drop_first(), b.drop_first(), c.drop_first());
    }
}

/// The characters of a string.
pub fn chars_of(s: &str) -> (r: Vec<char>)
    ensures
        r@ == s@,
{
    let mut out: Vec<char> = Vec::new();
    for c in it: s.chars()
        invariant
            it.seq() == s@,
            out@ == s@.take(it.index() as int),
    {
        out.push(c);
        assert(s@.take(it.index() as int).push(c) =~= s@.take(it.index() + 1));
    }
    assert(s@.take(s@.len() as int) =~= s@);
    out
}

/// Compares two strings for equality.
pub fn same_text(a: &str, b: &str) -> (r: bool)
    ensures
        r == (a@ == b@),
{
    let left: Vec<char> = chars_of(a);
    let right: Vec<char> = chars_of(b);
    if left.len() != right.len() {
        return false;
    }
    for i in 0..left.len()
        invariant
            left@ == a@,
            right@ == b@,
            left@.len() == right@.len(),
            forall|j: int| 0 <= j < i ==> left@[j] == right@[j],
    {
        if left[i] != right[i] {
            return false;
        }
    }
    assert(a@ =~= b@);
    true
}

/// The text of an optional string.
pub open spec fn optional_text(s: Option<String>) -> Option<Seq<char>> {
    match s {
        Some(t) => Some(t@),
        None => None,
    }
}

/// Copies an optional string.
pub fn copy_optional(s: &Option<String>) -> (r: Option<String>)
    ensures
        r == *s,
{
    match s {
        Some(t) => Some(t.clone()),
        None => None,
    }
}

/// Copies a list of strings.
pub fn copy_texts(s: &Vec<String>) -> (r: Vec<String>)
    ensures
        r@ == s@,
{
    let mut out: Vec<String> = Vec::new();
    for i in 0..s.len()
        invariant
            out@ == s@.take(i as int),
    {
        out.push(s[i].clone());
        assert(s@.take(i + 1) =~= s@.take(i as int).push(s@[i as int]));
    }
    assert(s@.take(s@.len() as int) =~= s@);
    out
}

/// The texts of a list of strings.
pub open spec fn texts(s: Seq<String>) -> Seq<Seq<char>> {
    Seq::new(s.len(), |i: int| s[i]@)
}

/// How many bytes `s` takes in UTF-8.
pub open spec fn utf8_len(s: Seq<char>) -> nat {
    vstd::utf8::encode_utf8(s).len()
}

/// How many bytes a string takes.
pub fn byte_len(s: &str) -> (r: usize)
    ensures
        r == utf8_len(s@),
{
    s.as_bytes().len()
}

/// Does `c` have the Unicode property White_Space?
pub open spec fn is_white_space(c: char) -> bool {
    ||| 0x9 <= c as u32 <= 0xd
    ||| c as u32 == 0x20
    ||| c as u32 == 0x85
    ||| c as u32 == 0xa0
    ||| c as u32 == 0x1680
    ||| 0x2000 <= c as u32 <= 0x200a
    ||| c as u32 == 0x2028
    ||| c as u32 == 0x2029
    ||| c as u32 == 0x202f
    ||| c as u32 == 0x205f
    ||| c as u32 == 0x3000
}

/// Is there nothing in `s` but white space?
pub open spec fn blank(s: Seq<char>) -> bool {
    forall|i: int| 0 <= i < s.len() ==> is_white_space(#[trigger] s[i])
}

/// Is there nothing in `s` but white space?
pub fn is_blank(s: &str) -> (r: bool)
    ensures
        r == blank(s@),
{
    let text: Vec<char> = chars_of(s);
    for i in 0..text.len()
        invariant
            text@ == s@,
            forall|j: int| 0 <= j < i ==> is_white_space(#[trigger] text@[j]),
    {
        let c: u32 = text[i] as u32;
        let white: bool = (0x9 <= c && c <= 0xd) || c == 0x20 || c == 0x85 || c == 0xa0 || c == 0x1680 || (0x2000
            <= c && c <= 0x200a) || c == 0x2028 || c == 0x2029 || c == 0x202f || c == 0x205f || c == 0x3000;
        if !white {
            assert(!is_white_space(s@[i as int]));
            return false;
        }
    }
    true
}

/// The digit that writes `n`.
pub open spec fn digit(n: nat) -> Seq<char> {
    if n == 0 {
        "0"@
    } else if n == 1 {
        "1"@
    } else if n == 2 {
        "2"@
    } else if n == 3 {
        "3"@
    } else if n == 4 {
        "4"@
    } else if n == 5 {
        "5"@
    } else if n == 6 {
        "6"@
    } else if n == 7 {
        "7"@
    } else if n == 8 {
        "8"@
    } else {
        "9"@
    }
}

/// `n` in base ten.
pub open spec fn decimal(n: nat) -> Seq<char>
    decreases n,
{
    if n < 10 {
        digit(n)
    } else {
        decimal(n / 10) + digit(n % 10)
    }
}

/// `n` in base ten, with a sign where it is negative.
pub open spec fn signed_decimal(n: int) -> Seq<char> {
    if n < 0 {
        "-"@ + decimal((-n) as nat)
    } else {
        decimal(n as nat)
    }
}

/// The digit that writes `n`.
fn digit_text(n: u64) -> (r: &'static str)
    requires
        n < 10,
    ensures
        r@ == digit(n as nat),
{
    if n == 0 {
        "0"
    } else if n == 1 {
        "1"
    } else if n == 2 {
        "2"
    } else if n == 3 {
        "3"
    } else if n == 4 {
        "4"
    } else if n == 5 {
        "5"
    } else if n == 6 {
        "6"
    } else if n == 7 {
        "7"
    } else if n == 8 {
        "8"
    } else {
        "9"
    }
}

/// `n` in base ten.
pub fn decimal_text(n: u64) -> (r: String)
    ensures
        r@ == decimal(n as nat),
    decreases n,
{
    if n < 10 {
        digit_text(n).to_string()
    } else {
        let mut r: String = decimal_text(n / 10);
        r.append(digit_text(n % 10));
        r
    }
}

/// `n` in base ten, with a sign where it is negative.
pub fn signed_decimal_text(n: i64) -> (r: String)
    ensures
        r@ == signed_decimal(n as int),
{
    if n < 0 {
        let size: u64 = (-(n as i128)) as u64;
        let digits: String = decimal_text(size);
        joined_text("-", digits.as_str())
    } else {
        decimal_text(n as u64)
    }
}

/// One string behind another.
pub fn joined_text(a: &str, b: &str) -> (r: String)
    ensures
        r@ == a@ + b@,
{
    let mut s: String = a.to_string();
    s.append(b);
    s
}

/// Is `a` before `b` in the order of strings?
pub fn str_before(a: &str, b: &str) -> (r: bool)
    ensures
        r == lex_lt(a@, b@),
{
    let left: Vec<char> = chars_of(a);
    let right: Vec<char> = chars_of(b);
    let mut i: usize = 0;
    assert(a@.skip(0) =~= a@);
    assert(b@.skip(0) =~= b@);
    while i < left.len() && i < right.len()
        invariant
            left@ == a@,
            right@ == b@,
            i <= left@.len(),
            i <= right@.len(),
            lex_lt(a@, b@) == lex_lt(a@.skip(i as int), b@.skip(i as int)),
        decreases left@.len() - i,
    {
        assert(a@.skip(i as int)[0] == left@[i as int]);
        assert(b@.skip(i as int)[0] == right@[i as int]);
        if left[i] != right[i] {
            return left[i] < right[i];
        }
        assert(a@.skip(i as int).drop_first() =~= a@.skip(i + 1));
        assert(b@.skip(i as int).drop_first() =~= b@.skip(i + 1));
        i += 1;
    }
    i < right.len()
}

/// Does `s` spell `lower`, which has no upper-case ASCII letter, up to the
/// case of ASCII letters?
pub fn same_ignoring_case(s: &str, lower: &str) -> (r: bool)
    ensures
        r == (ascii_lower(s@) == lower@),
{
    let left: Vec<char> = chars_of(s);
    let right: Vec<char> = chars_of(lower);
    if left.len() != right.len() {
        assert(ascii_lower(s@).len() == left@.len());
        return false;
    }
    for i in 0..left.len()
        invariant
            left@ == s@,
            right@ == lower@,
            left@.len() == right@.len(),
            forall|j: int| 0 <= j < i ==> ascii_lower(s@)[j] == right@[j],
    {
        let c: char = left[i];
        let folded: char = if 'A' <= c && c <= 'Z' {
            ((c as u8) + 32) as char
        } else {
            c
        };
        assert(ascii_lower(s@)[i as int] == folded);
        if folded != right[i] {
            return false;
        }
    }
    assert(ascii_lower(s@) =~= lower@);
    true
}

/// Does `s` begin with `prefix`?
pub fn starts_with(s: &str, prefix: &str) -> (r: bool)
    ensures
        r == has_prefix(s@, prefix@),
{
    let text: Vec<char> = chars_of(s);
    let start: Vec<char> = chars_of(prefix);
    if text.len() < start.len() {
        return false;
    }
    for i in 0..start.len()
        invariant
            text@ == s@,
            start@ == prefix@,
            start@.len() <= text@.len(),
            forall|j: int| 0 <= j < i ==> text@[j] == start@[j],
    {
        if text[i] != start[i] {
            assert(s@.take(prefix@.len() as int)[i as int] != prefix@[i as int]);
            return false;
        }
    }
    assert(s@.take(prefix@.len() as int) =~= prefix@);
    true
}

/// Is `value` written as a web address?
pub open spec fn spec_is_http_url(value: Seq<char>) -> bool {
    has_prefix(value, "https://"@) || has_prefix(value, "http://"@)
}

/// Is `value` written as a web address, with or without transport security?
pub fn is_http_url(value: &str) -> (r: bool)
    ensures
        r == spec_is_http_url(value@),
{
    starts_with(value, "https://") || starts_with(value, "http://")
}

/// The first `max` characters of `s`, or all of it where it has fewer.
pub open spec fn truncated(s: Seq<char>, max: nat) -> Seq<char> {
    if s.len() <= max {
        s
    } else {
        s.take(max as int)
    }
}

/// Keeps at most `max` Unicode scalar values of `s`, on a character boundary.
/// Applied to what a client says of itself before it reaches logs or the
/// debug endpoint.
pub fn truncate_chars(s: &str, max: usize) -> (r: String)
    ensures
        r@ == truncated(s@, max as nat),
{
    if s.unicode_len() <= max {
        s.to_string()
    } else {
        s.substring_char(0, max).to_string()
    }
}

/// Do the first `n` characters of two strings agree?
pub open spec fn agree(a: Seq<char>, b: Seq<char>, n: int) -> bool {
    &&& 0 <= n <= a.len()
    &&& n <= b.len()
    &&& forall|i: int| 0 <= i < n ==> #[trigger] a[i] == b[i]
}

/// One string is before another if it is a proper beginning of it, or has the
/// lower character where they first differ.
pub proof fn law_string_order(a: Seq<char>, b: Seq<char>)
    ensures
        lex_lt(a, b) <==> exists|n: int| #[trigger]
            agree(a, b, n) && ((n == a.len() && n < b.len()) || (n < a.len() && n < b.len() && a[n]
                < b[n])),
    decreases a.len(),
{
    if b.len() == 0 {
    } else if a.len() == 0 {
        assert(agree(a, b, 0));
    } else if a[0] != b[0] {
        if a[0] < b[0] {
            assert(agree(a, b, 0));
        }
        assert forall|n: int| #[trigger] agree(a, b, n) implies n == 0 by {
            if n > 0 {
                assert(a[0] == b[0]);
            }
        }
    } else {
        let (x, y) = (a.drop_first(), b.drop_first());
        law_string_order(x, y);
        if lex_lt(x, y) {
            let n = choose|n: int| #[trigger]
                agree(x, y, n) && ((n == x.len() && n < y.len()) || (n < x.len() && n < y.len() && x[n]
                    < y[n]));
            assert(agree(a, b, n + 1)) by {
                assert forall|i: int| 0 <= i < n + 1 implies #[trigger] a[i] == b[i] by {
                    if i > 0 {
                        assert(x[i - 1] == y[i - 1]);
                    }
                }
            }
        }
        if exists|n: int| #[trigger]
            agree(a, b, n) && ((n == a.len() && n < b.len()) || (n < a.len() && n < b.len() && a[n]
                < b[n])) {
            let n = choose|n: int| #[trigger]
                agree(a, b, n) && ((n == a.len() && n < b.len()) || (n < a.len() && n < b.len() && a[n]
                    < b[n]));
            assert(agree(x, y, n - 1)) by {
                assert forall|i: int| 0 <= i < n - 1 implies #[trigger] x[i] == y[i] by {
                    assert(a[i + 1] == b[i + 1]);
                }
            }
        }
    }
}

/// A capital letter from A to Z is lowered to the letter thirty-two code points
/// on; every other character stays, and none is added or lost.
pub proof fn law_lowered(s: Seq<char>, i: int)
    requires
        0 <= i < s.len(),
    ensures
        ascii_lower(s).len() == s.len(),
        65 <= s[i] as u32 <= 90 ==> ascii_lower(s)[i] as u32 == s[i] as u32 + 32,
        !(65 <= s[i] as u32 <= 90) ==> ascii_lower(s)[i] == s[i],
{
}

/// A string takes the bytes of its parts, and a character one to four, by its
/// code point.
pub proof fn law_bytes_of_text(a: Seq<char>, b: Seq<char>, c: char)
    ensures
        utf8_len(a + b) == utf8_len(a) + utf8_len(b),
        utf8_len(Seq::empty()) == 0,
        utf8_len(seq![c]) == if c as u32 <= 0x7f {
            1nat
        } else if c as u32 <= 0x7ff {
            2nat
        } else if c as u32 <= 0xffff {
            3nat
        } else {
            4nat
        },
    decreases a.len(),
{
    assert(seq![c].drop_first() =~= Seq::<char>::empty());
    assert(vstd::utf8::encode_utf8(Seq::<char>::empty()).len() == 0);
    assert(vstd::utf8::encode_utf8(seq![c]) == vstd::utf8::encode_scalar(c as u32)
        + vstd::utf8::encode_utf8(seq![c].drop_first()));
    vstd::utf8::char_is_scalar(c);
    if a.len() == 0 {
        assert(a + b =~= b);
    } else {
        law_bytes_of_text(a.drop_first(), b, c);
        assert((a + b).drop_first() =~= a.drop_first() + b);
    }
}

/// A string is blank if no character of it is other than the twenty-five that
/// Unicode counts as white space.
pub proof fn law_blank(s: Seq<char>)
    ensures
        blank(s) <==> forall|i: int|
            0 <= i < s.len() ==> {
                let c = (#[trigger] s[i]) as u32;
                ||| c == 9 || c == 10 || c == 11 || c == 12 || c == 13
                ||| c == 32 || c == 0x85 || c == 0xa0 || c == 0x1680
                ||| c == 0x2000 || c == 0x2001 || c == 0x2002 || c == 0x2003
                ||| c == 0x2004 || c == 0x2005 || c == 0x2006 || c == 0x2007
                ||| c == 0x2008 || c == 0x2009 || c == 0x200a
                ||| c == 0x2028 || c == 0x2029 || c == 0x202f || c == 0x205f
                ||| c == 0x3000
            },
{
    if blank(s) {
        assert forall|i: int| 0 <= i < s.len() implies is_white_space(#[trigger] s[i]) by {}
    }
}

/// The number that digits spell.
pub open spec fn spelled(s: Seq<char>) -> int
    decreases s.len(),
{
    if s.len() == 0 {
        0
    } else {
        10 * spelled(s.drop_last()) + (s.last() as int - 48)
    }
}

/// A number is written with digits that spell it, without a leading zero.
pub proof fn law_decimal_spells(n: nat)
    ensures
        decimal(n).len() > 0,
        spelled(decimal(n)) == n,
        forall|i: int| 0 <= i < decimal(n).len() ==> 48 <= (#[trigger] decimal(n)[i]) as int <= 57,
        n > 0 ==> decimal(n)[0] as int != 48,
        n == 0 ==> decimal(n).len() == 1,
    decreases n,
{
    reveal_strlit("0");
    reveal_strlit("1");
    reveal_strlit("2");
    reveal_strlit("3");
    reveal_strlit("4");
    reveal_strlit("5");
    reveal_strlit("6");
    reveal_strlit("7");
    reveal_strlit("8");
    reveal_strlit("9");
    let d = digit(n % 10);
    assert(d.len() == 1);
    assert(d[0] as int == 48 + n % 10);
    if n < 10 {
        assert(n % 10 == n);
        assert(d.drop_last().len() == 0);
        assert(spelled(d.drop_last()) == 0);
    } else {
        law_decimal_spells(n / 10);
        let s = decimal(n);
        assert(s == decimal(n / 10) + d);
        assert(s.drop_last() =~= decimal(n / 10));
        assert(s.last() == d[0]);
        assert forall|i: int| 0 <= i < s.len() implies 48 <= (#[trigger] s[i]) as int <= 57 by {
            if i < decimal(n / 10).len() {
                assert(s[i] == decimal(n / 10)[i]);
            }
        }
        assert(s[0] == decimal(n / 10)[0]);
    }
}

/// A negative number is written with a hyphen before its size, any other one as
/// it is.
pub proof fn law_sign_written(n: int)
    ensures
        n >= 0 ==> signed_decimal(n) == decimal(n as nat),
        n < 0 ==> signed_decimal(n).len() > 0 && signed_decimal(n)[0] == '-'
            && signed_decimal(n).drop_first() == decimal((-n) as nat),
{
    reveal_strlit("-");
    if n < 0 {
        assert(signed_decimal(n).drop_first() =~= decimal((-n) as nat));
    }
}

/// A string begins with another where something follows that one to give it.
pub proof fn law_prefix(s: Seq<char>, prefix: Seq<char>, rest: Seq<char>)
    ensures
        has_prefix(prefix + rest, prefix),
        has_prefix(s, prefix) ==> s == prefix + s.skip(prefix.len() as int),
{
    assert((prefix + rest).take(prefix.len() as int) =~= prefix);
    if has_prefix(s, prefix) {
        assert(s =~= s.take(prefix.len() as int) + s.skip(prefix.len() as int));
    }
}

/// A web address begins with `http://` or `https://`, and whatever does is one.
pub proof fn law_web_address(value: Seq<char>)
    ensures
        spec_is_http_url(value) <==> exists|rest: Seq<char>|
            value == #[trigger] ("http://"@ + rest) || value == "https://"@ + rest,
{
    if has_prefix(value, "http://"@) {
        law_prefix(value, "http://"@, Seq::empty());
        assert(value == "http://"@ + value.skip("http://"@.len() as int));
    }
    if has_prefix(value, "https://"@) {
        law_prefix(value, "https://"@, Seq::empty());
        let rest = value.skip("https://"@.len() as int);
        assert(value == "https://"@ + rest);
        assert(("http://"@ + rest) == ("http://"@ + rest));
    }
    if exists|rest: Seq<char>| value == #[trigger] ("http://"@ + rest) || value == "https://"@ + rest {
        let rest = choose|rest: Seq<char>|
            value == #[trigger] ("http://"@ + rest) || value == "https://"@ + rest;
        law_prefix(value, "http://"@, rest);
        law_prefix(value, "https://"@, rest);
    }
}

/// Cutting a text keeps its beginning: all of it where it is short enough, and
/// as many characters as are allowed where it is not.
pub proof fn law_cut(s: Seq<char>, max: nat, i: int)
    ensures
        s.len() <= max ==> truncated(s, max) == s,
        s.len() > max ==> truncated(s, max).len() == max,
        0 <= i < truncated(s, max).len() ==> truncated(s, max)[i] == s[i],
{
}

/// An optional string has a text where there is one, and none where not; a list
/// of strings has the texts of all, in order.
pub proof fn law_texts(s: Option<String>, list: Seq<String>, i: int)
    ensures
        optional_text(s) is Some <==> s is Some,
        s is Some ==> optional_text(s)->0 == s->0@,
        texts(list).len() == list.len(),
        0 <= i < list.len() ==> texts(list)[i] == list[i]@,
{
}

} // verus!
