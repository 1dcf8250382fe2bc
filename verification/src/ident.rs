//! Identifiers of users, channels and messages.

use vstd::prelude::*;

verus! {

/// A universally unique identifier, by its 128-bit value. Identifiers are
/// ordered as these values are.
pub type Uuid = u128;

/// The identifier of no one.
pub const NIL: Uuid = 0;

/// The music bot, a participant without an account.
pub const MUSIC_BOT_ID: Uuid = 1;

/// The digit that writes `n` in base sixteen.
pub open spec fn hex_digit(n: u128) -> char {
    if n < 10 {
        (('0' as u32) + n) as char
    } else {
        (('a' as u32) + n - 10) as char
    }
}

/// Is there a hyphen at place `i` of an identifier's text?
pub open spec fn is_hyphen_place(i: int) -> bool {
    i == 8 || i == 13 || i == 18 || i == 23
}

/// Which of the 32 digits stands at place `i` of an identifier's text.
pub open spec fn digit_at(i: int) -> int {
    if i < 8 {
        i
    } else if i < 13 {
        i - 1
    } else if i < 18 {
        i - 2
    } else if i < 23 {
        i - 3
    } else {
        i - 4
    }
}

/// The `k`-th digit of `id` in base sixteen, the highest first.
pub open spec fn nibble(id: Uuid, k: int) -> u128 {
    (id >> ((4 * (31 - k)) as u128)) & 0xf
}

/// The hyphenated text of `id`: 32 lower-case digits in base sixteen, in
/// groups of 8, 4, 4, 4 and 12.
pub open spec fn uuid_text(id: Uuid) -> Seq<char> {
    Seq::new(
        36,
        |i: int|
            if is_hyphen_place(i) {
                '-'
            } else {
                hex_digit(nibble(id, digit_at(i)))
            },
    )
}

/// What `uuid::Uuid::parse_str` reads `text` as.
pub uninterp spec fn uuid_of_text(text: Seq<char>) -> Option<Uuid>;

/// Calls `uuid::Uuid::parse_str`. Claims that what it reads is a function of
/// the text alone, and that it reads the hyphenated text of an identifier as
/// that identifier. What it makes of other texts is left unsaid: it takes
/// several notations.
#[verifier::external_body]
fn uuid_parse_str(text: &str) -> (r: Option<Uuid>)
    ensures
        r == uuid_of_text(text@),
        forall|id: Uuid| text@ == #[trigger] uuid_text(id) ==> r == Some(id),
{
    uuid::Uuid::parse_str(text).ok().map(|id| id.as_u128())
}

/// Calls the `Display` of `uuid::Uuid`. Claims that it writes the hyphenated
/// text.
#[verifier::external_body]
fn uuid_display(id: Uuid) -> (r: String)
    ensures
        r@ == uuid_text(id),
{
    uuid::Uuid::from_u128(id).to_string()
}

/// Reads an identifier. The hyphenated text of an identifier is read as that
/// identifier.
pub fn parse_uuid(text: &str) -> (r: Option<Uuid>)
    ensures
        r == uuid_of_text(text@),
        forall|id: Uuid| text@ == #[trigger] uuid_text(id) ==> r == Some(id),
{
    uuid_parse_str(text)
}

/// Writes an identifier in hyphenated form.
pub fn uuid_to_string(id: Uuid) -> (r: String)
    ensures
        r@ == uuid_text(id),
{
    uuid_display(id)
}

/// Copies a list of identifiers.
pub fn copy_ids(ids: &Vec<Uuid>) -> (r: Vec<Uuid>)
    ensures
        r@ == ids@,
{
    let mut out: Vec<Uuid> = Vec::new();
    for i in 0..ids.len()
        invariant
            out@ == ids@.take(i as int),
    {
        out.push(ids[i]);
        assert(ids@.take(i + 1) =~= ids@.take(i as int).push(ids@[i as int]));
    }
    assert(ids@.take(ids@.len() as int) =~= ids@);
    out
}

/// A number whose digits are those of another is that number.
proof fn lemma_digits_decide(a: u128, b: u128)
    by (bit_vector)
    requires
        (a >> 124u128) & 0xf == (b >> 124u128) & 0xf,
        (a >> 120u128) & 0xf == (b >> 120u128) & 0xf,
        (a >> 116u128) & 0xf == (b >> 116u128) & 0xf,
        (a >> 112u128) & 0xf == (b >> 112u128) & 0xf,
        (a >> 108u128) & 0xf == (b >> 108u128) & 0xf,
        (a >> 104u128) & 0xf == (b >> 104u128) & 0xf,
        (a >> 100u128) & 0xf == (b >> 100u128) & 0xf,
        (a >> 96u128) & 0xf == (b >> 96u128) & 0xf,
        (a >> 92u128) & 0xf == (b >> 92u128) & 0xf,
        (a >> 88u128) & 0xf == (b >> 88u128) & 0xf,
        (a >> 84u128) & 0xf == (b >> 84u128) & 0xf,
        (a >> 80u128) & 0xf == (b >> 80u128) & 0xf,
        (a >> 76u128) & 0xf == (b >> 76u128) & 0xf,
        (a >> 72u128) & 0xf == (b >> 72u128) & 0xf,
        (a >> 68u128) & 0xf == (b >> 68u128) & 0xf,
        (a >> 64u128) & 0xf == (b >> 64u128) & 0xf,
        (a >> 60u128) & 0xf == (b >> 60u128) & 0xf,
        (a >> 56u128) & 0xf == (b >> 56u128) & 0xf,
        (a >> 52u128) & 0xf == (b >> 52u128) & 0xf,
        (a >> 48u128) & 0xf == (b >> 48u128) & 0xf,
        (a >> 44u128) & 0xf == (b >> 44u128) & 0xf,
        (a >> 40u128) & 0xf == (b >> 40u128) & 0xf,
        (a >> 36u128) & 0xf == (b >> 36u128) & 0xf,
        (a >> 32u128) & 0xf == (b >> 32u128) & 0xf,
        (a >> 28u128) & 0xf == (b >> 28u128) & 0xf,
        (a >> 24u128) & 0xf == (b >> 24u128) & 0xf,
        (a >> 20u128) & 0xf == (b >> 20u128) & 0xf,
        (a >> 16u128) & 0xf == (b >> 16u128) & 0xf,
        (a >> 12u128) & 0xf == (b >> 12u128) & 0xf,
        (a >> 8u128) & 0xf == (b >> 8u128) & 0xf,
        (a >> 4u128) & 0xf == (b >> 4u128) & 0xf,
        (a >> 0u128) & 0xf == (b >> 0u128) & 0xf,
    ensures
        a == b,
{
}

/// Where two texts agree at a place, the numbers agree in the digit there.
proof fn lemma_digit_at(a: Uuid, b: Uuid, i: int)
    requires
        uuid_text(a) == uuid_text(b),
        0 <= i < 36,
        !is_hyphen_place(i),
    ensures
        nibble(a, digit_at(i)) == nibble(b, digit_at(i)),
{
    let k = digit_at(i);
    let x = (a >> ((4 * (31 - k)) as u128));
    let y = (b >> ((4 * (31 - k)) as u128));
    assert(x & 0xf < 16) by (bit_vector);
    assert(y & 0xf < 16) by (bit_vector);
    assert(uuid_text(a)[i] == hex_digit(nibble(a, k)));
    assert(uuid_text(b)[i] == hex_digit(nibble(b, k)));
}

/// Two identifiers have different texts.
pub proof fn law_uuid_text_injective(a: Uuid, b: Uuid)
    requires
        uuid_text(a) == uuid_text(b),
    ensures
        a == b,
{
    lemma_digit_at(a, b, 0);
    lemma_digit_at(a, b, 1);
    lemma_digit_at(a, b, 2);
    lemma_digit_at(a, b, 3);
    lemma_digit_at(a, b, 4);
    lemma_digit_at(a, b, 5);
    lemma_digit_at(a, b, 6);
    lemma_digit_at(a, b, 7);
    lemma_digit_at(a, b, 9);
    lemma_digit_at(a, b, 10);
    lemma_digit_at(a, b, 11);
    lemma_digit_at(a, b, 12);
    lemma_digit_at(a, b, 14);
    lemma_digit_at(a, b, 15);
    lemma_digit_at(a, b, 16);
    lemma_digit_at(a, b, 17);
    lemma_digit_at(a, b, 19);
    lemma_digit_at(a, b, 20);
    lemma_digit_at(a, b, 21);
    lemma_digit_at(a, b, 22);
    lemma_digit_at(a, b, 24);
    lemma_digit_at(a, b, 25);
    lemma_digit_at(a, b, 26);
    lemma_digit_at(a, b, 27);
    lemma_digit_at(a, b, 28);
    lemma_digit_at(a, b, 29);
    lemma_digit_at(a, b, 30);
    lemma_digit_at(a, b, 31);
    lemma_digit_at(a, b, 32);
    lemma_digit_at(a, b, 33);
    lemma_digit_at(a, b, 34);
    lemma_digit_at(a, b, 35);
    lemma_digits_decide(a, b);
}

/// The text of an identifier has thirty-six characters: a hyphen at four
/// places, and at every other one a digit from 0 to 9 or a letter from a to f.
pub proof fn law_uuid_text_form(id: Uuid, i: int)
    requires
        0 <= i < 36,
    ensures
        uuid_text(id).len() == 36,
        i == 8 || i == 13 || i == 18 || i == 23 <==> uuid_text(id)[i] == '-',
        uuid_text(id)[i] != '-' ==> '0' <= uuid_text(id)[i] <= '9' || 'a' <= uuid_text(id)[i] <= 'f',
{
    let n = nibble(id, digit_at(i));
    let shift = (4 * (31 - digit_at(i))) as u128;
    assert((id >> shift) & 0xf <= 15) by (bit_vector);
    assert(n <= 15);
}

/// What stands at place `i` of the text of an identifier, where that is no
/// hyphen, spells four bits of it, the highest first; the hyphens before it do
/// not count.
pub proof fn law_uuid_text_spells(id: Uuid, i: int, k: int)
    requires
        0 <= i < 36,
        i != 8 && i != 13 && i != 18 && i != 23,
        k == i - (if i > 8 {
            1int
        } else {
            0
        }) - (if i > 13 {
            1int
        } else {
            0
        }) - (if i > 18 {
            1int
        } else {
            0
        }) - (if i > 23 {
            1int
        } else {
            0
        }),
    ensures
        ({
            let bits = (id >> ((4 * (31 - k)) as u128)) & 0xf;
            let c = uuid_text(id)[i] as int;
            &&& bits < 10 ==> c == 48 + bits
            &&& bits >= 10 ==> c == 97 + (bits - 10)
        }),
{
    let shift = (4 * (31 - k)) as u128;
    assert((id >> shift) & 0xf <= 15) by (bit_vector);
    assert(digit_at(i) == k);
}

} // verus!
