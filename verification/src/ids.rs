//! Identifiers: the 128-bit ids of devices, configs and drawings, and the rule that maps
//! a client's text onto one.

use vstd::prelude::*;

verus! {

/// A universally unique identifier, as the number its hexadecimal digits spell.
#[derive(Debug, Clone, Copy, PartialEq, Eq, Structural)]
pub struct Uuid {
    pub bits: u128,
}

/// One hexadecimal digit in lower case, for `n` in `0..=15`.
pub open spec fn hex_char(n: nat) -> char {
    if n < 10 {
        ('0' as u32 + n) as char
    } else {
        ('a' as u32 + (n - 10)) as char
    }
}

/// The last `count` hexadecimal digits of `bits`.
pub open spec fn hex_digits(bits: nat, count: nat) -> Seq<char>
    decreases count,
{
    if count == 0 {
        seq![]
    } else {
        hex_digits(bits / 16, (count - 1) as nat).push(hex_char(bits % 16))
    }
}

/// The text form of an id: 32 lower-case hexadecimal digits in groups of 8, 4, 4, 4 and
/// 12 with hyphens between.
pub open spec fn hyphenated(bits: u128) -> Seq<char> {
    let d = hex_digits(bits as nat, 32);
    d.subrange(0, 8) + seq!['-'] + d.subrange(8, 12) + seq!['-'] + d.subrange(12, 16) + seq!['-']
        + d.subrange(16, 20) + seq!['-'] + d.subrange(20, 32)
}

/// What `uuid::Uuid::parse_str` reads out of a text.
pub uninterp spec fn parsed_uuid(s: Seq<char>) -> Option<u128>;

/// What `uuid::Uuid::new_v5` derives in the DNS namespace from the UTF-8 bytes of a text.
pub uninterp spec fn hashed_uuid(s: Seq<char>) -> u128;

/// `uuid::Uuid::parse_str`. Its grammar (plain, hyphenated, braced and URN forms in either
/// case) is left to the crate; what is claimed is that the result depends on the text alone.
#[verifier::external_body]
fn parse_uuid(s: &str) -> (id: Option<u128>)
    ensures
        id == parsed_uuid(s@),
{
    uuid::Uuid::parse_str(s).ok().map(|id| id.as_u128())
}

/// `uuid::Uuid::new_v5` in the DNS namespace. The hash is left to the crate; what is claimed
/// is that the result depends on the text alone.
#[verifier::external_body]
fn hash_uuid(s: &str) -> (id: u128)
    ensures
        id == hashed_uuid(s@),
{
    uuid::Uuid::new_v5(&uuid::Uuid::NAMESPACE_DNS, s.as_bytes()).as_u128()
}

/// `uuid::Uuid`'s `Display`: the hyphenated form in lower case, which `parse_str` reads back
/// as the same id.
#[verifier::external_body]
fn format_uuid(bits: u128) -> (s: String)
    ensures
        s@ == hyphenated(bits),
        parsed_uuid(s@) == Some(bits),
{
    uuid::Uuid::from_u128(bits).to_string()
}

/// `uuid::Uuid::new_v4`: a random id. Of every draw it is claimed that the version digit is
/// 4 and the variant digit one of 8, 9, a and b; nothing is claimed of the other bits.
#[verifier::external_body]
fn random_uuid() -> (bits: u128)
    ensures
        is_random_form(bits),
{
    uuid::Uuid::new_v4().as_u128()
}

/// The shape of a random (version 4) id.
pub open spec fn is_random_form(bits: u128) -> bool {
    (bits >> 76) & 0xf == 4 && (bits >> 62) & 0x3 == 2
}

/// The id a client's text stands for: the id it spells, or else the hash of the text.
pub open spec fn uuid_of(s: Seq<char>) -> Uuid {
    match parsed_uuid(s) {
        Some(bits) => Uuid { bits },
        None => Uuid { bits: hashed_uuid(s) },
    }
}

/// Reads an id, where the text spells one.
pub fn read_uuid(s: &str) -> (id: Option<Uuid>)
    ensures
        id == (match parsed_uuid(s@) {
            Some(bits) => Some(Uuid { bits }),
            None => None::<Uuid>,
        }),
{
    match parse_uuid(s) {
        Some(bits) => Some(Uuid { bits }),
        None => None,
    }
}

/// Picks the id a text stands for, given what parsing it and hashing it gave.
pub fn choose_uuid(parsed: Option<Uuid>, hashed: Uuid) -> (id: Uuid)
    ensures
        id == (match parsed {
            Some(id) => id,
            None => hashed,
        }),
{
    match parsed {
        Some(id) => id,
        None => hashed,
    }
}

/// Maps an identifier onto a UUID: parsed if it already is one, otherwise hashed in the DNS
/// namespace. The mapping is recomputed on every request and stored nowhere.
pub fn parse_or_hash_uuid(s: &str) -> (id: Uuid)
    ensures
        id == uuid_of(s@),
{
    choose_uuid(read_uuid(s), Uuid { bits: hash_uuid(s) })
}

/// A fresh random id.
pub fn fresh_uuid() -> (id: Uuid)
    ensures
        is_random_form(id.bits),
{
    Uuid { bits: random_uuid() }
}

impl Uuid {
    /// The hyphenated text of this id, which names the same id when it is read back.
    pub fn text(self) -> (s: String)
        ensures
            s@ == hyphenated(self.bits),
            uuid_of(s@) == self,
    {
        format_uuid(self.bits)
    }
}

proof fn hex_digits_len(bits: nat, count: nat)
    ensures
        hex_digits(bits, count).len() == count,
    decreases count,
{
    if count > 0 {
        hex_digits_len(bits / 16, (count - 1) as nat);
    }
}

/// The text of an id is 36 characters long.
pub proof fn hyphenated_len(bits: u128)
    ensures
        hyphenated(bits).len() == 36,
{
    hex_digits_len(bits as nat, 32);
}

spec fn power_of_16(n: nat) -> nat
    decreases n,
{
    if n == 0 {
        1
    } else {
        16 * power_of_16((n - 1) as nat)
    }
}

proof fn hex_digits_injective(a: nat, b: nat, count: nat)
    requires
        hex_digits(a, count) == hex_digits(b, count),
        a < power_of_16(count),
        b < power_of_16(count),
    ensures
        a == b,
    decreases count,
{
    if count > 0 {
        let m = (count - 1) as nat;
        let da = hex_digits(a / 16, m);
        let db = hex_digits(b / 16, m);
        hex_digits_len(a / 16, m);
        hex_digits_len(b / 16, m);
        assert(da =~= hex_digits(a, count).drop_last());
        assert(db =~= hex_digits(b, count).drop_last());
        assert(hex_digits(a, count).last() == hex_char(a % 16));
        assert(hex_digits(b, count).last() == hex_char(b % 16));
        assert(a % 16 == b % 16);
        hex_digits_injective(a / 16, b / 16, m);
        assert(a == (a / 16) * 16 + a % 16);
        assert(b == (b / 16) * 16 + b % 16);
    }
}

/// Distinct ids have distinct texts.
pub proof fn hyphenated_injective(a: u128, b: u128)
    requires
        hyphenated(a) == hyphenated(b),
    ensures
        a == b,
{
    let da = hex_digits(a as nat, 32);
    let db = hex_digits(b as nat, 32);
    hex_digits_len(a as nat, 32);
    hex_digits_len(b as nat, 32);
    assert forall|i: int| 0 <= i < 32 implies da[i] == db[i] by {
        let at = if i < 8 {
            i
        } else if i < 12 {
            i + 1
        } else if i < 16 {
            i + 2
        } else if i < 20 {
            i + 3
        } else {
            i + 4
        };
        assert(hyphenated(a)[at] == da[i]);
        assert(hyphenated(b)[at] == db[i]);
    }
    assert(da =~= db);
    assert(power_of_16(32) == 0x1_0000_0000_0000_0000_0000_0000_0000_0000int) by {
        reveal_with_fuel(power_of_16, 33);
    }
    hex_digits_injective(a as nat, b as nat, 32);
}

/// The text of an id is hexadecimal digits with a hyphen after the eighth, the twelfth, the
/// sixteenth and the twentieth of them.
pub proof fn an_id_is_written_in_five_groups(bits: u128, i: int)
    requires
        0 <= i < 36,
    ensures
        hyphenated(bits).len() == 36,
        hyphenated(bits)[i] == '-' <==> i == 8 || i == 13 || i == 18 || i == 23,
        hyphenated(bits)[i] != '-' ==> '0' <= hyphenated(bits)[i] <= '9' || 'a' <= hyphenated(
            bits,
        )[i] <= 'f',
{
    let d = hex_digits(bits as nat, 32);
    hyphenated_len(bits);
    hex_digits_len(bits as nat, 32);
    assert forall|k: int| 0 <= k < 32 implies '0' <= #[trigger] d[k] <= '9' || 'a' <= d[k]
        <= 'f' by {
        hex_digits_are_digits(bits as nat, 32, k);
    }
}

proof fn hex_digits_are_digits(bits: nat, count: nat, k: int)
    requires
        0 <= k < count,
    ensures
        '0' <= hex_digits(bits, count)[k] <= '9' || 'a' <= hex_digits(bits, count)[k] <= 'f',
    decreases count,
{
    hex_digits_len(bits / 16, (count - 1) as nat);
    if k < count - 1 {
        hex_digits_are_digits(bits / 16, (count - 1) as nat, k);
    }
}

/// A text stands for the id it spells, and for its hash only where it spells none; and writing
/// an id down and reading it again gives the same id.
pub proof fn a_text_stands_for_the_id_it_spells(
    s: &str,
    read: Option<Uuid>,
    id: Uuid,
    hashed: Uuid,
    chosen: Uuid,
    written: String,
)
    requires
        call_ensures(read_uuid, (s,), read),
        call_ensures(parse_or_hash_uuid, (s,), id),
        call_ensures(choose_uuid, (read, hashed), chosen),
        call_ensures(Uuid::text, (id,), written),
    ensures
        read matches Some(spelled) ==> id == spelled && chosen == spelled && parsed_uuid(s@)
            == Some(spelled.bits),
        read is None ==> parsed_uuid(s@) is None && id.bits == hashed_uuid(s@) && chosen == hashed,
        uuid_of(written@) == id,
{
}

} // verus!
