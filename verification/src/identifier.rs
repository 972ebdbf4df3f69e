//! Fixed-width identifiers: one to sixteen ASCII characters packed into an
//! integer, and their derivation from raw level names.

use crate::text::push_char;
use tinystr::TinyStr16;
use vstd::prelude::*;

verus! {

/// The error that `tinystr` reports for text it cannot hold.
#[verifier::external_type_specification]
#[verifier::external_body]
pub struct ExTinyError(tinystr::Error);

/// Text that a fixed-width identifier can hold: one to sixteen characters,
/// each of them ASCII and none of them NUL.
pub open spec fn is_tiny_text(text: Seq<char>) -> bool {
    &&& 1 <= text.len() <= 16
    &&& forall|i: int| 0 <= i < text.len() ==> 1 <= #[trigger] (text[i] as nat) < 128
}

/// The characters of `text` as the digits of a number in base 256, the first
/// character being the least significant.
pub open spec fn pack(text: Seq<char>) -> nat
    decreases text.len(),
{
    if text.len() == 0 {
        0
    } else {
        (text[0] as nat) + 256 * pack(text.drop_first())
    }
}

/// The base-256 digits of `bits` as characters, least significant first.
pub open spec fn unpack(bits: nat) -> Seq<char>
    decreases bits,
{
    if bits == 0 {
        Seq::empty()
    } else {
        seq![((bits % 256) as u8) as char] + unpack(bits / 256)
    }
}

/// `2^(8 * n)`.
pub open spec fn pow256(n: nat) -> nat
    decreases n,
{
    if n == 0 {
        1
    } else {
        256 * pow256((n - 1) as nat)
    }
}

/// Packed text of `n` bytes stays below `256^n`.
pub proof fn lemma_pack_bound(text: Seq<char>)
    requires
        forall|i: int| 0 <= i < text.len() ==> #[trigger] (text[i] as nat) < 256,
    ensures
        pack(text) < pow256(text.len()),
    decreases text.len(),
{
    if text.len() > 0 {
        let rest = text.drop_first();
        assert forall|i: int| 0 <= i < rest.len() implies #[trigger] (rest[i] as nat) < 256 by {
            assert(rest[i] == text[i + 1]);
        }
        lemma_pack_bound(rest);
        assert((text[0] as nat) < 256);
    }
}

/// Sixteen bytes fit a `u128`.
pub proof fn lemma_pow256_fits(n: nat)
    requires
        n <= 16,
    ensures
        pow256(n) <= 0x1_0000_0000_0000_0000_0000_0000_0000_0000,
    decreases 16 - n,
{
    if n == 16 {
        reveal_with_fuel(pow256, 17);
    } else {
        lemma_pow256_fits(n + 1);
    }
}

/// Unpacking undoes packing on text without NUL and within one byte per
/// character.
pub proof fn lemma_unpack_pack(text: Seq<char>)
    requires
        forall|i: int| 0 <= i < text.len() ==> 1 <= #[trigger] (text[i] as nat) < 256,
    ensures
        unpack(pack(text)) == text,
    decreases text.len(),
{
    if text.len() > 0 {
        let rest = text.drop_first();
        assert forall|i: int| 0 <= i < rest.len() implies 1 <= #[trigger] (rest[i] as nat)
            < 256 by {
            assert(rest[i] == text[i + 1]);
        }
        lemma_unpack_pack(rest);
        let c = text[0];
        let head = c as nat;
        assert(1 <= head < 256);
        let bits = pack(text);
        assert(bits == head + 256 * pack(rest));
        assert(bits % 256 == head);
        assert(bits / 256 == pack(rest));
        assert(((head as u8) as char) == c) by {
            let code = c as u32;
            vstd::utf8::char_u32_cast(c, code);
            assert((head as u8) as char == code as char);
        }
        assert(unpack(bits) =~= seq![c] + rest);
        assert(seq![c] + rest =~= text);
    }
}

/// Asks `tinystr` for the sixteen-byte string of `text` and hands back its
/// integer form in little-endian order (`TinyStr16::from_str`, then
/// `u128::from`). The call succeeds exactly on one to sixteen ASCII
/// characters without NUL, and the integer then holds the characters as
/// base-256 digits, the first one least significant.
#[verifier::external_body]
fn tiny_bits(text: &str) -> (r: Result<u128, tinystr::Error>)
    ensures
        r is Ok <==> is_tiny_text(text@),
        r matches Ok(bits) ==> bits == pack(text@),
{
    match text.parse::<TinyStr16>() {
        Ok(tiny) => Ok(u128::from(tiny)),
        Err(e) => Err(e),
    }
}

/// A fixed-width identifier, held as the packed integer of its text.
#[derive(Clone, Copy, Debug, PartialEq, Eq, Hash)]
pub struct Identifier {
    bits: u128,
}

impl View for Identifier {
    type V = Seq<char>;

    closed spec fn view(&self) -> Seq<char> {
        unpack(self.bits as nat)
    }
}

/// The identifier that holds `text`, if any does.
pub closed spec fn identifier_of(text: Seq<char>) -> Option<Identifier> {
    if is_tiny_text(text) {
        Some(Identifier { bits: pack(text) as u128 })
    } else {
        None
    }
}

impl Identifier {
    /// The identifier holds one to sixteen ASCII characters and no NUL.
    #[verifier::type_invariant]
    pub closed spec fn wf(&self) -> bool {
        is_tiny_text(self@)
    }

    /// The packed integer, by which an identifier is stored and found again.
    pub closed spec fn spec_bits(&self) -> u128 {
        self.bits
    }

    /// Reads `text` as an identifier.
    pub fn parse(text: &str) -> (r: Option<Identifier>)
        ensures
            r == identifier_of(text@),
            r matches Some(id) ==> id.wf() && id@ == text@,
    {
        match tiny_bits(text) {
            Ok(bits) => {
                proof {
                    lemma_identifier_of(text@);
                }
                Some(Identifier { bits })
            },
            Err(_) => None,
        }
    }

    /// The packed integer.
    #[verifier::when_used_as_spec(spec_bits)]
    pub fn bits(&self) -> (r: u128)
        ensures
            r == self.spec_bits(),
    {
        self.bits
    }

    /// The identifier's text.
    pub fn to_text(&self) -> (r: String)
        ensures
            r@ == self@,
    {
        let mut out = String::new();
        let mut rest: u128 = self.bits;
        while rest != 0
            invariant
                out@ + unpack(rest as nat) == unpack(self.bits as nat),
            decreases rest,
        {
            let byte: u8 = (rest % 256) as u8;
            let ghost before = out@;
            push_char(&mut out, byte as char);
            proof {
                assert(unpack(rest as nat) == seq![byte as char] + unpack((rest / 256) as nat));
                assert(out@ + unpack((rest / 256) as nat) =~= before + unpack(rest as nat));
            }
            rest = rest / 256;
        }
        out
    }
}

/// What `identifier_of` gives on text that fits: an identifier that holds
/// exactly that text.
pub proof fn lemma_identifier_of(text: Seq<char>)
    ensures
        identifier_of(text) is Some <==> is_tiny_text(text),
        identifier_of(text) matches Some(id) ==> id.wf() && id@ == text && id.spec_bits() == pack(
            text,
        ) && id.spec_bits() != 0,
{
    if is_tiny_text(text) {
        assert forall|i: int| 0 <= i < text.len() implies 1 <= #[trigger] (text[i] as nat)
            < 256 by {}
        lemma_pack_bound(text);
        lemma_pow256_fits(text.len());
        lemma_unpack_pack(text);
        assert((text[0] as nat) >= 1);
    }
}

/// The raw name without its four-character namespace prefix.
pub open spec fn stripped(raw: Seq<char>) -> Seq<char> {
    raw.skip(4)
}

/// Text of sixteen characters or more is cut down to its first twelve and
/// its last four; shorter text stays as it is.
pub open spec fn shortened(rest: Seq<char>) -> Seq<char> {
    if rest.len() >= 16 {
        rest.take(12) + rest.skip(rest.len() - 4)
    } else {
        rest
    }
}

/// The identifier derived from a raw name: the name is stripped of its
/// prefix and shortened, and the outcome must fit an identifier. A raw name
/// that is shorter than its prefix, or whose outcome does not fit, has none.
pub open spec fn truncated(raw: Seq<char>) -> Option<Identifier> {
    if raw.len() < 4 {
        None
    } else {
        identifier_of(shortened(stripped(raw)))
    }
}

/// Derives the identifier of a raw name.
pub fn truncate_id(id: &str) -> (r: Option<Identifier>)
    ensures
        r == truncated(id@),
        r matches Some(index) ==> index.wf() && index@ == shortened(stripped(id@)),
{
    let len = id.unicode_len();
    if len < 4 {
        return None;
    }
    let rest = id.substring_char(4, len);
    let n = len - 4;
    assert(rest@ == stripped(id@));
    if n >= 16 {
        let head = rest.substring_char(0, 12);
        let tail = rest.substring_char(n - 4, n);
        let joined = String::from_str(head).concat(tail);
        assert(joined@ == shortened(rest@));
        Identifier::parse(joined.as_str())
    } else {
        Identifier::parse(rest)
    }
}

/// The namespace that derived locations are filed under.
pub open spec fn default_namespace() -> Seq<char> {
    "unnamed"@
}

/// A location of the graph: an identifier, and the namespace it is filed
/// under, if any.
#[derive(Clone, Copy, Debug, PartialEq, Eq, Hash)]
pub struct Location {
    pub map: Option<Identifier>,
    pub index: Identifier,
}

impl Location {
    /// Both identifiers are well formed.
    pub open spec fn wf(&self) -> bool {
        &&& self.index.wf()
        &&& self.map matches Some(m) ==> m.wf()
    }

    /// The pair of integers that a location is stored under: the packed
    /// namespace, or zero where there is none, and the packed identifier.
    pub open spec fn spec_key(&self) -> (u128, u128) {
        (
            match self.map {
                Some(m) => m.spec_bits(),
                None => 0,
            },
            self.index.spec_bits(),
        )
    }

    /// The pair of integers that a location is stored under. A location
    /// that exists at run time is well formed.
    #[verifier::when_used_as_spec(spec_key)]
    pub fn key(&self) -> (r: (u128, u128))
        ensures
            r == self.spec_key(),
            self.wf(),
    {
        proof {
            use_type_invariant(&self.index);
        }
        let space: u128 = match self.map {
            Some(m) => {
                proof {
                    use_type_invariant(&m);
                }
                m.bits()
            },
            None => 0,
        };
        (space, self.index.bits())
    }
}

/// The location derived from a raw name alone: its truncated identifier in
/// the default namespace.
pub open spec fn located(raw: Seq<char>) -> Option<Location> {
    match truncated(raw) {
        Some(index) => Some(Location { map: identifier_of(default_namespace()), index }),
        None => None,
    }
}

/// The default namespace fits an identifier.
pub proof fn lemma_default_namespace()
    ensures
        is_tiny_text(default_namespace()),
        identifier_of(default_namespace()) is Some,
{
    reveal_strlit("unnamed");
    lemma_identifier_of(default_namespace());
}

/// Derives the location of a raw name.
pub fn loc(id: &str) -> (r: Option<Location>)
    ensures
        r == located(id@),
        r matches Some(l) ==> l.wf() && l.map is Some,
{
    match truncate_id(id) {
        Some(index) => {
            proof {
                lemma_default_namespace();
            }
            Some(Location { map: Identifier::parse("unnamed"), index })
        },
        None => None,
    }
}

/// Identifiers are told apart by their packed integers.
pub proof fn lemma_bits_injective(a: Identifier, b: Identifier)
    ensures
        a.spec_bits() == b.spec_bits() <==> a == b,
        a.wf() ==> a.spec_bits() != 0,
        a == b ==> a@ == b@,
{
}

/// Well-formed locations are told apart by their keys.
pub proof fn lemma_key_injective(a: Location, b: Location)
    requires
        a.wf(),
        b.wf(),
    ensures
        a.spec_key() == b.spec_key() <==> a == b,
{
    lemma_bits_injective(a.index, b.index);
    if a.map is Some {
        lemma_bits_injective(a.map->0, a.map->0);
    }
    if b.map is Some {
        lemma_bits_injective(b.map->0, b.map->0);
    }
    if a.map is Some && b.map is Some {
        lemma_bits_injective(a.map->0, b.map->0);
    }
}

} // verus!
