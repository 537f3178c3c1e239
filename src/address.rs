//! Account addresses: twenty bytes, written as `0x` and forty hex digits whose
//! letter case may carry an EIP-55 checksum.
use vstd::prelude::*;
use vstd::string::*;

verus! {

/// A 20-byte account address. Equality is byte-wise, whatever the letter case
/// of the text it was read from.
#[derive(Clone, Copy, Debug)]
pub struct Address {
    pub bytes: [u8; 20],
}

impl View for Address {
    type V = Seq<u8>;

    open spec fn view(&self) -> Seq<u8> {
        self.bytes@
    }
}

/// Why a text is not an address.
#[derive(Clone, Copy, Debug, PartialEq, Eq, Structural)]
pub enum AddressError {
    /// Not forty hex digits, with or without a leading `0x`.
    Malformed,
    /// Upper- and lower-case letters together, in a pattern other than the
    /// address's checksum.
    BadChecksum,
}

/// The all-zero address: on the registry it marks an id as unregistered.
pub open spec fn zero_address() -> Seq<u8> {
    Seq::new(20, |i: int| 0u8)
}

pub open spec fn is_upper_hex_letter(c: char) -> bool {
    'A' <= c <= 'F'
}

pub open spec fn is_lower_hex_letter(c: char) -> bool {
    'a' <= c <= 'f'
}

pub open spec fn is_hex_digit(c: char) -> bool {
    ||| '0' <= c <= '9'
    ||| is_lower_hex_letter(c)
    ||| is_upper_hex_letter(c)
}

/// The value of a hex digit, in either case.
pub open spec fn hex_value(c: char) -> int {
    if '0' <= c <= '9' {
        c as int - '0' as int
    } else if is_lower_hex_letter(c) {
        c as int - 'a' as int + 10
    } else {
        c as int - 'A' as int + 10
    }
}

/// The `k`-th hex digit of `bytes`, most significant first.
pub open spec fn nibble(bytes: Seq<u8>, k: int) -> int {
    if k % 2 == 0 {
        bytes[k / 2] as int / 16
    } else {
        bytes[k / 2] as int % 16
    }
}

/// `t` is `0x` followed by the forty hex digits of `bytes`, in any case.
pub open spec fn spells_address(t: Seq<char>, bytes: Seq<u8>) -> bool {
    &&& t.len() == 42
    &&& t[0] == '0'
    &&& t[1] == 'x'
    &&& forall|k: int|
        0 <= k < 40 ==> is_hex_digit(#[trigger] t[k + 2]) && hex_value(t[k + 2]) == nibble(
            bytes,
            k,
        )
}

/// The EIP-55 text of an address, as ethers renders it.
pub uninterp spec fn checksum_text(bytes: Seq<u8>) -> Seq<char>;

/// Relies on `ethers::utils::to_checksum` with no chain id: it returns `0x`
/// and the lower-case hex encoding of the address, each letter upper-cased or
/// not by the address hash.
#[verifier::external_body]
pub(crate) fn checksum_of(address: &Address) -> (r: String)
    ensures
        r@ == checksum_text(address@),
        spells_address(r@, address@),
{
    ethers::utils::to_checksum(&ethers::types::Address::from(address.bytes), None)
}

/// The digits of an address text: a leading `0x`, if any, is dropped.
pub open spec fn address_digits(t: Seq<char>) -> Seq<char> {
    if t.len() >= 2 && t[0] == '0' && t[1] == 'x' {
        t.subrange(2, t.len() as int)
    } else {
        t
    }
}

pub open spec fn is_hex_text(d: Seq<char>) -> bool {
    &&& d.len() == 40
    &&& forall|k: int| 0 <= k < 40 ==> is_hex_digit(#[trigger] d[k])
}

/// The twenty bytes that forty hex digits stand for.
pub open spec fn hex_text_bytes(d: Seq<char>) -> Seq<u8> {
    Seq::new(20, |i: int| (hex_value(d[2 * i]) * 16 + hex_value(d[2 * i + 1])) as u8)
}

/// Upper- and lower-case letters together: the text carries a checksum.
pub open spec fn is_mixed_case(d: Seq<char>) -> bool {
    &&& exists|k: int| 0 <= k < d.len() && is_upper_hex_letter(#[trigger] d[k])
    &&& exists|k: int| 0 <= k < d.len() && is_lower_hex_letter(#[trigger] d[k])
}

/// What an address text reads as. Letter case is free, but a text in mixed
/// case must match the checksum of the address it spells.
pub open spec fn parsed_address(t: Seq<char>) -> Result<Seq<u8>, AddressError> {
    let d = address_digits(t);
    if !is_hex_text(d) {
        Err(AddressError::Malformed)
    } else if is_mixed_case(d) && d != checksum_text(hex_text_bytes(d)).subrange(2, 42) {
        Err(AddressError::BadChecksum)
    } else {
        Ok(hex_text_bytes(d))
    }
}

pub(crate) fn hex_digit_value(c: char) -> (r: Option<u8>)
    ensures
        match r {
            Some(v) => is_hex_digit(c) && v as int == hex_value(c) && v < 16,
            None => !is_hex_digit(c),
        },
{
    if '0' <= c && c <= '9' {
        Some((c as u32 - '0' as u32) as u8)
    } else if 'a' <= c && c <= 'f' {
        Some((c as u32 - 'a' as u32 + 10) as u8)
    } else if 'A' <= c && c <= 'F' {
        Some((c as u32 - 'A' as u32 + 10) as u8)
    } else {
        None
    }
}

/// Whether the digits of an address text (see `address_digits`) are, letter
/// case included, the digits of `checksum`, a checksum text with its `0x`.
pub fn digits_match_checksum(text: &str, checksum: &str) -> (r: bool)
    ensures
        r == (checksum@.len() == 42 && address_digits(text@) == checksum@.subrange(2, 42)),
{
    let n: usize = text.unicode_len();
    let start: usize = if n >= 2 && text.get_char(0) == '0' && text.get_char(1) == 'x' {
        2
    } else {
        0
    };
    let ghost d = address_digits(text@);
    assert(d =~= text@.subrange(start as int, n as int));
    if checksum.unicode_len() != 42 || n - start != 40 {
        return false;
    }
    let mut k: usize = 0;
    while k < 40
        invariant
            0 <= k <= 40,
            n == text@.len(),
            start + 40 == n,
            checksum@.len() == 42,
            d == text@.subrange(start as int, n as int),
            d == address_digits(text@),
            forall|j: int| 0 <= j < k ==> d[j] == checksum@[j + 2],
        decreases 40 - k,
    {
        if text.get_char(start + k) != checksum.get_char(k + 2) {
            assert(d[k as int] != checksum@.subrange(2, 42)[k as int]);
            return false;
        }
        k += 1;
    }
    assert(d =~= checksum@.subrange(2, 42));
    true
}

impl PartialEq for Address {
    fn eq(&self, other: &Address) -> (r: bool) {
        self.same_as(other)
    }
}

impl vstd::std_specs::cmp::PartialEqSpecImpl for Address {
    open spec fn obeys_eq_spec() -> bool {
        true
    }

    open spec fn eq_spec(&self, other: &Address) -> bool {
        self@ == other@
    }
}

impl Eq for Address {}

impl Address {
    pub fn same_as(&self, other: &Address) -> (r: bool)
        ensures
            r == (self@ == other@),
    {
        let mut i: usize = 0;
        while i < 20
            invariant
                0 <= i <= 20,
                forall|j: int| 0 <= j < i ==> self@[j] == other@[j],
            decreases 20 - i,
        {
            if self.bytes[i] != other.bytes[i] {
                return false;
            }
            i += 1;
        }
        assert(self@ =~= other@);
        true
    }

    /// The zero address marks an id that is not registered.
    pub fn is_zero(&self) -> (r: bool)
        ensures
            r == (self@ == zero_address()),
    {
        let mut i: usize = 0;
        while i < 20
            invariant
                0 <= i <= 20,
                forall|j: int| 0 <= j < i ==> self@[j] == 0,
            decreases 20 - i,
        {
            if self.bytes[i] != 0 {
                return false;
            }
            i += 1;
        }
        assert(self@ =~= zero_address());
        true
    }

    /// Reads an address text: forty hex digits, with or without a leading
    /// `0x`, in any letter case; a text in mixed case must carry the
    /// address's checksum.
    pub fn parse(text: &str) -> (r: Result<Address, AddressError>)
        ensures
            match parsed_address(text@) {
                Ok(b) => r matches Ok(a) && a@ == b,
                Err(e) => r == Err::<Address, AddressError>(e),
            },
    {
        let n: usize = text.unicode_len();
        let start: usize = if n >= 2 && text.get_char(0) == '0' && text.get_char(1) == 'x' {
            2
        } else {
            0
        };
        let ghost d = address_digits(text@);
        assert(d =~= text@.subrange(start as int, n as int));
        if n - start != 40 {
            return Err(AddressError::Malformed);
        }
        let mut bytes: [u8; 20] = [0u8; 20];
        let mut has_upper = false;
        let mut has_lower = false;
        let mut i: usize = 0;
        while i < 20
            invariant
                0 <= i <= 20,
                n == text@.len(),
                start + 40 == n,
                d == text@.subrange(start as int, n as int),
                forall|k: int| 0 <= k < 2 * i ==> is_hex_digit(#[trigger] d[k]),
                forall|j: int|
                    0 <= j < i ==> bytes@[j] == (hex_value(d[2 * j]) * 16 + hex_value(
                        d[2 * j + 1],
                    )) as u8,
                has_upper <==> exists|k: int| 0 <= k < 2 * i && is_upper_hex_letter(#[trigger] d[k]),
                has_lower <==> exists|k: int| 0 <= k < 2 * i && is_lower_hex_letter(#[trigger] d[k]),
            decreases 20 - i,
        {
            let hi = text.get_char(start + 2 * i);
            let lo = text.get_char(start + 2 * i + 1);
            assert(hi == d[2 * i] && lo == d[2 * i + 1]);
            let h: u8 = match hex_digit_value(hi) {
                Some(v) => v,
                None => {
                    assert(!is_hex_text(d));
                    return Err(AddressError::Malformed);
                },
            };
            let l: u8 = match hex_digit_value(lo) {
                Some(v) => v,
                None => {
                    assert(!is_hex_text(d));
                    return Err(AddressError::Malformed);
                },
            };
            bytes[i] = h * 16 + l;
            let hi_upper = 'A' <= hi && hi <= 'F';
            let lo_upper = 'A' <= lo && lo <= 'F';
            let hi_lower = 'a' <= hi && hi <= 'f';
            let lo_lower = 'a' <= lo && lo <= 'f';
            proof {
                if has_upper {
                    let k: int = choose|k: int| 0 <= k < 2 * i && is_upper_hex_letter(#[trigger] d[k]);
                    assert(0 <= k < 2 * (i + 1) && is_upper_hex_letter(d[k]));
                }
                if hi_upper {
                    assert(is_upper_hex_letter(d[2 * i as int]));
                }
                if lo_upper {
                    assert(is_upper_hex_letter(d[2 * i + 1]));
                }
                if has_lower {
                    let k: int = choose|k: int| 0 <= k < 2 * i && is_lower_hex_letter(#[trigger] d[k]);
                    assert(0 <= k < 2 * (i + 1) && is_lower_hex_letter(d[k]));
                }
                if hi_lower {
                    assert(is_lower_hex_letter(d[2 * i as int]));
                }
                if lo_lower {
                    assert(is_lower_hex_letter(d[2 * i + 1]));
                }
            }
            has_upper = has_upper || hi_upper || lo_upper;
            has_lower = has_lower || hi_lower || lo_lower;
            i += 1;
        }
        let address = Address { bytes };
        assert(is_hex_text(d));
        assert(address@ =~= hex_text_bytes(d));
        if has_upper && has_lower {
            assert(is_mixed_case(d));
            let cs = checksum_of(&address);
            if !digits_match_checksum(text, cs.as_str()) {
                return Err(AddressError::BadChecksum);
            }
        }
        Ok(address)
    }
}

} // verus!
