//! The profile bio as a channel for an address: finding the address a bio
//! embeds, and rewriting a bio to embed a new one.
use vstd::prelude::*;
use vstd::string::*;

use crate::address::{
    checksum_of,
    checksum_text,
    hex_text_bytes,
    is_hex_digit,
    is_hex_text,
    parsed_address,
    spells_address,
    address_digits,
    nibble,
    hex_value,
    hex_digit_value,
    Address,
};

verus! {

/// At position `p` of `s` stands `0x` and forty hex digits.
pub open spec fn address_at(s: Seq<char>, p: int) -> bool {
    &&& 0 <= p
    &&& p + 42 <= s.len()
    &&& s[p] == '0'
    &&& s[p + 1] == 'x'
    &&& forall|k: int| 2 <= k < 42 ==> is_hex_digit(#[trigger] s[p + k])
}

/// `p` is the leftmost position at which an address stands.
pub open spec fn first_address_at(s: Seq<char>, p: int) -> bool {
    &&& address_at(s, p)
    &&& forall|q: int| 0 <= q < p ==> !address_at(s, q)
}

pub open spec fn has_address(s: Seq<char>) -> bool {
    exists|p: int| address_at(s, p)
}

/// The address a text embeds: the leftmost `0x` and forty hex digits, read as
/// an address. Later candidates are not looked at.
pub open spec fn embedded_address(s: Seq<char>) -> Option<Seq<u8>> {
    if exists|p: int| first_address_at(s, p) {
        let p: int = choose|p: int| first_address_at(s, p);
        match parsed_address(s.subrange(p, p + 42)) {
            Ok(b) => Some(b),
            Err(_) => None,
        }
    } else {
        None
    }
}

/// `t` starts with `x` and forty hex digits, and the address text `text`
/// ends in `0`: put after `text`, the two would join into another address.
pub open spec fn joins_after(text: Seq<char>, t: Seq<char>) -> bool {
    &&& text.len() == 42
    &&& text[41] == '0'
    &&& t.len() >= 41
    &&& t[0] == 'x'
    &&& forall|k: int| 1 <= k < 41 ==> is_hex_digit(#[trigger] t[k])
}

/// What follows the new address text `text` in a rewritten bio: `t` with its
/// addresses taken out, leftmost first, until none is left. Where `t` would
/// join onto `text` into another address, its `x` and forty digits go first.
pub open spec fn cleaned_tail(text: Seq<char>, t: Seq<char>) -> Seq<char>
    decreases t.len(),
{
    if joins_after(text, t) {
        cleaned_tail(text, t.subrange(41, t.len() as int))
    } else if exists|m: int| first_address_at(t, m) {
        let m: int = choose|m: int| first_address_at(t, m);
        cleaned_tail(text, t.subrange(0, m) + t.subrange(m + 42, t.len() as int))
    } else {
        t
    }
}

/// A bio that embeds an address has its leftmost one replaced by `text` and
/// every other address taken out of what follows (see `cleaned_tail`); any
/// other bio gets `text` appended after a space.
pub open spec fn rewritten_bio(bio: Seq<char>, text: Seq<char>) -> Seq<char> {
    if exists|p: int| first_address_at(bio, p) {
        let p: int = choose|p: int| first_address_at(bio, p);
        bio.subrange(0, p) + text + cleaned_tail(text, bio.subrange(p + 42, bio.len() as int))
    } else {
        bio + seq![' '] + text
    }
}

/// Relies on `regex::Regex::find` with the pattern `0x[0-9a-fA-F]{40}`: the
/// leftmost match, or none where the pattern matches nowhere. The text before
/// and after the match is split off with it.
#[verifier::external_body]
fn find_address(s: &str) -> (r: Option<(String, String, String)>)
    ensures
        r is None ==> !has_address(s@),
        r matches Some((before, found, after)) ==> {
            &&& first_address_at(s@, before@.len() as int)
            &&& found@.len() == 42
            &&& s@ == before@ + found@ + after@
        },
{
    let pattern = regex::Regex::new("0x[0-9a-fA-F]{40}").unwrap();
    pattern.find(s).map(
        |m| (s[..m.start()].to_string(), m.as_str().to_string(), s[m.end()..].to_string()),
    )
}

proof fn lemma_first_address_unique(s: Seq<char>, p: int, q: int)
    requires
        first_address_at(s, p),
        first_address_at(s, q),
    ensures
        p == q,
{
}

proof fn lemma_first_address_exists(s: Seq<char>, q: int)
    requires
        address_at(s, q),
    ensures
        exists|p: int| first_address_at(s, p),
    decreases q,
{
    if exists|r: int| 0 <= r < q && address_at(s, r) {
        let r: int = choose|r: int| 0 <= r < q && address_at(s, r);
        lemma_first_address_exists(s, r);
    } else {
        assert(first_address_at(s, q));
    }
}

/// Where the leftmost address of `s` stands, that is where extraction reads.
proof fn lemma_embedded_at(s: Seq<char>, p: int)
    requires
        first_address_at(s, p),
    ensures
        embedded_address(s) == match parsed_address(s.subrange(p, p + 42)) {
            Ok(b) => Some(b),
            Err(_) => None::<Seq<u8>>,
        },
{
    let c: int = choose|c: int| first_address_at(s, c);
    lemma_first_address_unique(s, c, p);
}

/// A cleaned tail holds no address, and nothing that joins onto `text`.
proof fn lemma_cleaned_tail(text: Seq<char>, t: Seq<char>)
    ensures
        !joins_after(text, cleaned_tail(text, t)),
        !has_address(cleaned_tail(text, t)),
    decreases t.len(),
{
    if joins_after(text, t) {
        lemma_cleaned_tail(text, t.subrange(41, t.len() as int));
    } else if exists|m: int| first_address_at(t, m) {
        let m: int = choose|m: int| first_address_at(t, m);
        lemma_cleaned_tail(text, t.subrange(0, m) + t.subrange(m + 42, t.len() as int));
    } else {
        assert forall|q: int| !address_at(t, q) by {
            if address_at(t, q) {
                lemma_first_address_exists(t, q);
            }
        }
    }
}

/// Where `p` is the leftmost address of `bio`, the rewrite splices at `p`.
proof fn lemma_rewritten_at(bio: Seq<char>, text: Seq<char>, p: int)
    requires
        first_address_at(bio, p),
    ensures
        rewritten_bio(bio, text) == bio.subrange(0, p) + text + cleaned_tail(
            text,
            bio.subrange(p + 42, bio.len() as int),
        ),
{
    let c: int = choose|c: int| first_address_at(bio, c);
    lemma_first_address_unique(bio, c, p);
}

/// The checksum text of an address reads back as that address.
proof fn lemma_checksum_parses(bytes: Seq<u8>, text: Seq<char>)
    requires
        bytes.len() == 20,
        text == checksum_text(bytes),
        spells_address(text, bytes),
    ensures
        parsed_address(text) == Ok::<Seq<u8>, crate::address::AddressError>(bytes),
{
    let d = address_digits(text);
    assert(d =~= text.subrange(2, 42));
    assert forall|k: int| 0 <= k < 40 implies is_hex_digit(#[trigger] d[k]) by {
        assert(d[k] == text[k + 2]);
    }
    assert forall|i: int| 0 <= i < 20 implies #[trigger] hex_text_bytes(d)[i] == bytes[i] by {
        assert(d[2 * i] == text[2 * i + 2]);
        assert(d[2 * i + 1] == text[(2 * i + 1) + 2]);
        assert(hex_value(d[2 * i]) == nibble(bytes, 2 * i));
        assert(hex_value(d[2 * i + 1]) == nibble(bytes, 2 * i + 1));
        let b: int = bytes[i] as int;
        assert((2 * i) / 2 == i && (2 * i) % 2 == 0) by (nonlinear_arith);
        assert((2 * i + 1) / 2 == i && (2 * i + 1) % 2 == 1) by (nonlinear_arith);
        assert((b / 16) * 16 + b % 16 == b) by (nonlinear_arith);
    }
    assert(hex_text_bytes(d) =~= bytes);
    assert(is_hex_text(d));
}

/// Where `text` is an address text, the rewritten bio holds its leftmost
/// address at the place where `text` was put.
proof fn lemma_rewrite_places_text(bio: Seq<char>, text: Seq<char>) -> (place: int)
    requires
        address_at(text, 0),
        text.len() == 42,
    ensures
        first_address_at(rewritten_bio(bio, text), place),
        rewritten_bio(bio, text).subrange(place, place + 42) == text,
        forall|p: int| first_address_at(bio, p) ==> place == p,
        !(exists|p: int| first_address_at(bio, p)) ==> place == bio.len() + 1,
{
    let r = rewritten_bio(bio, text);
    if exists|p: int| first_address_at(bio, p) {
        let p: int = choose|p: int| first_address_at(bio, p);
        assert forall|p2: int| first_address_at(bio, p2) implies p == p2 by {
            lemma_first_address_unique(bio, p, p2);
        }
        lemma_rewritten_at(bio, text, p);
        assert forall|j: int| 0 <= j < p implies #[trigger] r[j] == bio[j] by {}
        assert forall|k: int| 0 <= k < 42 implies #[trigger] r[p + k] == text[k] by {}
        assert(address_at(r, p)) by {
            assert forall|k: int| 2 <= k < 42 implies is_hex_digit(#[trigger] r[p + k]) by {
                assert(r[p + k] == text[0 + k]);
            }
        }
        assert forall|q: int| 0 <= q < p implies !address_at(r, q) by {
            if address_at(r, q) {
                if q + 41 <= p {
                    assert forall|k: int| 2 <= k < 42 implies is_hex_digit(#[trigger] bio[q + k]) by {
                        assert(r[q + k] == bio[q + k]);
                    }
                    assert(address_at(bio, q));
                } else {
                    let k: int = p + 1 - q;
                    assert(2 <= k < 42);
                    assert(r[q + k] == text[1]);
                    assert(is_hex_digit(r[q + k]));
                }
            }
        }
        assert(r.subrange(p, p + 42) =~= text);
        p
    } else {
        let n: int = bio.len() as int;
        assert forall|q: int| !address_at(bio, q) by {
            if address_at(bio, q) {
                lemma_first_address_exists(bio, q);
            }
        }
        assert(r == bio + seq![' '] + text);
        assert(r.len() == n + 43);
        assert(r[n] == ' ');
        assert forall|j: int| 0 <= j < n implies #[trigger] r[j] == bio[j] by {}
        assert forall|k: int| 0 <= k < 42 implies #[trigger] r[n + 1 + k] == text[k] by {}
        assert(address_at(r, n + 1)) by {
            assert forall|k: int| 2 <= k < 42 implies is_hex_digit(#[trigger] r[n + 1 + k]) by {
                assert(r[n + 1 + k] == text[0 + k]);
            }
        }
        assert forall|q: int| 0 <= q < n + 1 implies !address_at(r, q) by {
            if address_at(r, q) {
                if q + 42 <= n {
                    assert forall|k: int| 2 <= k < 42 implies is_hex_digit(#[trigger] bio[q + k]) by {
                        assert(r[q + k] == bio[q + k]);
                    }
                    assert(address_at(bio, q));
                } else if q == n {
                    assert(r[q] == ' ');
                } else if q == n - 1 {
                    assert(r[q + 1] == ' ');
                } else {
                    let k: int = n - q;
                    assert(2 <= k < 42);
                    assert(r[q + k] == ' ');
                    assert(is_hex_digit(r[q + k]));
                }
            }
        }
        assert(r.subrange(n + 1, n + 43) =~= text);
        n + 1
    }
}

/// The rewritten bio holds exactly one address, and it is `text`: where the
/// bio's leftmost address stood, or appended where it had none. No other
/// address text of the bio is left anywhere in it.
pub proof fn lemma_rewrite_leaves_one_address(bio: Seq<char>, text: Seq<char>)
    requires
        address_at(text, 0),
        text.len() == 42,
    ensures
        has_address(rewritten_bio(bio, text)),
        forall|q1: int, q2: int|
            #[trigger] address_at(rewritten_bio(bio, text), q1) && #[trigger] address_at(
                rewritten_bio(bio, text),
                q2,
            ) ==> q1 == q2,
        forall|q: int|
            address_at(rewritten_bio(bio, text), q) ==> rewritten_bio(bio, text).subrange(q, q + 42)
                == text,
        forall|p: int, q: int|
            address_at(bio, p) && bio.subrange(p, p + 42) != text && 0 <= q && q + 42
                <= rewritten_bio(bio, text).len() ==> #[trigger] rewritten_bio(bio, text).subrange(
                q,
                q + 42,
            ) != #[trigger] bio.subrange(p, p + 42),
{
    let r = rewritten_bio(bio, text);
    let place: int = lemma_rewrite_places_text(bio, text);
    if exists|p: int| first_address_at(bio, p) {
        let p: int = choose|p: int| first_address_at(bio, p);
        assert(place == p);
        lemma_rewritten_at(bio, text, p);
        let c = cleaned_tail(text, bio.subrange(p + 42, bio.len() as int));
        lemma_cleaned_tail(text, bio.subrange(p + 42, bio.len() as int));
        assert forall|k: int| 0 <= k < 42 implies #[trigger] r[p + k] == text[k] by {}
        assert forall|i: int| 0 <= i < c.len() implies #[trigger] r[p + 42 + i] == c[i] by {}
        assert forall|q: int| address_at(r, q) implies q == p by {
            if q < p {
            } else if p < q < p + 41 {
                let k: int = q + 1 - p;
                assert(r[q + 1] == text[k]);
                assert(is_hex_digit(text[0 + k]));
            } else if q == p + 41 {
                assert(r[q] == text[41]);
                assert(c[0] == r[q + 1]);
                assert forall|k: int| 1 <= k < 41 implies is_hex_digit(#[trigger] c[k]) by {
                    assert(r[p + 42 + k] == c[k]);
                    assert(is_hex_digit(r[q + (k + 1)]));
                }
                assert(joins_after(text, c));
            } else if q > p + 41 {
                let q2: int = q - (p + 42);
                assert forall|k: int| 2 <= k < 42 implies is_hex_digit(#[trigger] c[q2 + k]) by {
                    assert(c[q2 + k] == r[q + k]);
                }
                assert(c[q2] == r[q]);
                assert(c[q2 + 1] == r[q + 1]);
                assert(address_at(c, q2));
            }
        }
    } else {
        assert forall|q: int| address_at(r, q) implies q == place by {
            if q < place {
            } else if q > place {
                assert(r == bio + seq![' '] + text);
                assert(r.len() == bio.len() + 43);
            }
        }
    }
    assert(address_at(r, place));
    assert forall|p: int, q: int|
        address_at(bio, p) && bio.subrange(p, p + 42) != text && 0 <= q && q + 42 <= r.len()
            implies #[trigger] r.subrange(q, q + 42) != #[trigger] bio.subrange(p, p + 42) by {
        if r.subrange(q, q + 42) == bio.subrange(p, p + 42) {
            assert forall|k: int| 2 <= k < 42 implies is_hex_digit(#[trigger] r[q + k]) by {
                assert(r[q + k] == r.subrange(q, q + 42)[k]);
                assert(bio[p + k] == bio.subrange(p, p + 42)[k]);
            }
            assert(r[q] == r.subrange(q, q + 42)[0]);
            assert(r[q + 1] == r.subrange(q, q + 42)[1]);
            assert(bio[p] == bio.subrange(p, p + 42)[0]);
            assert(bio[p + 1] == bio.subrange(p, p + 42)[1]);
            assert(address_at(r, q));
        }
    }
}

/// A bio that embeds no address gets the new text appended after a space,
/// and is otherwise unchanged.
pub proof fn lemma_rewrite_appends(bio: Seq<char>, text: Seq<char>)
    requires
        !has_address(bio),
    ensures
        rewritten_bio(bio, text) == bio + seq![' '] + text,
{
    if exists|p: int| first_address_at(bio, p) {
        let p: int = choose|p: int| first_address_at(bio, p);
        assert(address_at(bio, p));
    }
}

/// The address that a text embeds, if any: its leftmost `0x` and forty hex
/// digits, read as by `Address::parse`. A leftmost candidate that does not
/// read as an address yields none.
pub fn extract(text: &str) -> (r: Option<Address>)
    ensures
        match embedded_address(text@) {
            Some(b) => r matches Some(a) && a@ == b,
            None => r is None,
        },
{
    match find_address(text) {
        None => {
            proof {
                if exists|p: int| first_address_at(text@, p) {
                    let p: int = choose|p: int| first_address_at(text@, p);
                    assert(address_at(text@, p));
                }
            }
            None
        },
        Some((before, found, after)) => {
            let ghost p = before@.len() as int;
            proof {
                lemma_embedded_at(text@, p);
                assert(text@.subrange(p, p + 42) =~= found@);
            }
            match Address::parse(found.as_str()) {
                Ok(a) => Some(a),
                Err(_) => None,
            }
        },
    }
}

/// Whether `t` would join onto the address text `text` (see `joins_after`).
fn joins_text(text: &str, t: &str) -> (r: bool)
    ensures
        r == joins_after(text@, t@),
{
    if text.unicode_len() != 42 || text.get_char(41) != '0' {
        return false;
    }
    let m: usize = t.unicode_len();
    if m < 41 || t.get_char(0) != 'x' {
        return false;
    }
    let mut k: usize = 1;
    while k < 41
        invariant
            1 <= k <= 41,
            m == t@.len(),
            m >= 41,
            text@.len() == 42,
            text@[41] == '0',
            t@[0] == 'x',
            forall|j: int| 1 <= j < k ==> is_hex_digit(#[trigger] t@[j]),
        decreases 41 - k,
    {
        if hex_digit_value(t.get_char(k)).is_none() {
            return false;
        }
        k += 1;
    }
    true
}

/// What follows the new address text `text` in a rewritten bio: `tail` with
/// its addresses taken out (see `cleaned_tail`).
pub fn clean_tail(text: &str, tail: &str) -> (r: String)
    ensures
        r@ == cleaned_tail(text@, tail@),
{
    let mut rest = String::from_str(tail);
    let mut done = false;
    while !done
        invariant
            cleaned_tail(text@, rest@) == cleaned_tail(text@, tail@),
            done ==> cleaned_tail(text@, rest@) == rest@,
        decreases rest@.len() + if done { 0int } else { 1int },
    {
        if joins_text(text, rest.as_str()) {
            let n: usize = rest.as_str().unicode_len();
            let next = String::from_str(rest.as_str().substring_char(41, n));
            rest = next;
        } else {
            match find_address(rest.as_str()) {
                Some((before, _found, after)) => {
                    proof {
                        let m: int = before@.len() as int;
                        let c: int = choose|c: int| first_address_at(rest@, c);
                        lemma_first_address_unique(rest@, c, m);
                        assert(rest@.subrange(0, m) =~= before@);
                        assert(rest@.subrange(m + 42, rest@.len() as int) =~= after@);
                    }
                    let mut next = before;
                    next.append(after.as_str());
                    rest = next;
                },
                None => {
                    proof {
                        if exists|m: int| first_address_at(rest@, m) {
                            let m: int = choose|m: int| first_address_at(rest@, m);
                            assert(address_at(rest@, m));
                        }
                    }
                    done = true;
                },
            }
        }
    }
    rest
}

/// Puts the address text `text` into `bio`: in place of the leftmost address
/// the bio embeds, with every other address taken out of what follows, or
/// after a space at its end where it embeds none.
pub fn rewrite_bio_with(bio: &str, text: &str) -> (r: String)
    ensures
        r@ == rewritten_bio(bio@, text@),
{
    match find_address(bio) {
        Some((before, _found, after)) => {
            proof {
                let p: int = before@.len() as int;
                lemma_rewritten_at(bio@, text@, p);
                assert(bio@.subrange(0, p) =~= before@);
                assert(bio@.subrange(p + 42, bio@.len() as int) =~= after@);
            }
            let tail = clean_tail(text, after.as_str());
            let mut r = before;
            r.append(text);
            r.append(tail.as_str());
            r
        },
        None => {
            proof {
                if exists|p: int| first_address_at(bio@, p) {
                    let p: int = choose|p: int| first_address_at(bio@, p);
                    assert(address_at(bio@, p));
                }
                reveal_strlit(" ");
            }
            let mut r = String::from_str(bio);
            r.append(" ");
            r.append(text);
            r
        },
    }
}

/// Puts `address` into `bio` in its checksum text (see `rewrite_bio_with`).
/// The result holds exactly one address, the new one, which extraction reads
/// back; no other address text of the bio is left in it.
pub fn rewrite_bio(bio: &str, address: &Address) -> (r: String)
    ensures
        r@ == rewritten_bio(bio@, checksum_text(address@)),
        embedded_address(r@) == Some(address@),
        has_address(r@),
        forall|q1: int, q2: int|
            #[trigger] address_at(r@, q1) && #[trigger] address_at(r@, q2) ==> q1 == q2,
        forall|q: int| address_at(r@, q) ==> r@.subrange(q, q + 42) == checksum_text(address@),
        forall|p: int, q: int|
            address_at(bio@, p) && bio@.subrange(p, p + 42) != checksum_text(address@) && 0 <= q
                && q + 42 <= r@.len() ==> #[trigger] r@.subrange(q, q + 42) != #[trigger] bio@.subrange(
                p,
                p + 42,
            ),
{
    let text = checksum_of(address);
    let r = rewrite_bio_with(bio, text.as_str());
    proof {
        assert(address_at(text@, 0)) by {
            assert forall|k: int| 2 <= k < 42 implies is_hex_digit(#[trigger] text@[0 + k]) by {
                assert(text@[(k - 2) + 2] == text@[k]);
            }
        }
        let place: int = lemma_rewrite_places_text(bio@, text@);
        lemma_embedded_at(r@, place);
        lemma_checksum_parses(address@, text@);
        lemma_rewrite_leaves_one_address(bio@, text@);
    }
    r
}

} // verus!
