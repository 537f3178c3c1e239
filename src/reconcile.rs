//! Reconciliation passes: from one snapshot of a user's off-chain profile and
//! XP and of their on-chain record, decide the single registry write to
//! submit, if any, and what to report.
use vstd::prelude::*;

use crate::address::{zero_address, Address};
use crate::bio::{embedded_address, extract};

verus! {

/// An unsigned 256-bit integer as four 64-bit limbs, least significant first.
#[derive(Clone, Copy, Debug, PartialEq, Eq)]
pub struct Uint256 {
    pub limbs: [u64; 4],
}

pub open spec fn limb_base() -> nat {
    0x1_0000_0000_0000_0000
}

impl Uint256 {
    pub open spec fn value(&self) -> nat {
        let b = limb_base();
        (self.limbs[0] + b * (self.limbs[1] + b * (self.limbs[2] + b * self.limbs[3]))) as nat
    }

    pub fn from_u64(x: u64) -> (r: Uint256)
        ensures
            r.value() == x,
    {
        Uint256 { limbs: [x, 0, 0, 0] }
    }

    /// The value, where it fits in 64 bits.
    pub fn to_u64(&self) -> (r: Option<u64>)
        ensures
            self.value() < limb_base() ==> r == Some(self.value() as u64),
            self.value() >= limb_base() ==> r is None,
    {
        proof {
            lemma_value_bounds(*self);
        }
        if self.limbs[1] == 0 && self.limbs[2] == 0 && self.limbs[3] == 0 {
            Some(self.limbs[0])
        } else {
            None
        }
    }
}

/// A value is its low limb exactly when the higher limbs are all zero, and is
/// at least 2^64 otherwise.
proof fn lemma_value_bounds(x: Uint256)
    ensures
        x.limbs[1] == 0 && x.limbs[2] == 0 && x.limbs[3] == 0 ==> x.value() == x.limbs[0],
        !(x.limbs[1] == 0 && x.limbs[2] == 0 && x.limbs[3] == 0) ==> x.value() >= limb_base(),
{
    let b: int = limb_base() as int;
    let l1: int = x.limbs[1] as int;
    let l2: int = x.limbs[2] as int;
    let l3: int = x.limbs[3] as int;
    let inner: int = l2 + b * l3;
    let high: int = l1 + b * inner;
    assert(inner >= 0 && (l2 != 0 || l3 != 0 ==> inner >= 1)) by (nonlinear_arith)
        requires
            inner == l2 + b * l3,
            l2 >= 0,
            l3 >= 0,
            b > 0,
    ;
    assert(high >= 0 && (l1 != 0 || inner >= 1 ==> high >= 1)) by (nonlinear_arith)
        requires
            high == l1 + b * inner,
            l1 >= 0,
            inner >= 0,
            b > 0,
    ;
    assert(high >= 1 ==> b * high >= b) by (nonlinear_arith)
        requires
            b > 0,
    ;
    assert(high == 0 ==> b * high == 0);
}

/// What the registry holds for an id: the address rewards go to (zero where
/// the id is not registered) and the XP total last reported.
#[derive(Clone, Copy, Debug)]
pub struct OnchainRecord {
    pub address: Address,
    pub xp_reported: Uint256,
}

/// The off-chain profile fields a pass reads.
#[derive(Clone, Debug)]
pub struct UserProfile {
    pub id: u64,
    pub username: String,
    pub bio: String,
}

/// A write to the registry. Each pass submits at most one.
#[derive(Clone, Copy, Debug, PartialEq, Eq)]
pub enum ChainWrite {
    Register { id: u64, address: Address, xp: u64 },
    UpdateAddress { id: u64, address: Address },
    ReportXp { id: u64, total: u64 },
    Unregister { id: u64 },
}

/// Why a pass stops before reading the registry.
#[derive(Clone, Copy, Debug, PartialEq, Eq, Structural)]
pub enum ReconcileError {
    /// The handle resolves to no profile.
    UserNotFound,
    /// The profile's bio embeds no address.
    NoAddressLinked,
}

/// What may be minted: the off-chain XP above the reported total, and nothing
/// where the reported total is as large or larger.
pub open spec fn mintable(total_xp: u64, reported: nat) -> nat {
    if total_xp > reported {
        (total_xp - reported) as nat
    } else {
        0
    }
}

/// The profile a lookup by handle stands for: the first one returned, none
/// where the platform returned none.
pub fn first_user(users: Vec<UserProfile>) -> (r: Option<UserProfile>)
    ensures
        users@.len() == 0 ==> r is None,
        users@.len() > 0 ==> r == Some(users@[0]),
{
    let mut users = users;
    if users.len() == 0 {
        None
    } else {
        Some(users.remove(0))
    }
}

/// The account id and linked address of a looked-up profile.
pub fn resolve_linked(found: Option<UserProfile>) -> (r: Result<(u64, Address), ReconcileError>)
    ensures
        match found {
            None => r == Err::<(u64, Address), ReconcileError>(ReconcileError::UserNotFound),
            Some(p) => match embedded_address(p.bio@) {
                None => r == Err::<(u64, Address), ReconcileError>(
                    ReconcileError::NoAddressLinked,
                ),
                Some(b) => r matches Ok((id, a)) && id == p.id && a@ == b,
            },
        },
{
    match found {
        None => Err(ReconcileError::UserNotFound),
        Some(p) => match extract(p.bio.as_str()) {
            None => Err(ReconcileError::NoAddressLinked),
            Some(a) => Ok((p.id, a)),
        },
    }
}

/// The unregister pass: it needs only the account id of the looked-up
/// profile, whatever its bio holds.
pub fn unregister(found: Option<UserProfile>) -> (r: Result<ChainWrite, ReconcileError>)
    ensures
        match found {
            None => r == Err::<ChainWrite, ReconcileError>(ReconcileError::UserNotFound),
            Some(p) => r == Ok::<ChainWrite, ReconcileError>(ChainWrite::Unregister { id: p.id }),
        },
{
    match found {
        None => Err(ReconcileError::UserNotFound),
        Some(p) => Ok(ChainWrite::Unregister { id: p.id }),
    }
}

/// What a check reports; it writes nothing.
#[derive(Clone, Copy, Debug)]
pub struct CheckReport {
    pub profile_address: Address,
    pub contract_address: Address,
    pub addresses_match: bool,
    pub mintable: u64,
}

/// Compares the address in the profile with the registered one, and says how
/// much XP may be minted.
pub fn check(profile_address: Address, total_xp: u64, onchain: &OnchainRecord) -> (r: CheckReport)
    ensures
        r.profile_address == profile_address,
        r.contract_address == onchain.address,
        r.addresses_match == (profile_address@ == onchain.address@),
        r.mintable == mintable(total_xp, onchain.xp_reported.value()),
{
    let reported = onchain.xp_reported.to_u64();
    let amount: u64 = match reported {
        Some(x) => if total_xp > x {
            total_xp - x
        } else {
            0
        },
        None => 0,
    };
    CheckReport {
        profile_address,
        contract_address: onchain.address,
        addresses_match: profile_address.same_as(&onchain.address),
        mintable: amount,
    }
}

/// What a pass reads for a handle that resolves: the profile, with that
/// account's off-chain XP and on-chain record, read together.
#[derive(Clone, Debug)]
pub struct Snapshot {
    pub profile: UserProfile,
    pub total_xp: u64,
    pub onchain: OnchainRecord,
}

/// The check pass for a handle: `UserNotFound` where it resolves to no
/// profile, `NoAddressLinked` where the bio embeds no address, and otherwise
/// the report of `check`. It writes nothing.
pub fn check_handle(found: Option<Snapshot>) -> (r: Result<CheckReport, ReconcileError>)
    ensures
        match found {
            None => r == Err::<CheckReport, ReconcileError>(ReconcileError::UserNotFound),
            Some(s) => match embedded_address(s.profile.bio@) {
                None => r == Err::<CheckReport, ReconcileError>(ReconcileError::NoAddressLinked),
                Some(b) => r matches Ok(rep) && {
                    &&& rep.profile_address@ == b
                    &&& rep.contract_address == s.onchain.address
                    &&& rep.addresses_match == (b == s.onchain.address@)
                    &&& rep.mintable == mintable(s.total_xp, s.onchain.xp_reported.value())
                },
            },
        },
{
    match found {
        None => Err(ReconcileError::UserNotFound),
        Some(s) => match extract(s.profile.bio.as_str()) {
            None => Err(ReconcileError::NoAddressLinked),
            Some(a) => Ok(check(a, s.total_xp, &s.onchain)),
        },
    }
}

/// Registers an id that the registry does not know, moves a registered id to
/// the profile's address where the two differ, and writes nothing where they
/// agree.
pub fn register_or_update(id: u64, profile_address: Address, total_xp: u64, onchain: &OnchainRecord) -> (r: Option<ChainWrite>)
    ensures
        onchain.address@ == zero_address() ==> r == Some(
            ChainWrite::Register { id, address: profile_address, xp: total_xp },
        ),
        onchain.address@ != zero_address() && onchain.address@ != profile_address@ ==> r == Some(
            ChainWrite::UpdateAddress { id, address: profile_address },
        ),
        onchain.address@ != zero_address() && onchain.address@ == profile_address@ ==> r is None,
{
    if onchain.address.is_zero() {
        Some(ChainWrite::Register { id, address: profile_address, xp: total_xp })
    } else if !onchain.address.same_as(&profile_address) {
        Some(ChainWrite::UpdateAddress { id, address: profile_address })
    } else {
        None
    }
}

/// The outcome of a reward update: the write to submit, if any, and the
/// amount it mints.
#[derive(Clone, Copy, Debug, PartialEq, Eq)]
pub struct RewardUpdate {
    pub write: Option<ChainWrite>,
    pub minted: u64,
}

/// Reports the off-chain total where it exceeds the reported one, minting the
/// difference; otherwise writes nothing, since the reported total never
/// decreases.
pub fn update_rewards(id: u64, total_xp: u64, reported: &Uint256) -> (r: RewardUpdate)
    ensures
        total_xp <= reported.value() ==> r.write is None && r.minted == 0,
        total_xp > reported.value() ==> r.write == Some(ChainWrite::ReportXp { id, total: total_xp })
            && r.minted == total_xp - reported.value(),
{
    match reported.to_u64() {
        Some(x) => if total_xp > x {
            RewardUpdate { write: Some(ChainWrite::ReportXp { id, total: total_xp }), minted: total_xp - x }
        } else {
            RewardUpdate { write: None, minted: 0 }
        },
        None => RewardUpdate { write: None, minted: 0 },
    }
}

} // verus!
