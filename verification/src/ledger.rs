//! The resume ledger: a part count persisted as four big-endian bytes, and
//! the decision whether a previous run's segments are stale.

use vstd::prelude::*;
use vstd::arithmetic::div_mod::{lemma_div_denominator, lemma_fundamental_div_mod, lemma_mod_bound};

verus! {

/// The unsigned 32-bit pattern that stands for `c` in two's complement.
pub open spec fn u32_pattern(c: int) -> int {
    if c >= 0 {
        c
    } else {
        c + 0x1_0000_0000
    }
}

/// The four big-endian bytes that persist a part count `c`.
pub open spec fn ledger_bytes(c: int) -> Seq<u8> {
    let u = u32_pattern(c);
    seq![
        (u / 0x100_0000) as u8,
        ((u / 0x1_0000) % 0x100) as u8,
        ((u / 0x100) % 0x100) as u8,
        (u % 0x100) as u8,
    ]
}

/// The part count held in the first four bytes of a ledger file, read
/// big-endian as a signed 32-bit integer.
pub open spec fn ledger_value(b: Seq<u8>) -> int {
    let u = b[0] * 0x100_0000 + b[1] * 0x1_0000 + b[2] * 0x100 + b[3];
    if u >= 0x8000_0000 {
        u - 0x1_0000_0000
    } else {
        u
    }
}

/// Serialize a part count for the ledger file.
pub fn encode_count(count: i32) -> (r: Vec<u8>)
    ensures
        r@ == ledger_bytes(count as int),
        r@.len() == 4,
{
    let u: u32 = if count >= 0 {
        count as u32
    } else {
        let m: u32 = (-(count as i64)) as u32;
        (0xFFFF_FFFFu32 - m) + 1
    };
    proof {
        assert(u == u32_pattern(count as int));
    }
    let mut r: Vec<u8> = Vec::new();
    r.push((u / 0x100_0000) as u8);
    r.push(((u / 0x1_0000) % 0x100) as u8);
    r.push(((u / 0x100) % 0x100) as u8);
    r.push((u % 0x100) as u8);
    proof {
        assert(r@ =~= ledger_bytes(count as int));
    }
    r
}

/// Read a part count back from the raw bytes of a ledger file. A file of
/// fewer than four bytes holds no count.
pub fn decode_count(bytes: &Vec<u8>) -> (r: Option<i32>)
    ensures
        match r {
            Some(v) => bytes@.len() >= 4 && v as int == ledger_value(bytes@),
            None => bytes@.len() < 4,
        },
{
    if bytes.len() < 4 {
        return None;
    }
    let b0: u32 = bytes[0] as u32;
    let b1: u32 = bytes[1] as u32;
    let b2: u32 = bytes[2] as u32;
    let b3: u32 = bytes[3] as u32;
    let u: u32 = b0 * 0x100_0000 + b1 * 0x1_0000 + b2 * 0x100 + b3;
    let v: i32 = if u >= 0x8000_0000 {
        ((u as i64) - 0x1_0000_0000i64) as i32
    } else {
        u as i32
    };
    Some(v)
}

/// Writing a count and reading it back gives the count again.
pub proof fn lemma_ledger_round_trip(c: i32)
    ensures
        ledger_bytes(c as int).len() == 4,
        ledger_value(ledger_bytes(c as int)) == c as int,
{
    let u = u32_pattern(c as int);
    assert(0 <= u < 0x1_0000_0000);
    let b0 = u / 0x100_0000;
    let t1 = u / 0x1_0000;
    let t2 = u / 0x100;
    lemma_fundamental_div_mod(u, 0x100);
    lemma_mod_bound(u, 0x100);
    lemma_fundamental_div_mod(t2, 0x100);
    lemma_mod_bound(t2, 0x100);
    lemma_fundamental_div_mod(t1, 0x100);
    lemma_mod_bound(t1, 0x100);
    lemma_div_denominator(u, 0x100, 0x100);
    assert(t2 / 0x100 == t1);
    lemma_div_denominator(u, 0x1_0000, 0x100);
    assert(t1 / 0x100 == b0);
    assert(u == b0 * 0x100_0000 + (t1 % 0x100) * 0x1_0000 + (t2 % 0x100) * 0x100 + u % 0x100);
    assert(b0 < 0x100) by {
        lemma_fundamental_div_mod(u, 0x100_0000);
        lemma_mod_bound(u, 0x100_0000);
    }
}

/// What a run must do about the ledger and any existing segment files
/// before planning: `reset` says whether the previous plan is stale;
/// segment files indexed `1..=delete_upto` are to be removed (zero when
/// nothing is stale). A ledger with the requested count is then written in
/// either case.
#[derive(Debug, Clone, Copy, PartialEq, Eq, Structural)]
pub struct LedgerOutcome {
    pub reset: bool,
    pub delete_upto: i32,
}

/// Decide whether existing segments are stale. `existing` is the count
/// held by the ledger file, or `None` when there is no (readable) ledger.
/// Stale segments of either the old or the new plan are discarded, so
/// every index up to the larger of the two counts is deleted.
pub fn check_metadata(existing: Option<i32>, requested: i32) -> (r: LedgerOutcome)
    ensures
        r.reset == (match existing {
            Some(stored) => stored != requested,
            None => false,
        }),
        r.delete_upto == (match existing {
            Some(stored) => if stored != requested {
                if stored > requested {
                    stored
                } else {
                    requested
                }
            } else {
                0
            },
            None => 0,
        }),
{
    match existing {
        Some(stored) => {
            if stored != requested {
                let upto = if stored > requested {
                    stored
                } else {
                    requested
                };
                LedgerOutcome { reset: true, delete_upto: upto }
            } else {
                LedgerOutcome { reset: false, delete_upto: 0 }
            }
        },
        None => LedgerOutcome { reset: false, delete_upto: 0 },
    }
}

} // verus!
