//! Decimal rendering and parsing, and the naming scheme for output,
//! segment and ledger files.

use vstd::prelude::*;
use vstd::string::*;
use vstd::arithmetic::div_mod::lemma_fundamental_div_mod;
use vstd::arithmetic::mul::lemma_mul_inequality;

verus! {

/// The character for one decimal digit.
pub open spec fn dec_digit(d: int) -> char {
    if d == 0 {
        '0'
    } else if d == 1 {
        '1'
    } else if d == 2 {
        '2'
    } else if d == 3 {
        '3'
    } else if d == 4 {
        '4'
    } else if d == 5 {
        '5'
    } else if d == 6 {
        '6'
    } else if d == 7 {
        '7'
    } else if d == 8 {
        '8'
    } else {
        '9'
    }
}

/// The decimal rendering of `n`, most significant digit first, with no
/// leading zeros (except for `n == 0` itself).
pub open spec fn dec_seq(n: nat) -> Seq<char>
    decreases n,
{
    if n < 10 {
        seq![dec_digit(n as int)]
    } else {
        dec_seq(n / 10) + seq![dec_digit((n % 10) as int)]
    }
}

fn digit_str(d: usize) -> (r: &'static str)
    requires
        d < 10,
    ensures
        r@ == seq![dec_digit(d as int)],
{
    let r: &'static str = if d == 0 {
        "0"
    } else if d == 1 {
        "1"
    } else if d == 2 {
        "2"
    } else if d == 3 {
        "3"
    } else if d == 4 {
        "4"
    } else if d == 5 {
        "5"
    } else if d == 6 {
        "6"
    } else if d == 7 {
        "7"
    } else if d == 8 {
        "8"
    } else {
        "9"
    };
    proof {
        reveal_strlit("0");
        reveal_strlit("1");
        reveal_strlit("2");
        reveal_strlit("3");
        reveal_strlit("4");
        reveal_strlit("5");
        reveal_strlit("6");
        reveal_strlit("7");
        reveal_strlit("8");
        reveal_strlit("9");
        assert(r@ =~= seq![dec_digit(d as int)]);
    }
    r
}

/// Render `n` in decimal.
pub fn usize_to_string(n: usize) -> (r: String)
    ensures
        r@ == dec_seq(n as nat),
    decreases n,
{
    if n < 10 {
        String::from_str(digit_str(n))
    } else {
        let prefix = usize_to_string(n / 10);
        prefix.concat(digit_str(n % 10))
    }
}

/// Whether `c` is an ASCII decimal digit.
pub open spec fn is_dec_digit(c: char) -> bool {
    48 <= c as u32 <= 57
}

/// The numeric value of a digit character.
pub open spec fn digit_val(c: char) -> int {
    c as u32 - 48
}

/// Whether every character of `s` is a decimal digit.
pub open spec fn all_digits(s: Seq<char>) -> bool {
    forall|i: int| 0 <= i < s.len() ==> is_dec_digit(#[trigger] s[i])
}

/// The value of `s` read as a decimal numeral.
pub open spec fn dec_val(s: Seq<char>) -> int
    decreases s.len(),
{
    if s.len() == 0 {
        0
    } else {
        dec_val(s.drop_last()) * 10 + digit_val(s.last())
    }
}

proof fn lemma_dec_val_nonneg(s: Seq<char>)
    requires
        all_digits(s),
    ensures
        dec_val(s) >= 0,
    decreases s.len(),
{
    if s.len() > 0 {
        assert(all_digits(s.drop_last()));
        lemma_dec_val_nonneg(s.drop_last());
        assert(is_dec_digit(s[s.len() - 1]));
    }
}

/// A decimal numeral is at least as large as any of its prefixes.
proof fn lemma_dec_val_prefix(s: Seq<char>, j: int)
    requires
        0 <= j <= s.len(),
        all_digits(s),
    ensures
        dec_val(s.take(j)) <= dec_val(s),
    decreases s.len() - j,
{
    if j == s.len() {
        assert(s.take(j) =~= s);
    } else {
        assert(s.take(j + 1).drop_last() =~= s.take(j));
        assert(s.take(j + 1).last() == s[j]);
        assert(all_digits(s.take(j))) by {
            assert(forall|i: int| 0 <= i < j ==> s.take(j)[i] == #[trigger] s[i]);
        }
        lemma_dec_val_nonneg(s.take(j));
        assert(is_dec_digit(s[j]));
        assert(dec_val(s.take(j + 1)) == dec_val(s.take(j)) * 10 + digit_val(s[j]));
        lemma_dec_val_prefix(s, j + 1);
    }
}

/// Read `s` as a decimal numeral. Returns the value exactly when `s` is a
/// nonempty string of digits whose value fits in a `u64`.
pub fn parse_decimal(s: &str) -> (r: Option<u64>)
    ensures
        match r {
            Some(v) => s@.len() > 0 && all_digits(s@) && v == dec_val(s@),
            None => s@.len() == 0 || !all_digits(s@) || dec_val(s@) > u64::MAX,
        },
{
    let len = s.unicode_len();
    if len == 0 {
        return None;
    }
    let mut val: u64 = 0;
    let mut i: usize = 0;
    while i < len
        invariant
            0 <= i <= len,
            len == s@.len(),
            all_digits(s@.take(i as int)),
            val == dec_val(s@.take(i as int)),
        decreases len - i,
    {
        let c = s.get_char(i);
        let cv: u32 = c as u32;
        if cv < 48 || cv > 57 {
            proof {
                assert(!is_dec_digit(s@[i as int]));
            }
            return None;
        }
        let d: u64 = (cv - 48) as u64;
        proof {
            assert(s@.take(i as int + 1).drop_last() =~= s@.take(i as int));
            assert(s@.take(i as int + 1).last() == s@[i as int]);
            assert(all_digits(s@.take(i as int + 1)));
            lemma_fundamental_div_mod(u64::MAX - d, 10);
        }
        let limit: u64 = (u64::MAX - d) / 10;
        if val > limit {
            proof {
                lemma_mul_inequality(limit as int + 1, val as int, 10);
                assert(dec_val(s@.take(i as int + 1)) > u64::MAX);
                if all_digits(s@) {
                    lemma_dec_val_prefix(s@, i as int + 1);
                }
            }
            return None;
        }
        proof {
            lemma_mul_inequality(val as int, limit as int, 10);
        }
        val = val * 10 + d;
        i = i + 1;
    }
    proof {
        assert(s@.take(len as int) =~= s@);
    }
    Some(val)
}

/// Clamp a requested connection count into the supported range `1..=8`.
pub open spec fn clamped(v: int) -> int {
    if v > 8 {
        8
    } else if v < 1 {
        1
    } else {
        v
    }
}

pub fn clamp_connections(n: i32) -> (r: i32)
    ensures
        r == clamped(n as int),
        1 <= r <= 8,
{
    if n > 8 {
        8
    } else if n < 1 {
        1
    } else {
        n
    }
}

/// Parse the interactive connection-count input: a nonempty digit string
/// whose value fits an `i32`, clamped into `1..=8`. Anything else is
/// rejected and the run must abort with no side effects.
pub fn parse_connections(s: &str) -> (r: Option<i32>)
    ensures
        match r {
            Some(c) => s@.len() > 0 && all_digits(s@) && dec_val(s@) <= i32::MAX && c == clamped(
                dec_val(s@),
            ),
            None => s@.len() == 0 || !all_digits(s@) || dec_val(s@) > i32::MAX,
        },
{
    match parse_decimal(s) {
        Some(v) => {
            if v > i32::MAX as u64 {
                None
            } else {
                Some(clamp_connections(v as i32))
            }
        },
        None => None,
    }
}

/// Index of the last '/' in `s`, or -1 when there is none.
pub open spec fn last_slash(s: Seq<char>) -> int
    decreases s.len(),
{
    if s.len() == 0 {
        -1
    } else if s.last() == '/' {
        s.len() - 1
    } else {
        last_slash(s.drop_last())
    }
}

/// The final path segment of `s`: everything after the last '/'.
pub open spec fn file_name_seq(s: Seq<char>) -> Seq<char> {
    s.subrange(last_slash(s) + 1, s.len() as int)
}

proof fn lemma_last_slash_at(s: Seq<char>, k: int)
    requires
        0 <= k < s.len(),
        s[k] == '/',
        forall|j: int| k < j < s.len() ==> s[j] != '/',
    ensures
        last_slash(s) == k,
    decreases s.len(),
{
    if k == s.len() - 1 {
    } else {
        assert(s.last() != '/');
        assert(s.drop_last()[k] == '/');
        lemma_last_slash_at(s.drop_last(), k);
    }
}

proof fn lemma_last_slash_none(s: Seq<char>)
    requires
        forall|j: int| 0 <= j < s.len() ==> s[j] != '/',
    ensures
        last_slash(s) == -1,
    decreases s.len(),
{
    if s.len() > 0 {
        lemma_last_slash_none(s.drop_last());
    }
}

/// The final path segment of `path`, or `None` when it is empty (a path
/// that is empty or ends in '/').
pub fn path_file_name(path: &str) -> (r: Option<String>)
    ensures
        match r {
            Some(f) => f@ == file_name_seq(path@) && file_name_seq(path@).len() > 0,
            None => file_name_seq(path@).len() == 0,
        },
{
    let len = path.unicode_len();
    let mut i: usize = len;
    while i > 0
        invariant
            0 <= i <= len,
            len == path@.len(),
            forall|j: int| i <= j < len ==> path@[j] != '/',
        decreases i,
    {
        let c = path.get_char(i - 1);
        if c == '/' {
            proof {
                lemma_last_slash_at(path@, i as int - 1);
            }
            if i == len {
                return None;
            }
            let sub = path.substring_char(i, len);
            return Some(String::from_str(sub));
        }
        i = i - 1;
    }
    proof {
        lemma_last_slash_none(path@);
    }
    if len == 0 {
        return None;
    }
    let sub = path.substring_char(0, len);
    Some(String::from_str(sub))
}

/// The resolved output name: the final segment of the response path, or,
/// when that is empty, of the request URL; `None` when both are empty.
pub open spec fn resolved_name(resp: Seq<char>, url: Seq<char>) -> Option<Seq<char>> {
    if file_name_seq(resp).len() > 0 {
        Option::Some(file_name_seq(resp))
    } else if file_name_seq(url).len() > 0 {
        Option::Some(file_name_seq(url))
    } else {
        Option::None
    }
}

pub fn resolve_filename(resp_path: &str, url: &str) -> (r: Option<String>)
    ensures
        match r {
            Some(f) => resolved_name(resp_path@, url@) == Option::Some(f@),
            None => resolved_name(resp_path@, url@) is None,
        },
{
    match path_file_name(resp_path) {
        Some(f) => Some(f),
        None => path_file_name(url),
    }
}

/// Name of the on-disk segment file for part `index` of `name`.
pub open spec fn part_file_seq(name: Seq<char>, index: nat) -> Seq<char> {
    seq!['p', 'a', 'r', 't', 's', '/'] + name + seq!['.', 'p', 'a', 'r', 't', '-'] + dec_seq(index)
}

pub fn part_file_name(filename: &str, index: i32) -> (r: String)
    requires
        0 <= index,
    ensures
        r@ == part_file_seq(filename@, index as nat),
{
    let mut r = String::from_str("parts/");
    r.append(filename);
    r.append(".part-");
    let idx = usize_to_string(index as usize);
    r.append(idx.as_str());
    proof {
        reveal_strlit("parts/");
        reveal_strlit(".part-");
        assert(r@ =~= part_file_seq(filename@, index as nat));
    }
    r
}

/// Name of the on-disk ledger file for `name`.
pub open spec fn metadata_file_seq(name: Seq<char>) -> Seq<char> {
    seq!['p', 'a', 'r', 't', 's', '/'] + name + seq!['.', 'm', 'e', 't', 'a', 'd', 'a', 't', 'a']
}

pub fn metadata_file_name(filename: &str) -> (r: String)
    ensures
        r@ == metadata_file_seq(filename@),
{
    let mut r = String::from_str("parts/");
    r.append(filename);
    r.append(".metadata");
    proof {
        reveal_strlit("parts/");
        reveal_strlit(".metadata");
        assert(r@ =~= metadata_file_seq(filename@));
    }
    r
}

/// The value of a Range request header naming the inclusive byte interval
/// `first ..= last`.
pub open spec fn range_header_seq(first: nat, last: nat) -> Seq<char> {
    seq!['b', 'y', 't', 'e', 's', '='] + dec_seq(first) + seq!['-'] + dec_seq(last)
}

} // verus!
