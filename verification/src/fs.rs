//! Directory entries and the human-readable size notation.

use vstd::prelude::*;
use chrono::TimeZone;
use vstd::arithmetic::power2::{pow2, lemma_pow2_unfold, lemma_pow2_pos};
use vstd::arithmetic::div_mod::{lemma_div_denominator, lemma_fundamental_div_mod};
use crate::text::{decimal, digit_char, digit_exec, push_char, push_decimal, push_str, chars_of};
use crate::order::{OrdKey, lex_le, lex_le_exec, lemma_lex_total, lemma_lex_trans, is_stable_order, stable_order};

pub mod archive;

verus! {

/// 2^53: below it every integer is exactly a double.
pub open spec fn two_pow_53() -> nat {
    0x20_0000_0000_0000
}

/// How many times a size must be halved before it fits in a double's 53-bit significand.
pub open spec fn f64_exponent(x: nat) -> nat
    decreases x,
{
    if x < two_pow_53() {
        0
    } else {
        1 + f64_exponent(x / 2)
    }
}

/// `n / d` rounded to the nearest integer, ties to the even one.
pub open spec fn round_half_even(n: nat, d: nat) -> nat {
    let q = n / d;
    let r = n % d;
    if 2 * r > d || (2 * r == d && q % 2 == 1) {
        q + 1
    } else {
        q
    }
}

/// The value of `x as f64`: `x` rounded to 53 significant bits, ties to even.
pub open spec fn f64_value(x: nat) -> nat {
    round_half_even(x, pow2(f64_exponent(x))) * pow2(f64_exponent(x))
}

/// The unit index (B, K, M, G, T) that the size notation picks for a value `f`.
pub open spec fn size_unit(f: nat) -> nat {
    if f < 1024 {
        0
    } else if f < 1024 * 1024 {
        1
    } else if f < 1024 * 1024 * 1024 {
        2
    } else if f < 1024 * 1024 * 1024 * 1024 {
        3
    } else {
        4
    }
}

pub open spec fn unit_divisor(u: nat) -> nat {
    if u == 0 {
        1
    } else if u == 1 {
        1024
    } else if u == 2 {
        1024 * 1024
    } else if u == 3 {
        1024 * 1024 * 1024
    } else {
        1024 * 1024 * 1024 * 1024
    }
}

pub open spec fn unit_name(u: nat) -> Seq<char> {
    if u == 1 {
        seq!['K']
    } else if u == 2 {
        seq!['M']
    } else if u == 3 {
        seq!['G']
    } else {
        seq!['T']
    }
}

/// The size notation: "N B" below 1 KiB; otherwise the size in the largest unit up to T
/// with one decimal, rounded half to even ("1.5 K", "3.0 G").
pub open spec fn size_text(size: nat) -> Seq<char> {
    let f = f64_value(size);
    let u = size_unit(f);
    if u == 0 {
        decimal(f) + seq![' ', 'B']
    } else {
        let tenths = round_half_even(10 * f, unit_divisor(u));
        decimal(tenths / 10) + seq!['.', digit_char(tenths % 10), ' '] + unit_name(u)
    }
}

proof fn lemma_halving(x: nat, t: nat, d: nat, e: nat)
    requires
        d == pow2(e),
        t == x / d,
    ensures
        t / 2 == x / pow2(e + 1),
        pow2(e + 1) == 2 * d,
{
    lemma_pow2_unfold(e + 1);
    lemma_pow2_pos(e);
    lemma_div_denominator(x as int, d as int, 2);
}

/// `round_half_even(n, d)`, computed.
fn round_half_even_exec(n: u128, d: u128) -> (r: u128)
    requires
        d > 0,
        n / d + 1 <= u128::MAX,
    ensures
        r == round_half_even(n as nat, d as nat),
{
    let q = n / d;
    let rem = n % d;
    if (rem > d - rem) || (rem == d - rem && q % 2 == 1) {
        q + 1
    } else {
        q
    }
}

/// The value of `x as f64`, as an integer.
fn f64_value_exec(x: u64) -> (f: u128)
    ensures
        f == f64_value(x as nat),
        f <= 0x1_0000_0000_0000_0000,
{
    let mut t: u64 = x;
    let mut d: u128 = 1;
    let ghost mut e: nat = 0;
    proof {
        vstd::arithmetic::power2::lemma2_to64();
    }
    while t >= 0x20_0000_0000_0000
        invariant
            d == pow2(e),
            t == x as nat / d as nat,
            f64_exponent(x as nat) == e + f64_exponent(t as nat),
            e <= 11,
            t * pow2(e) <= x,
            x < 0x1_0000_0000_0000_0000,
            t >= 0x20_0000_0000_0000 ==> e < 11,
        decreases t,
    {
        proof {
            lemma_halving(x as nat, t as nat, d as nat, e);
            assert(f64_exponent(t as nat) == 1 + f64_exponent((t / 2) as nat));
            vstd::arithmetic::power2::lemma2_to64();
            assert(e + 1 <= 11) by {
                if e >= 11 {
                    assert(t * pow2(e) <= x);
                    assert(pow2(e) >= pow2(11)) by {
                        vstd::arithmetic::power2::lemma_pow2_strictly_increases(11, e);
                    }
                    assert(t * pow2(e) >= 0x20_0000_0000_0000 * pow2(11)) by (nonlinear_arith)
                        requires t >= 0x20_0000_0000_0000, pow2(e) >= pow2(11), pow2(11) == 2048;
                }
            }
        }
        t = t / 2;
        d = d * 2;
        proof {
            e = e + 1;
            assert(t * pow2(e) <= x) by (nonlinear_arith)
                requires t == x as nat / pow2(e), pow2(e) > 0;
            if t >= 0x20_0000_0000_0000 {
                assert(e < 11) by {
                    if e >= 11 {
                        if e > 11 {
                            vstd::arithmetic::power2::lemma_pow2_strictly_increases(11, e);
                        }
                        assert(t * pow2(e) >= 0x20_0000_0000_0000 * pow2(11)) by (nonlinear_arith)
                            requires t >= 0x20_0000_0000_0000, pow2(e) >= pow2(11), pow2(11) == 2048;
                    }
                }
            }
        }
    }
    proof {
        assert(f64_exponent(t as nat) == 0);
        lemma_pow2_pos(e);
        assert(pow2(e) <= 2048) by {
            if e < 11 {
                vstd::arithmetic::power2::lemma_pow2_strictly_increases(e, 11);
            }
        }
    }
    let q = round_half_even_exec(x as u128, d);
    proof {
        assert(q <= t + 1);
        assert(q * d <= 0x1_0000_0000_0000_0000) by (nonlinear_arith)
            requires q <= t + 1, t < 0x20_0000_0000_0000, d <= 2048;
    }
    q * d
}

/// `size_text(size)` as a `String`.
pub fn size_string(size: u64) -> (s: String)
    ensures
        s@ == size_text(size as nat),
{
    let f = f64_value_exec(size);
    let mut s = String::new();
    if f < 1024 {
        push_decimal(&mut s, f as u64);
        push_str(&mut s, " B");
        proof {
            reveal_strlit(" B");
            assert(s@ =~= size_text(size as nat));
        }
        return s;
    }
    let (div, name): (u128, &str) = if f < 1024 * 1024 {
        (1024, "K")
    } else if f < 1024 * 1024 * 1024 {
        (1024 * 1024, "M")
    } else if f < 1024 * 1024 * 1024 * 1024 {
        (1024 * 1024 * 1024, "G")
    } else {
        (1024 * 1024 * 1024 * 1024, "T")
    };
    proof {
        reveal_strlit("K");
        reveal_strlit("M");
        reveal_strlit("G");
        reveal_strlit("T");
        assert(div == unit_divisor(size_unit(f as nat)));
        assert(name@ == unit_name(size_unit(f as nat)));
    }
    let tenths = round_half_even_exec(10 * f, div);
    push_decimal(&mut s, (tenths / 10) as u64);
    push_char(&mut s, '.');
    push_char(&mut s, digit_exec((tenths % 10) as u64));
    push_char(&mut s, ' ');
    push_str(&mut s, name);
    proof {
        assert(s@ =~= size_text(size as nat));
    }
    s
}

} // verus!

verus! {

/// One directory entry as the panels show it.
/// `path` is the entry's path as text; `modified` is its modification time in seconds
/// since the Unix epoch.
#[derive(Debug)]
pub struct FileEntry {
    pub name: String,
    pub path: String,
    pub is_dir: bool,
    pub size: u64,
    pub modified: i64,
    pub permissions: u32,
}

impl FileEntry {
    /// A copy equal to `self`.
    pub fn copy(&self) -> (r: FileEntry)
        ensures
            r == *self,
    {
        FileEntry {
            name: self.name.clone(),
            path: self.path.clone(),
            is_dir: self.is_dir,
            size: self.size,
            modified: self.modified,
            permissions: self.permissions,
        }
    }

    /// The size column: `<DIR>` for a directory, else the size notation.
    pub fn display_size(&self) -> (s: String)
        ensures
            s@ == (if self.is_dir { "<DIR>"@ } else { size_text(self.size as nat) }),
    {
        if self.is_dir {
            return String::from_str("<DIR>");
        }
        Self::format_size(self.size)
    }

    /// The size notation of `size` bytes (see `size_text`).
    pub fn format_size(size: u64) -> (s: String)
        ensures
            s@ == size_text(size as nat),
    {
        size_string(size)
    }

    /// The modification time as `YYYY-MM-DD HH:MM` in the local time zone. For a time in the
    /// years from 1970 to 9999 (a day's margin on each side) the text has that shape.
    pub fn display_modified(&self) -> (s: String)
        ensures
            stamp_in_range(self.modified) ==> minute_stamp_shape(s@),
    {
        local_time_text(self.modified)
    }
}

/// An ASCII digit.
pub open spec fn is_ascii_digit(c: char) -> bool {
    '0' <= c && c <= '9'
}

/// `YYYY-MM-DD HH:MM`: four digits, a hyphen, two digits, a hyphen, two digits, a space, two
/// digits, a colon, two digits.
pub open spec fn minute_stamp_shape(s: Seq<char>) -> bool {
    &&& s.len() == 16
    &&& s[4] == '-' && s[7] == '-' && s[10] == ' ' && s[13] == ':'
    &&& forall|i: int| 0 <= i < 16 && i != 4 && i != 7 && i != 10 && i != 13 ==> is_ascii_digit(#[trigger] s[i])
}

/// Seconds since the epoch from 1970-01-02 up to 9999-12-30 (UTC): whatever the local offset
/// (less than a day), the local year has four digits.
pub open spec fn stamp_in_range(secs: i64) -> bool {
    86400 <= secs <= 253402128000
}

/// chrono's `Local.timestamp_opt(secs, 0)` formatted with `"%Y-%m-%d %H:%M"`; empty when the
/// instant does not map to one local time. Which text comes out depends on the machine's time
/// zone, so only its shape is stated: chrono maps an instant in range to a single local time
/// whose offset is under a day, and pads `%Y` to four digits (years 0 to 9999) and `%m`, `%d`,
/// `%H`, `%M` to two. chrono panics where the machine's time zone data cannot be read; that
/// rests on the machine, not on the argument.
#[verifier::external_body]
fn local_time_text(secs: i64) -> (s: String)
    ensures
        stamp_in_range(secs) ==> minute_stamp_shape(s@),
{
    match chrono::Local.timestamp_opt(secs, 0).single() {
        Some(t) => t.format("%Y-%m-%d %H:%M").to_string(),
        None => String::new(),
    }
}


/// An entry ordered as a local directory is listed: folders before files, each group by name.
pub struct ListingKey {
    pub entry: FileEntry,
}

impl OrdKey for ListingKey {
    open spec fn le(self, other: Self) -> bool {
        if self.entry.is_dir != other.entry.is_dir {
            self.entry.is_dir
        } else {
            lex_le(self.entry.name@, other.entry.name@)
        }
    }

    fn le_exec(&self, other: &Self) -> (r: bool) {
        if self.entry.is_dir != other.entry.is_dir {
            self.entry.is_dir
        } else {
            let x = chars_of(self.entry.name.as_str());
            let y = chars_of(other.entry.name.as_str());
            lex_le_exec(&x, &y)
        }
    }

    proof fn lemma_total(a: Self, b: Self) {
        lemma_lex_total(a.entry.name@, b.entry.name@);
    }

    proof fn lemma_trans(a: Self, b: Self, c: Self) {
        if a.entry.is_dir == b.entry.is_dir && b.entry.is_dir == c.entry.is_dir {
            lemma_lex_trans(a.entry.name@, b.entry.name@, c.entry.name@);
        }
    }
}

/// The entries as listing keys.
pub open spec fn listing_keys(es: Seq<FileEntry>) -> Seq<ListingKey> {
    es.map_values(|e: FileEntry| ListingKey { entry: e })
}

/// The local file system. Reading and changing it is the caller's part; the library
/// decides the order in which a directory is listed.
pub struct LocalFs;

impl LocalFs {
    /// A directory's entries in listing order: folders first, then by name; entries with
    /// equal keys keep their order.
    pub fn order_listing(entries: Vec<FileEntry>) -> (r: Vec<FileEntry>)
        ensures
            exists|perm: Seq<usize>|
                is_stable_order(listing_keys(entries@), perm, false) && r@ == perm.map_values(|p: usize| entries@[p as int]),
    {
        let mut keys: Vec<ListingKey> = Vec::new();
        let mut i: usize = 0;
        while i < entries.len()
            invariant
                i <= entries.len(),
                keys@ == listing_keys(entries@.take(i as int)),
            decreases entries.len() - i,
        {
            keys.push(ListingKey { entry: entries[i].copy() });
            i = i + 1;
            assert(keys@ =~= listing_keys(entries@.take(i as int)));
        }
        assert(entries@.take(entries.len() as int) =~= entries@);
        let perm = stable_order(&keys, false);
        let mut sorted: Vec<FileEntry> = Vec::new();
        let mut j: usize = 0;
        while j < perm.len()
            invariant
                j <= perm.len(),
                is_stable_order(keys@, perm@, false),
                keys@ == listing_keys(entries@),
                sorted@ == perm@.take(j as int).map_values(|p: usize| entries@[p as int]),
            decreases perm.len() - j,
        {
            let p = perm[j];
            sorted.push(entries[p].copy());
            j = j + 1;
            assert(sorted@ =~= perm@.take(j as int).map_values(|p: usize| entries@[p as int]));
        }
        assert(perm@.take(perm.len() as int) =~= perm@);
        sorted
    }
}

} // verus!
