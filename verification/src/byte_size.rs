//! Byte counts with a human-readable rendering, as used for size thresholds.

use vstd::prelude::*;
use vstd::string::StringExecFns;

use crate::RotateError;

verus! {

pub const KIB: usize = 1024;

pub const MIB: usize = 1024 * 1024;

pub const GIB: usize = 1024 * 1024 * 1024;

/// The decimal digit `d` as a character.
pub open spec fn digit_char(d: nat) -> char {
    if d == 0 {
        '0'
    } else if d == 1 {
        '1'
    } else if d == 2 {
        '2'
    } else if d == 3 {
        '3'
    } else if d == 4 {
        '4'
    } else if d == 5 {
        '5'
    } else if d == 6 {
        '6'
    } else if d == 7 {
        '7'
    } else if d == 8 {
        '8'
    } else {
        '9'
    }
}

/// The decimal representation of `n`, most significant digit first,
/// without leading zeroes (except for `n == 0` itself).
pub open spec fn dec_rep(n: nat) -> Seq<char>
    decreases n,
{
    if n < 10 {
        seq![digit_char(n)]
    } else {
        dec_rep(n / 10).push(digit_char(n % 10))
    }
}

fn digit_str(d: usize) -> (r: &'static str)
    requires
        d < 10,
    ensures
        r@ == seq![digit_char(d as nat)],
{
    let r: &'static str = if d == 0 {
        "0"
    } else if d == 1 {
        "1"
    } else if d == 2 {
        "2"
    } else if d == 3 {
        "3"
    } else if d == 4 {
        "4"
    } else if d == 5 {
        "5"
    } else if d == 6 {
        "6"
    } else if d == 7 {
        "7"
    } else if d == 8 {
        "8"
    } else {
        "9"
    };
    proof {
        reveal_strlit("0");
        reveal_strlit("1");
        reveal_strlit("2");
        reveal_strlit("3");
        reveal_strlit("4");
        reveal_strlit("5");
        reveal_strlit("6");
        reveal_strlit("7");
        reveal_strlit("8");
        reveal_strlit("9");
        assert(r@ =~= seq![digit_char(d as nat)]);
    }
    r
}

/// Renders `n` in decimal.
pub fn usize_to_string(n: usize) -> (s: String)
    ensures
        s@ == dec_rep(n as nat),
    decreases n,
{
    if n < 10 {
        String::from_str(digit_str(n))
    } else {
        proof {
            assert(n / 10 < n) by (nonlinear_arith)
                requires
                    n >= 10,
            ;
        }
        let mut s = usize_to_string(n / 10);
        s.append(digit_str(n % 10));
        s
    }
}

/// The rendering that `ByteSize::new` produces: the count scaled to the
/// largest binary unit it reaches, with that unit's suffix.
pub open spec fn spec_size_repr(n: nat) -> Seq<char> {
    if n >= GIB {
        dec_rep(n / (GIB as nat)) + "GiB"@
    } else if n >= MIB {
        dec_rep(n / (MIB as nat)) + "MiB"@
    } else if n >= KIB {
        dec_rep(n / (KIB as nat)) + "KiB"@
    } else {
        dec_rep(n) + "B"@
    }
}

/// Whether `c` is a decimal digit.
pub open spec fn is_digit_char(c: char) -> bool {
    48 <= (c as u32) && (c as u32) <= 57
}

/// The numeric value of the digit `c`.
pub open spec fn digit_val(c: char) -> nat {
    ((c as u32) - 48) as nat
}

/// The numeric value of a digit sequence read left to right.
pub open spec fn digits_val(s: Seq<char>) -> nat
    decreases s.len(),
{
    if s.len() == 0 {
        0
    } else {
        digits_val(s.drop_last()) * 10 + digit_val(s.last())
    }
}

/// The length of the longest all-digit prefix of `s`.
pub open spec fn digit_prefix_len(s: Seq<char>) -> nat
    decreases s.len(),
{
    if s.len() == 0 || !is_digit_char(s[0]) {
        0
    } else {
        1 + digit_prefix_len(s.drop_first())
    }
}

/// ASCII lowercasing of a single character.
pub open spec fn lower_char(c: char) -> char {
    if 65 <= (c as u32) && (c as u32) <= 90 {
        ((c as u32) + 32) as char
    } else {
        c
    }
}

/// ASCII lowercasing, character by character.
pub open spec fn lower_seq(s: Seq<char>) -> Seq<char> {
    s.map_values(|c: char| lower_char(c))
}

/// The multiplier that a (lowercased) unit suffix denotes, or `None` for an
/// unknown unit.  An empty suffix and `b` mean plain bytes; `k`, `kb` and
/// `kib` mean KiB, and likewise for the mebi- and gibi- units.
pub open spec fn unit_mult(u: Seq<char>) -> Option<nat> {
    if u.len() == 0 {
        Some(1)
    } else if u == seq!['b'] {
        Some(1)
    } else if u == seq!['k'] || u == seq!['k', 'b'] || u == seq!['k', 'i', 'b'] {
        Some(KIB as nat)
    } else if u == seq!['m'] || u == seq!['m', 'b'] || u == seq!['m', 'i', 'b'] {
        Some(MIB as nat)
    } else if u == seq!['g'] || u == seq!['g', 'b'] || u == seq!['g', 'i', 'b'] {
        Some(GIB as nat)
    } else {
        None
    }
}

/// What parsing a size string yields: the value of the digit prefix times
/// the unit's multiplier, or `None` when the digit prefix is empty or the
/// unit is unknown.  The result is unbounded; the executable parser also
/// rejects values beyond `usize`.
pub open spec fn spec_parse_size(s: Seq<char>) -> Option<int> {
    let k = digit_prefix_len(s);
    if k == 0 {
        None
    } else {
        match unit_mult(lower_seq(s.skip(k as int))) {
            Some(m) => Some(digits_val(s.take(k as int)) * m as int),
            None => None,
        }
    }
}

proof fn lemma_digit_prefix_len_is(s: Seq<char>, k: nat)
    requires
        k <= s.len(),
        forall|j: int| 0 <= j < k ==> is_digit_char(s[j]),
        k < s.len() ==> !is_digit_char(s[k as int]),
    ensures
        digit_prefix_len(s) == k,
    decreases s.len(),
{
    if k == 0 {
    } else {
        lemma_digit_prefix_len_is(s.drop_first(), (k - 1) as nat);
    }
}

proof fn lemma_digits_val_step(s: Seq<char>, i: int)
    requires
        0 <= i < s.len(),
    ensures
        digits_val(s.take(i + 1)) == digits_val(s.take(i)) * 10 + digit_val(s[i]),
{
    assert(s.take(i + 1).drop_last() =~= s.take(i));
    assert(s.take(i + 1).last() == s[i]);
}

fn to_lower(c: char) -> (r: char)
    ensures
        r == lower_char(c),
{
    let cu = c as u32;
    if 65 <= cu && cu <= 90 {
        ((c as u8) + 32) as char
    } else {
        c
    }
}

/// Decides the unit multiplier of an already-lowercased suffix.
fn unit_multiplier(u: &Vec<char>) -> (r: Option<usize>)
    ensures
        match r {
            Some(m) => unit_mult(u@) == Some(m as nat),
            None => unit_mult(u@) is None,
        },
{
    if u.len() == 0 {
        return Some(1);
    }
    let c0 = u[0];
    if u.len() == 1 {
        proof {
            if c0 == 'b' {
                assert(u@ =~= seq!['b']);
            }
            if c0 == 'k' {
                assert(u@ =~= seq!['k']);
            }
            if c0 == 'm' {
                assert(u@ =~= seq!['m']);
            }
            if c0 == 'g' {
                assert(u@ =~= seq!['g']);
            }
        }
        if c0 == 'b' {
            Some(1)
        } else if c0 == 'k' {
            Some(KIB)
        } else if c0 == 'm' {
            Some(MIB)
        } else if c0 == 'g' {
            Some(GIB)
        } else {
            None
        }
    } else if u.len() == 2 {
        let c1 = u[1];
        proof {
            if c1 == 'b' {
                if c0 == 'k' {
                    assert(u@ =~= seq!['k', 'b']);
                }
                if c0 == 'm' {
                    assert(u@ =~= seq!['m', 'b']);
                }
                if c0 == 'g' {
                    assert(u@ =~= seq!['g', 'b']);
                }
            }
        }
        if c1 != 'b' {
            None
        } else if c0 == 'k' {
            Some(KIB)
        } else if c0 == 'm' {
            Some(MIB)
        } else if c0 == 'g' {
            Some(GIB)
        } else {
            None
        }
    } else if u.len() == 3 {
        let c1 = u[1];
        let c2 = u[2];
        proof {
            if c1 == 'i' && c2 == 'b' {
                if c0 == 'k' {
                    assert(u@ =~= seq!['k', 'i', 'b']);
                }
                if c0 == 'm' {
                    assert(u@ =~= seq!['m', 'i', 'b']);
                }
                if c0 == 'g' {
                    assert(u@ =~= seq!['g', 'i', 'b']);
                }
            }
        }
        if c1 != 'i' || c2 != 'b' {
            None
        } else if c0 == 'k' {
            Some(KIB)
        } else if c0 == 'm' {
            Some(MIB)
        } else if c0 == 'g' {
            Some(GIB)
        } else {
            None
        }
    } else {
        None
    }
}

/// A byte count together with its human-readable rendering.
#[derive(Clone, Debug)]
pub struct ByteSize {
    pub bytes: usize,
    pub raw: String,
}

impl ByteSize {
    pub fn new(bytes: usize) -> (r: ByteSize)
        ensures
            r.bytes == bytes,
            r.raw@ == spec_size_repr(bytes as nat),
    {
        let raw = if bytes >= GIB {
            usize_to_string(bytes / GIB).concat("GiB")
        } else if bytes >= MIB {
            usize_to_string(bytes / MIB).concat("MiB")
        } else if bytes >= KIB {
            usize_to_string(bytes / KIB).concat("KiB")
        } else {
            usize_to_string(bytes).concat("B")
        };
        ByteSize { bytes, raw }
    }

    /// Parses a size string: a decimal digit prefix followed by an optional
    /// unit suffix, matched case-insensitively.  Rejects an empty digit
    /// prefix, an unknown unit, and values beyond `usize`.
    pub fn from_str(s: &str) -> (r: Result<ByteSize, RotateError>)
        ensures
            match r {
                Ok(bs) => spec_parse_size(s@) == Some(bs.bytes as int) && bs.raw@
                    == spec_size_repr(bs.bytes as nat),
                Err(e) => e == RotateError::InvalidConfiguration && (spec_parse_size(s@) is None
                    || spec_parse_size(s@).unwrap() > usize::MAX),
            },
    {
        let n = s.unicode_len();
        let mut i: usize = 0;
        let mut acc: usize = 0;
        let mut overflow = false;
        let mut done = false;
        while !done
            invariant
                i <= n,
                n == s@.len(),
                forall|j: int| 0 <= j < i ==> is_digit_char(s@[j]),
                done ==> (i == n || !is_digit_char(s@[i as int])),
                !overflow ==> acc == digits_val(s@.take(i as int)),
                overflow ==> digits_val(s@.take(i as int)) > usize::MAX,
            decreases n - i + (if done { 0int } else { 1int }),
        {
            if i >= n {
                done = true;
            } else {
                let c = s.get_char(i);
                match digit_of(c) {
                    None => {
                        done = true;
                    },
                    Some(d) => {
                        proof {
                            lemma_digits_val_step(s@, i as int);
                        }
                        if !overflow {
                            match acc.checked_mul(10) {
                                Some(t) => {
                                    match t.checked_add(d) {
                                        Some(v) => {
                                            acc = v;
                                        },
                                        None => {
                                            overflow = true;
                                        },
                                    }
                                },
                                None => {
                                    overflow = true;
                                },
                            }
                        }
                        i += 1;
                    },
                }
            }
        }
        proof {
            lemma_digit_prefix_len_is(s@, i as nat);
        }
        if i == 0 {
            return Err(RotateError::InvalidConfiguration);
        }
        let mut unit: Vec<char> = Vec::new();
        let mut j = i;
        while j < n
            invariant
                i <= j <= n,
                n == s@.len(),
                unit@ == lower_seq(s@.subrange(i as int, j as int)),
            decreases n - j,
        {
            let c = s.get_char(j);
            unit.push(to_lower(c));
            proof {
                assert(s@.subrange(i as int, j + 1 as int).drop_last() =~= s@.subrange(
                    i as int,
                    j as int,
                ));
                assert(unit@ =~= lower_seq(s@.subrange(i as int, j + 1 as int)));
            }
            j += 1;
        }
        proof {
            assert(s@.subrange(i as int, n as int) =~= s@.skip(i as int));
        }
        match unit_multiplier(&unit) {
            None => Err(RotateError::InvalidConfiguration),
            Some(m) => {
                if overflow {
                    proof {
                        let val = digits_val(s@.take(i as int));
                        assert(val * m > usize::MAX) by (nonlinear_arith)
                            requires
                                val > usize::MAX,
                                m >= 1,
                        ;
                    }
                    Err(RotateError::InvalidConfiguration)
                } else {
                    match acc.checked_mul(m) {
                        Some(v) => Ok(ByteSize::new(v)),
                        None => Err(RotateError::InvalidConfiguration),
                    }
                }
            },
        }
    }
}

fn digit_of(c: char) -> (r: Option<usize>)
    ensures
        match r {
            Some(d) => is_digit_char(c) && d == digit_val(c) && d < 10,
            None => !is_digit_char(c),
        },
{
    let cu = c as u32;
    if 48 <= cu && cu <= 57 {
        Some((cu - 48) as usize)
    } else {
        None
    }
}

} // verus!
