//! Rendering numbers as text for messages and displays.
//!
//! Digits are written most significant first, with upper-case letters for
//! the hexadecimal digits ten to fifteen.

use vstd::prelude::*;
use vstd::string::StringExecFns;

verus! {

/// The character for digit value `d` (0 through 15).
pub open spec fn digit_char(d: nat) -> char {
    if d < 10 {
        (48 + d) as char
    } else {
        (55 + d) as char
    }
}

/// The digits of `n` in base `base`, most significant first, without
/// leading zeros (zero is the single digit 0).
pub open spec fn digits(n: nat, base: nat) -> Seq<char>
    recommends
        2 <= base <= 16,
    decreases n,
{
    if base < 2 || n < base {
        seq![digit_char(n % 16)]
    } else {
        proof {
            assert(n / base < n) by (nonlinear_arith)
                requires
                    n >= base,
                    base >= 2,
            ;
        }
        digits(n / base, base).push(digit_char(n % base))
    }
}

/// The digits of `n` in base `base`, padded with leading zeros to at least
/// `width` characters.
pub open spec fn padded_digits(n: nat, base: nat, width: nat) -> Seq<char> {
    let d = digits(n, base);
    if d.len() >= width {
        d
    } else {
        Seq::new((width - d.len()) as nat, |i: int| '0') + d
    }
}

/// The decimal text of `n`.
pub open spec fn decimal(n: nat) -> Seq<char> {
    digits(n, 10)
}

/// The one-character string for digit value `d`.
fn digit_str(d: u64) -> (r: &'static str)
    requires
        d < 16,
    ensures
        r@ == seq![digit_char(d as nat)],
{
    match d {
        0 => {
            proof {
                reveal_strlit("0");
            }
            "0"
        },
        1 => {
            proof {
                reveal_strlit("1");
            }
            "1"
        },
        2 => {
            proof {
                reveal_strlit("2");
            }
            "2"
        },
        3 => {
            proof {
                reveal_strlit("3");
            }
            "3"
        },
        4 => {
            proof {
                reveal_strlit("4");
            }
            "4"
        },
        5 => {
            proof {
                reveal_strlit("5");
            }
            "5"
        },
        6 => {
            proof {
                reveal_strlit("6");
            }
            "6"
        },
        7 => {
            proof {
                reveal_strlit("7");
            }
            "7"
        },
        8 => {
            proof {
                reveal_strlit("8");
            }
            "8"
        },
        9 => {
            proof {
                reveal_strlit("9");
            }
            "9"
        },
        10 => {
            proof {
                reveal_strlit("A");
            }
            "A"
        },
        11 => {
            proof {
                reveal_strlit("B");
            }
            "B"
        },
        12 => {
            proof {
                reveal_strlit("C");
            }
            "C"
        },
        13 => {
            proof {
                reveal_strlit("D");
            }
            "D"
        },
        14 => {
            proof {
                reveal_strlit("E");
            }
            "E"
        },
        _ => {
            proof {
                reveal_strlit("F");
            }
            "F"
        },
    }
}

/// Append the digits of `n` in base `base`.
pub fn push_digits(s: &mut String, n: u64, base: u64)
    requires
        2 <= base <= 16,
    ensures
        final(s)@ == old(s)@ + digits(n as nat, base as nat),
    decreases n,
{
    if n >= base {
        assert(n / base < n) by (nonlinear_arith)
            requires
                n >= base,
                base >= 2,
        ;
        push_digits(s, n / base, base);
    }
    let ghost mid = s@;
    s.append(digit_str(n % base));
    proof {
        if n >= base {
            assert(digits(n as nat, base as nat) == digits((n / base) as nat, base as nat).push(
                digit_char((n % base) as nat),
            ));
        } else {
            vstd::arithmetic::div_mod::lemma_small_mod(n as nat, 16);
            vstd::arithmetic::div_mod::lemma_small_mod(n as nat, base as nat);
        }
        assert(s@ =~= old(s)@ + digits(n as nat, base as nat));
    }
}

/// The number of digits of `n` in base `base`.
pub fn digit_count(n: u64, base: u64) -> (r: usize)
    requires
        2 <= base <= 16,
    ensures
        r == digits(n as nat, base as nat).len(),
        1 <= r <= 64,
    decreases n,
{
    if n >= base {
        assert(n / base < n) by (nonlinear_arith)
            requires
                n >= base,
                base >= 2,
        ;
        proof {
            vstd::arithmetic::power2::lemma2_to64();
            lemma_digits_len((n / base) as nat, base as nat, 64);
        }
        let c = digit_count(n / base, base);
        proof {
            lemma_digits_len(n as nat, base as nat, 64);
        }
        c + 1
    } else {
        1
    }
}

/// A number below 2^k has at most k digits in any base of two or more.
proof fn lemma_digits_len(n: nat, base: nat, k: nat)
    requires
        2 <= base <= 16,
        k >= 1,
        n < vstd::arithmetic::power2::pow2(k),
    ensures
        1 <= digits(n, base).len() <= k,
    decreases n,
{
    if n >= base {
        assert(n / base < n && n / base <= n / 2) by (nonlinear_arith)
            requires
                n >= base,
                base >= 2,
        ;
        vstd::arithmetic::power2::lemma_pow2_unfold(k);
        if k == 1 {
            assert(vstd::arithmetic::power2::pow2(0) == 1) by {
                vstd::arithmetic::power2::lemma2_to64();
            }
        }
        assert(k >= 2);
        lemma_digits_len(n / base, base, (k - 1) as nat);
    }
}

/// Append the digits of `n` in base `base`, padded with leading zeros to
/// at least `width` characters.
pub fn push_padded(s: &mut String, n: u64, base: u64, width: usize)
    requires
        2 <= base <= 16,
    ensures
        final(s)@ == old(s)@ + padded_digits(n as nat, base as nat, width as nat),
{
    let len = digit_count(n, base);
    let mut k = len;
    let ghost start = s@;
    while k < width
        invariant
            2 <= base <= 16,
            len <= k,
            k == len || k <= width,
            len == digits(n as nat, base as nat).len(),
            k < width ==> s@ == start + Seq::new((k - len) as nat, |i: int| '0'),
            k >= width ==> s@ == start + Seq::new((k - len) as nat, |i: int| '0'),
        decreases width - k,
    {
        proof {
            reveal_strlit("0");
        }
        s.append("0");
        k = k + 1;
        assert(s@ =~= start + Seq::new((k - len) as nat, |i: int| '0'));
    }
    let ghost zeros = s@;
    push_digits(s, n, base);
    proof {
        if len >= width {
            assert(zeros =~= start);
        } else {
            assert(k == width);
        }
        assert(s@ =~= start + padded_digits(n as nat, base as nat, width as nat));
    }
}

/// Append the decimal text of `n`.
pub fn push_decimal(s: &mut String, n: u64)
    ensures
        final(s)@ == old(s)@ + decimal(n as nat),
{
    push_digits(s, n, 10);
}

/// The lower-case character for digit value `d` (0 through 15).
pub open spec fn lower_digit_char(d: nat) -> char {
    if d < 10 {
        (48 + d) as char
    } else {
        (87 + d) as char
    }
}

/// The last `count` hexadecimal digits of `n` in lower case, most
/// significant first.
pub open spec fn lower_hex_digits(n: nat, count: nat) -> Seq<char>
    decreases count,
{
    if count == 0 {
        Seq::empty()
    } else {
        lower_hex_digits(n / 16, (count - 1) as nat).push(lower_digit_char(n % 16))
    }
}

/// The one-character string for lower-case digit value `d`.
fn lower_digit_str(d: u64) -> (r: &'static str)
    requires
        d < 16,
    ensures
        r@ == seq![lower_digit_char(d as nat)],
{
    if d < 10 {
        digit_str(d)
    } else {
        match d {
            10 => {
                proof {
                    reveal_strlit("a");
                }
                "a"
            },
            11 => {
                proof {
                    reveal_strlit("b");
                }
                "b"
            },
            12 => {
                proof {
                    reveal_strlit("c");
                }
                "c"
            },
            13 => {
                proof {
                    reveal_strlit("d");
                }
                "d"
            },
            14 => {
                proof {
                    reveal_strlit("e");
                }
                "e"
            },
            _ => {
                proof {
                    reveal_strlit("f");
                }
                "f"
            },
        }
    }
}

/// Append the last `count` hexadecimal digits of `n` in lower case.
pub fn push_lower_hex(s: &mut String, n: u64, count: usize)
    ensures
        final(s)@ == old(s)@ + lower_hex_digits(n as nat, count as nat),
    decreases count,
{
    if count > 0 {
        push_lower_hex(s, n / 16, count - 1);
        let ghost mid = s@;
        s.append(lower_digit_str(n % 16));
        assert(s@ =~= old(s)@ + lower_hex_digits(n as nat, count as nat));
    }
}

} // verus!
