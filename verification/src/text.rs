//! Decimal spellings of integers and `Debug`-style spellings of integer
//! lists, for the messages the library reports.
use vstd::prelude::*;

verus! {

/// The decimal spelling of `n`, without leading zeros.
pub open spec fn decimal(n: nat) -> Seq<char>
    decreases n,
{
    if n < 10 {
        seq![(48 + n) as char]
    } else {
        decimal(n / 10).push((48 + n % 10) as char)
    }
}

/// The one-character spelling of the digit `d`.
fn digit_text(d: u64) -> (r: &'static str)
    requires
        d < 10,
    ensures
        r@ == seq![(48 + d) as char],
{
    match d {
        0 => {
            proof {
                reveal_strlit("0");
            }
            "0"
        },
        1 => {
            proof {
                reveal_strlit("1");
            }
            "1"
        },
        2 => {
            proof {
                reveal_strlit("2");
            }
            "2"
        },
        3 => {
            proof {
                reveal_strlit("3");
            }
            "3"
        },
        4 => {
            proof {
                reveal_strlit("4");
            }
            "4"
        },
        5 => {
            proof {
                reveal_strlit("5");
            }
            "5"
        },
        6 => {
            proof {
                reveal_strlit("6");
            }
            "6"
        },
        7 => {
            proof {
                reveal_strlit("7");
            }
            "7"
        },
        8 => {
            proof {
                reveal_strlit("8");
            }
            "8"
        },
        _ => {
            proof {
                reveal_strlit("9");
            }
            "9"
        },
    }
}

/// The decimal spelling of `n`.
pub(crate) fn decimal_string(n: u64) -> (r: String)
    ensures
        r@ == decimal(n as nat),
    decreases n,
{
    if n < 10 {
        String::from_str(digit_text(n))
    } else {
        let mut s = decimal_string(n / 10);
        s.append(digit_text(n % 10));
        s
    }
}

/// The items of a list of `usize` as `Debug` separates them: decimals joined
/// by `", "`.
pub open spec fn list_items(s: Seq<usize>) -> Seq<char>
    decreases s.len(),
{
    if s.len() == 0 {
        Seq::empty()
    } else if s.len() == 1 {
        decimal(s[0] as nat)
    } else {
        list_items(s.drop_last()) + ", "@ + decimal(s.last() as nat)
    }
}

/// `dims` spelled as `Debug` spells a list of `usize`, such as `[2, 16, 64]`.
pub open spec fn dims_text(dims: Seq<usize>) -> Seq<char> {
    "["@ + list_items(dims) + "]"@
}

/// The decimal spelling of `n`.
pub(crate) fn usize_text(n: usize) -> (r: String)
    ensures
        r@ == decimal(n as nat),
{
    decimal_string(n as u64)
}

/// `dims` spelled as `Debug` spells it.
pub(crate) fn dims_string(dims: &[usize]) -> (r: String)
    ensures
        r@ == dims_text(dims@),
{
    let mut out = String::from_str("[");
    if dims.len() > 0 {
        let mut items = usize_text(dims[0]);
        proof {
            assert(dims@.subrange(0, 1).len() == 1);
        }
        let mut i: usize = 1;
        while i < dims.len()
            invariant
                1 <= i <= dims@.len(),
                items@ == list_items(dims@.subrange(0, i as int)),
            decreases dims.len() - i,
        {
            items.append(", ");
            items.append(usize_text(dims[i]).as_str());
            proof {
                assert(dims@.subrange(0, i + 1).drop_last() =~= dims@.subrange(0, i as int));
            }
            i = i + 1;
        }
        proof {
            assert(dims@.subrange(0, dims@.len() as int) =~= dims@);
        }
        out.append(items.as_str());
    } else {
        proof {
            assert("["@ + list_items(dims@) =~= "["@);
        }
    }
    out.append("]");
    out
}

} // verus!
