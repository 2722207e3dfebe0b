//! Text helpers shared by the circuit generators: decimal rendering of
//! numbers and joining of name lists.

use vstd::prelude::*;

verus! {

/// The decimal digit character for `d`.
pub open spec fn spec_digit(d: int) -> char {
    if d == 0 {
        '0'
    } else if d == 1 {
        '1'
    } else if d == 2 {
        '2'
    } else if d == 3 {
        '3'
    } else if d == 4 {
        '4'
    } else if d == 5 {
        '5'
    } else if d == 6 {
        '6'
    } else if d == 7 {
        '7'
    } else if d == 8 {
        '8'
    } else {
        '9'
    }
}

/// The decimal rendering of `n`, without leading zeros (`0` for zero).
pub open spec fn spec_dec(n: int) -> Seq<char>
    decreases n,
{
    if n < 10 {
        seq![spec_digit(n)]
    } else {
        spec_dec(n / 10) + seq![spec_digit(n % 10)]
    }
}

/// Appends the decimal digit character for `d` to `s`.
fn append_digit(s: &mut String, d: usize)
    requires
        d < 10,
    ensures
        final(s)@ == old(s)@ + seq![spec_digit(d as int)],
{
    match d {
        0 => {
            proof {
                reveal_strlit("0");
            }
            s.append("0");
            assert(old(s)@ + "0"@ =~= old(s)@ + seq![spec_digit(0)]);
        },
        1 => {
            proof {
                reveal_strlit("1");
            }
            s.append("1");
            assert(old(s)@ + "1"@ =~= old(s)@ + seq![spec_digit(1)]);
        },
        2 => {
            proof {
                reveal_strlit("2");
            }
            s.append("2");
            assert(old(s)@ + "2"@ =~= old(s)@ + seq![spec_digit(2)]);
        },
        3 => {
            proof {
                reveal_strlit("3");
            }
            s.append("3");
            assert(old(s)@ + "3"@ =~= old(s)@ + seq![spec_digit(3)]);
        },
        4 => {
            proof {
                reveal_strlit("4");
            }
            s.append("4");
            assert(old(s)@ + "4"@ =~= old(s)@ + seq![spec_digit(4)]);
        },
        5 => {
            proof {
                reveal_strlit("5");
            }
            s.append("5");
            assert(old(s)@ + "5"@ =~= old(s)@ + seq![spec_digit(5)]);
        },
        6 => {
            proof {
                reveal_strlit("6");
            }
            s.append("6");
            assert(old(s)@ + "6"@ =~= old(s)@ + seq![spec_digit(6)]);
        },
        7 => {
            proof {
                reveal_strlit("7");
            }
            s.append("7");
            assert(old(s)@ + "7"@ =~= old(s)@ + seq![spec_digit(7)]);
        },
        8 => {
            proof {
                reveal_strlit("8");
            }
            s.append("8");
            assert(old(s)@ + "8"@ =~= old(s)@ + seq![spec_digit(8)]);
        },
        _ => {
            proof {
                reveal_strlit("9");
            }
            s.append("9");
            assert(old(s)@ + "9"@ =~= old(s)@ + seq![spec_digit(9)]);
        },
    }
}

/// Appends the decimal rendering of `n` to `s`.
pub fn append_dec(s: &mut String, n: usize)
    ensures
        final(s)@ == old(s)@ + spec_dec(n as int),
    decreases n,
{
    if n >= 10 {
        append_dec(s, n / 10);
        append_digit(s, n % 10);
        assert((old(s)@ + spec_dec(n as int / 10)) + seq![spec_digit(n as int % 10)] =~= old(s)@
            + spec_dec(n as int));
    } else {
        append_digit(s, n);
    }
}

/// The decimal rendering of `n` as a fresh string.
pub fn dec_string(n: usize) -> (r: String)
    ensures
        r@ == spec_dec(n as int),
{
    let mut s = String::new();
    append_dec(&mut s, n);
    assert(Seq::<char>::empty() + spec_dec(n as int) =~= spec_dec(n as int));
    s
}

/// `items` joined with the separator `sep` between consecutive entries.
pub open spec fn spec_join(items: Seq<Seq<char>>, sep: Seq<char>) -> Seq<char>
    decreases items.len(),
{
    if items.len() == 0 {
        Seq::empty()
    } else if items.len() == 1 {
        items[0]
    } else {
        spec_join(items.drop_last(), sep) + sep + items.last()
    }
}

/// Appends `items` joined with `sep` to `s`.
#[verifier::loop_isolation(false)]
pub fn append_joined(s: &mut String, items: &Vec<String>, sep: &str)
    ensures
        final(s)@ == old(s)@ + spec_join(items@.map_values(|t: String| t@), sep@),
{
    let ghost views = items@.map_values(|t: String| t@);
    let n = items.len();
    let mut i: usize = 0;
    while i < n
        invariant
            i <= n,
            s@ == old(s)@ + spec_join(views.subrange(0, i as int), sep@),
        decreases n - i,
    {
        if i > 0 {
            s.append(sep);
        }
        s.append(items[i].as_str());
        proof {
            let pre = views.subrange(0, i as int);
            let post = views.subrange(0, i as int + 1);
            assert(post.drop_last() =~= pre);
            assert(post.last() == views[i as int]);
            if i == 0 {
                assert(spec_join(post, sep@) == views[0]);
                assert(old(s)@ + Seq::<char>::empty() + views[0] =~= old(s)@ + spec_join(
                    post,
                    sep@,
                ));
            } else {
                assert(spec_join(post, sep@) == spec_join(pre, sep@) + sep@ + views[i as int]);
            }
        }
        i += 1;
    }
    proof {
        assert(views.subrange(0, n as int) =~= views);
    }
}

} // verus!
