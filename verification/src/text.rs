//! The placeholder generator for the numbered-parameter dialect.
//!
//! `make_placeholders` builds `groups` tuples of `group_size` positional
//! parameters each, numbered `$1, $2, ...` sequentially across the whole
//! call, tuples separated by `", "`, parenthesized only when a tuple holds
//! more than one parameter.

use vstd::prelude::*;

verus! {

/// The decimal digit character for `d < 10`.
pub open spec fn digit_char(d: nat) -> char {
    if d == 0 {
        '0'
    } else if d == 1 {
        '1'
    } else if d == 2 {
        '2'
    } else if d == 3 {
        '3'
    } else if d == 4 {
        '4'
    } else if d == 5 {
        '5'
    } else if d == 6 {
        '6'
    } else if d == 7 {
        '7'
    } else if d == 8 {
        '8'
    } else {
        '9'
    }
}

/// The decimal digits of `n`, most significant first, no leading zeros.
pub open spec fn dec_rep(n: nat) -> Seq<char>
    decreases n,
{
    if n < 10 {
        seq![digit_char(n)]
    } else {
        dec_rep(n / 10).push(digit_char(n % 10))
    }
}

/// One numbered placeholder: `$` followed by the decimal index.
pub open spec fn ph_text(i: nat) -> Seq<char> {
    seq!['$'] + dec_rep(i)
}

/// `size` numbered placeholders starting at `start`, separated by `", "`.
pub open spec fn group_inner(start: nat, size: nat) -> Seq<char>
    decreases size,
{
    if size <= 1 {
        ph_text(start)
    } else {
        group_inner(start, (size - 1) as nat) + ", "@ + ph_text((start + size - 1) as nat)
    }
}

/// One parameter tuple in the generated text: bare for a single parameter,
/// parenthesized for more. `start` is its first parameter index.
pub open spec fn group_text(start: nat, size: nat) -> Seq<char> {
    if size == 1 {
        ph_text(start)
    } else {
        seq!['('] + group_inner(start, size) + seq![')']
    }
}

/// The whole placeholder text for `groups` tuples of `group_size`
/// parameters: tuples separated by `", "`, numbering sequential across the
/// call starting at 1, empty text for zero tuples.
pub open spec fn placeholders_text(groups: nat, group_size: nat) -> Seq<char>
    decreases groups,
{
    if groups == 0 {
        Seq::empty()
    } else if groups == 1 {
        group_text(1, group_size)
    } else {
        placeholders_text((groups - 1) as nat, group_size) + ", "@ + group_text(
            ((groups - 1) * group_size + 1) as nat,
            group_size,
        )
    }
}

/// The decimal digit text of `d < 10`.
fn digit_str(d: usize) -> (s: &'static str)
    requires
        d < 10,
    ensures
        s@ == seq![digit_char(d as nat)],
{
    proof {
        reveal_strlit("0");
        reveal_strlit("1");
        reveal_strlit("2");
        reveal_strlit("3");
        reveal_strlit("4");
        reveal_strlit("5");
        reveal_strlit("6");
        reveal_strlit("7");
        reveal_strlit("8");
        reveal_strlit("9");
    }
    let s = match d {
        0 => "0",
        1 => "1",
        2 => "2",
        3 => "3",
        4 => "4",
        5 => "5",
        6 => "6",
        7 => "7",
        8 => "8",
        _ => "9",
    };
    proof {
        assert(s@ =~= seq![digit_char(d as nat)]);
    }
    s
}

/// Renders `n` in decimal.
fn usize_to_string(n: usize) -> (s: String)
    ensures
        s@ == dec_rep(n as nat),
    decreases n,
{
    if n < 10 {
        let mut s = String::new();
        s.append(digit_str(n));
        proof {
            assert(Seq::<char>::empty() + seq![digit_char(n as nat)] =~= dec_rep(n as nat));
        }
        s
    } else {
        let mut s = usize_to_string(n / 10);
        s.append(digit_str(n % 10));
        proof {
            assert(dec_rep((n / 10) as nat) + seq![digit_char((n % 10) as nat)] =~= dec_rep(
                n as nat,
            ));
        }
        s
    }
}

/// Appends the numbered placeholder `$i` to `s`.
fn push_placeholder(s: &mut String, i: usize)
    ensures
        final(s)@ == old(s)@ + ph_text(i as nat),
{
    proof {
        reveal_strlit("$");
    }
    s.append("$");
    let num = usize_to_string(i);
    s.append(num.as_str());
    proof {
        assert("$"@ =~= seq!['$']);
        assert(old(s)@ + "$"@ + dec_rep(i as nat) =~= old(s)@ + ph_text(i as nat));
    }
}

/// Builds the placeholder text for `groups` tuples of `group_size` numbered
/// parameters: sequential 1-based numbering across the whole call, tuples
/// separated by `", "`, parenthesized only for tuples of more than one
/// parameter, and empty text when `groups` is zero.
#[verifier::loop_isolation(false)]
pub fn make_placeholders(groups: usize, group_size: usize) -> (s: String)
    requires
        group_size >= 1,
        groups * group_size + 1 <= usize::MAX,
    ensures
        s@ == placeholders_text(groups as nat, group_size as nat),
        groups == 0 ==> s@ == Seq::<char>::empty(),
{
    let mut s = String::new();
    let mut counter: usize = 1;
    let mut i: usize = 0;
    while i < groups
        invariant
            i <= groups,
            group_size >= 1,
            groups * group_size + 1 <= usize::MAX,
            counter as int == i as int * group_size as int + 1,
            s@ == placeholders_text(i as nat, group_size as nat),
        decreases groups - i,
    {
        proof {
            vstd::arithmetic::mul::lemma_mul_inequality(
                i as int + 1,
                groups as int,
                group_size as int,
            );
            assert((i as int + 1) * group_size as int == i as int * group_size as int
                + group_size as int) by (nonlinear_arith);
        }
        if i > 0 {
            s.append(", ");
        }
        if group_size == 1 {
            push_placeholder(&mut s, counter);
            counter = counter + 1;
        } else {
            proof {
                reveal_strlit("(");
                reveal_strlit(")");
            }
            s.append("(");
            let ghost base = s@;
            let ghost start = counter as nat;
            let mut j: usize = 0;
            while j < group_size
                invariant
                    j <= group_size,
                    counter as int == start + j,
                    counter as int + (group_size as int - j as int) <= usize::MAX,
                    j == 0 ==> s@ == base,
                    j > 0 ==> s@ == base + group_inner(start, j as nat),
                decreases group_size - j,
            {
                if j > 0 {
                    s.append(", ");
                }
                push_placeholder(&mut s, counter);
                counter = counter + 1;
                proof {
                    if j > 0 {
                        assert(base + group_inner(start, j as nat) + ", "@ + ph_text(start + j
                            as nat) =~= base + group_inner(start, (j + 1) as nat));
                    } else {
                        assert(group_inner(start, 1) == ph_text(start));
                    }
                }
                j = j + 1;
            }
            s.append(")");
            proof {
                assert(base + group_inner(start, group_size as nat) + ")"@ =~= base + (
                group_inner(start, group_size as nat) + seq![')']));
            }
        }
        proof {
            let g = group_size as nat;
            if i == 0 {
                if group_size == 1 {
                    assert(Seq::<char>::empty() + ph_text(1) =~= placeholders_text(1, g));
                } else {
                    assert("("@ =~= seq!['(']);
                    assert(")"@ =~= seq![')']);
                    assert(Seq::<char>::empty() + "("@ + (group_inner(1, g) + seq![')'])
                        =~= placeholders_text(1, g));
                }
            } else {
                let prev = placeholders_text(i as nat, g);
                let st = (i as nat * g + 1) as nat;
                if group_size == 1 {
                    assert(prev + ", "@ + ph_text(st) =~= placeholders_text((i + 1) as nat, g));
                } else {
                    assert("("@ =~= seq!['(']);
                    assert(")"@ =~= seq![')']);
                    assert(prev + ", "@ + "("@ + (group_inner(st, g) + seq![')'])
                        =~= placeholders_text((i + 1) as nat, g));
                }
            }
        }
        i = i + 1;
    }
    s
}

} // verus!
