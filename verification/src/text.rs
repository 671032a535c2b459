//! Pure text utilities: whitespace tokenization of a command line and decimal
//! rendering of unsigned integers, both with exact specifications.

use vstd::prelude::*;
use vstd::string::StringExecFns;
use vstd::string::StrSliceExecFns;

verus! {

/// Whitespace as understood by the command-line splitter.
pub open spec fn is_space_char(c: char) -> bool {
    c == ' ' || c == '\t' || c == '\n' || c == '\r'
}

/// The whitespace-delimited tokens of `s`, in order, with `cur` the token
/// accumulated so far (helper for `tokens_of`).
pub open spec fn tokens_from(s: Seq<char>, cur: Seq<char>) -> Seq<Seq<char>>
    decreases s.len(),
{
    if s.len() == 0 {
        if cur.len() == 0 {
            Seq::empty()
        } else {
            seq![cur]
        }
    } else if is_space_char(s[0]) {
        if cur.len() == 0 {
            tokens_from(s.drop_first(), Seq::empty())
        } else {
            seq![cur] + tokens_from(s.drop_first(), Seq::empty())
        }
    } else {
        tokens_from(s.drop_first(), cur.push(s[0]))
    }
}

/// The whitespace-delimited tokens of `s`, in order; delimiters are dropped
/// and no token is empty.
pub open spec fn tokens_of(s: Seq<char>) -> Seq<Seq<char>> {
    tokens_from(s, Seq::empty())
}

/// Splits `s` on whitespace into its tokens.
pub fn split_tokens(s: &String) -> (r: Vec<String>)
    ensures
        r.deep_view() == tokens_of(s@),
{
    let n = s.as_str().unicode_len();
    let mut r: Vec<String> = Vec::new();
    let mut i: usize = 0;
    let mut start: usize = 0;
    proof {
        assert(s@.skip(0) =~= s@);
        assert(s@.subrange(0, 0) =~= Seq::<char>::empty());
        assert(r.deep_view() =~= Seq::<Seq<char>>::empty());
        assert(r.deep_view() + tokens_from(s@, Seq::<char>::empty()) =~= tokens_of(s@));
    }
    while i < n
        invariant
            start <= i <= n,
            n == s@.len(),
            tokens_of(s@) == r.deep_view() + tokens_from(
                s@.skip(i as int),
                s@.subrange(start as int, i as int),
            ),
            forall|j: int| start <= j < i ==> !is_space_char(s@[j]),
        decreases n - i,
    {
        let c = s.as_str().get_char(i);
        proof {
            assert(s@.skip(i as int)[0] == s@[i as int]);
            assert(s@.skip(i as int).drop_first() =~= s@.skip(i as int + 1));
        }
        if c == ' ' || c == '\t' || c == '\n' || c == '\r' {
            if start < i {
                let tok = s.as_str().substring_char(start, i).to_owned();
                let ghost prev_dv = r.deep_view();
                r.push(tok);
                proof {
                    assert(r.deep_view() =~= prev_dv + seq![s@.subrange(
                        start as int,
                        i as int,
                    )]);
                }
            }
            i = i + 1;
            start = i;
            proof {
                assert(s@.subrange(start as int, i as int) =~= Seq::<char>::empty());
            }
        } else {
            i = i + 1;
            proof {
                assert(s@.subrange(start as int, i as int) =~= s@.subrange(
                    start as int,
                    i as int - 1,
                ).push(s@[i as int - 1]));
            }
        }
    }
    proof {
        assert(s@.skip(n as int) =~= Seq::<char>::empty());
    }
    if start < n {
        let tok = s.as_str().substring_char(start, n).to_owned();
        let ghost prev_dv = r.deep_view();
        r.push(tok);
        proof {
            assert(r.deep_view() =~= prev_dv + seq![s@.subrange(start as int, n as int)]);
        }
    }
    proof {
        assert(tokens_of(s@) =~= r.deep_view());
    }
    r
}

/// The character that a decimal digit value renders as.
pub open spec fn digit_char(d: nat) -> char
    recommends
        d < 10,
{
    ((48 + d) as u8) as char
}

/// The decimal rendering of `n`, most significant digit first, no leading
/// zeros (the rendering of 0 is "0").
pub open spec fn dec_chars(n: nat) -> Seq<char>
    decreases n,
{
    if n < 10 {
        seq![digit_char(n)]
    } else {
        dec_chars(n / 10).push(digit_char(n % 10))
    }
}

/// The one-character string for a digit value.
fn digit_str(d: u64) -> (r: &'static str)
    requires
        d < 10,
    ensures
        r@ == seq![digit_char(d as nat)],
{
    proof {
        reveal_strlit("0");
        reveal_strlit("1");
        reveal_strlit("2");
        reveal_strlit("3");
        reveal_strlit("4");
        reveal_strlit("5");
        reveal_strlit("6");
        reveal_strlit("7");
        reveal_strlit("8");
        reveal_strlit("9");
    }
    let r = match d {
        0 => "0",
        1 => "1",
        2 => "2",
        3 => "3",
        4 => "4",
        5 => "5",
        6 => "6",
        7 => "7",
        8 => "8",
        _ => "9",
    };
    proof {
        assert(r@ =~= seq![digit_char(d as nat)]);
    }
    r
}

/// Renders `n` in decimal.
pub fn u64_to_dec(n: u64) -> (r: String)
    ensures
        r@ == dec_chars(n as nat),
    decreases n,
{
    if n < 10 {
        String::from_str(digit_str(n))
    } else {
        let mut s = u64_to_dec(n / 10);
        s.append(digit_str(n % 10));
        proof {
            assert(s@ =~= dec_chars((n / 10) as nat).push(digit_char((n % 10) as nat)));
        }
        s
    }
}

} // verus!
