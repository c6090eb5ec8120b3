//! Validation of configured addresses: the dotted-quad IPv4 shape
//! every collected address must have, and the liveness verdicts over
//! a configuration's address lists.

use vstd::prelude::*;

verus! {

/// Decimal digit.
pub open spec fn is_digit(c: char) -> bool {
    '0' <= c <= '9'
}

/// Every character of the run is a decimal digit.
pub open spec fn all_digits(s: Seq<char>) -> bool {
    forall|i: int| 0 <= i < s.len() ==> is_digit(#[trigger] s[i])
}

/// Value of a run of decimal digits.
pub open spec fn dec_value(s: Seq<char>) -> int
    recommends
        all_digits(s),
    decreases s.len(),
{
    if s.len() == 0 {
        0
    } else {
        dec_value(s.drop_last()) * 10 + (s.last() as int - '0' as int)
    }
}

/// A numeral accepted as one octet of a dotted-quad address: an
/// optional leading plus sign, then at least one digit, with a value
/// of at most 255.  Leading zeros are allowed; the length of the run
/// is not bounded, only its value.
pub open spec fn spec_valid_octet(s: Seq<char>) -> bool {
    let digits = if s.len() > 0 && s[0] == '+' {
        s.drop_first()
    } else {
        s
    };
    digits.len() > 0 && all_digits(digits) && dec_value(digits) <= 255
}

/// A digit run is never worth a negative amount.
proof fn lemma_dec_value_nonneg(s: Seq<char>)
    requires
        all_digits(s),
    ensures
        dec_value(s) >= 0,
    decreases s.len(),
{
    if s.len() > 0 {
        lemma_dec_value_nonneg(s.drop_last());
    }
}

/// Whether a string is a valid octet.
pub fn is_valid_octet(part: &str) -> (r: bool)
    ensures
        r == spec_valid_octet(part@),
{
    let len = part.unicode_len();
    let start: usize = if len > 0 && part.get_char(0) == '+' {
        1
    } else {
        0
    };
    let ghost digits = if start == 1 {
        part@.drop_first()
    } else {
        part@
    };
    if len == start {
        return false;
    }
    let mut i: usize = start;
    let mut acc: u32 = 0;
    while i < len
        invariant
            start <= i <= len,
            len == part@.len(),
            start <= 1,
            (start == 1) == (part@.len() > 0 && part@[0] == '+'),
            digits == (if start == 1 {
                part@.drop_first()
            } else {
                part@
            }),
            digits =~= part@.subrange(start as int, len as int),
            all_digits(part@.subrange(start as int, i as int)),
            acc == if dec_value(part@.subrange(start as int, i as int)) > 255 {
                256int
            } else {
                dec_value(part@.subrange(start as int, i as int))
            },
        decreases len - i,
    {
        let c = part.get_char(i);
        let code = c as u32;
        proof {
            let pre = part@.subrange(start as int, i as int);
            let post = part@.subrange(start as int, i + 1);
            assert(post.drop_last() =~= pre);
            assert(post.last() == part@[i as int]);
            lemma_dec_value_nonneg(pre);
        }
        if code < 48 || code > 57 {
            proof {
                assert(digits[i - start] == part@[i as int]);
                assert(!is_digit(part@[i as int]));
                assert(!all_digits(digits));
                if start == 1 {
                    assert(part@.len() > 0 && part@[0] == '+');
                    assert(digits == part@.drop_first());
                } else {
                    assert(!(part@.len() > 0 && part@[0] == '+'));
                    assert(digits == part@);
                }
                assert(!spec_valid_octet(part@));
            }
            return false;
        }
        let d = code - 48;
        acc = if acc > 255 {
            256
        } else {
            acc * 10 + d
        };
        if acc > 255 {
            acc = 256;
        }
        i += 1;
    }
    proof {
        assert(part@.subrange(start as int, len as int) =~= digits);
    }
    acc <= 255
}

/// The runs of a string between occurrences of a separator, in
/// order: one more run than separators, and an empty run wherever
/// two separators touch.
pub open spec fn spec_split(s: Seq<char>, sep: char) -> Seq<Seq<char>>
    decreases s.len(),
{
    if s.len() == 0 {
        seq![Seq::<char>::empty()]
    } else {
        let rest = spec_split(s.drop_first(), sep);
        if s[0] == sep {
            seq![Seq::<char>::empty()] + rest
        } else {
            seq![seq![s[0]] + rest[0]] + rest.drop_first()
        }
    }
}

/// A split always yields at least one run.
pub proof fn lemma_split_nonempty(s: Seq<char>, sep: char)
    ensures
        spec_split(s, sep).len() >= 1,
    decreases s.len(),
{
    if s.len() > 0 {
        lemma_split_nonempty(s.drop_first(), sep);
    }
}

/// One scanning step of a split, at position `i`.
proof fn lemma_split_step(s: Seq<char>, sep: char, i: int)
    requires
        0 <= i < s.len(),
    ensures
        s[i] == sep ==> spec_split(s.skip(i), sep) =~= seq![Seq::<char>::empty()] + spec_split(
            s.skip(i + 1),
            sep,
        ),
        s[i] != sep ==> spec_split(s.skip(i), sep) =~= seq![seq![s[i]] + spec_split(s.skip(i + 1), sep)[0]]
            + spec_split(s.skip(i + 1), sep).drop_first(),
{
    assert(s.skip(i).drop_first() =~= s.skip(i + 1));
    assert(s.skip(i)[0] == s[i]);
    assert(s.skip(i).len() > 0);
}

/// Splits a string on a separator character.
pub fn split_str(s: &str, sep: char) -> (parts: Vec<String>)
    ensures
        parts.deep_view() == spec_split(s@, sep),
{
    let len = s.unicode_len();
    let mut parts: Vec<String> = Vec::new();
    let mut cur = String::new();
    let mut i: usize = 0;
    proof {
        assert(s@.skip(0) =~= s@);
    }
    while i < len
        invariant
            i <= len,
            len == s@.len(),
            spec_split(s@, sep) =~= parts.deep_view() + seq![cur@ + spec_split(s@.skip(i as int), sep)[0]]
                + spec_split(s@.skip(i as int), sep).drop_first(),
        decreases len - i,
    {
        let ghost old_parts = parts.deep_view();
        let ghost old_cur = cur@;
        proof {
            lemma_split_step(s@, sep, i as int);
            lemma_split_nonempty(s@.skip(i + 1), sep);
        }
        let c = s.get_char(i);
        if c == sep {
            parts.push(cur);
            cur = String::new();
            proof {
                assert(parts.deep_view() =~= old_parts + seq![old_cur]);
                assert(spec_split(s@, sep) =~= parts.deep_view() + seq![cur@ + spec_split(
                    s@.skip(i + 1),
                    sep,
                )[0]] + spec_split(s@.skip(i + 1), sep).drop_first());
            }
        } else {
            let piece = s.substring_char(i, i + 1);
            proof {
                assert(piece@ =~= seq![s@[i as int]]);
            }
            cur.append(piece);
            proof {
                assert(cur@ + spec_split(s@.skip(i + 1), sep)[0] =~= old_cur + spec_split(
                    s@.skip(i as int),
                    sep,
                )[0]);
                assert(spec_split(s@, sep) =~= parts.deep_view() + seq![cur@ + spec_split(
                    s@.skip(i + 1),
                    sep,
                )[0]] + spec_split(s@.skip(i + 1), sep).drop_first());
            }
        }
        i += 1;
    }
    proof {
        assert(s@.skip(len as int) =~= Seq::<char>::empty());
        assert(spec_split(Seq::<char>::empty(), sep) =~= seq![Seq::<char>::empty()]);
        assert(spec_split(s@, sep) =~= parts.deep_view() + seq![cur@]);
    }
    let ghost old_parts = parts.deep_view();
    let ghost old_cur = cur@;
    parts.push(cur);
    proof {
        assert(parts.deep_view() =~= old_parts + seq![old_cur]);
    }
    parts
}

/// A dotted-quad IPv4 address as the configuration wizards accept
/// it: exactly four dot-separated runs, each a valid octet.
pub open spec fn spec_valid_ipv4(s: Seq<char>) -> bool {
    let parts = spec_split(s, '.');
    parts.len() == 4 && (forall|i: int| 0 <= i < 4 ==> spec_valid_octet(#[trigger] parts[i]))
}

/// Whether an address has the dotted-quad IPv4 shape.
pub fn is_valid_ipv4(addr: &str) -> (r: bool)
    ensures
        r == spec_valid_ipv4(addr@),
{
    let parts = split_str(addr, '.');
    if parts.len() != 4 {
        proof {
            assert(parts.deep_view().len() == parts@.len());
            assert(!spec_valid_ipv4(addr@));
        }
        return false;
    }
    let mut i: usize = 0;
    while i < parts.len()
        invariant
            i <= parts@.len(),
            parts.deep_view() == spec_split(addr@, '.'),
            parts@.len() == 4,
            forall|j: int| 0 <= j < i ==> spec_valid_octet(#[trigger] parts.deep_view()[j]),
        decreases parts@.len() - i,
    {
        let ok = is_valid_octet(parts[i].as_str());
        if !ok {
            proof {
                assert(parts.deep_view()[i as int] == parts@[i as int]@);
                assert(!spec_valid_octet(spec_split(addr@, '.')[i as int]));
                assert(!spec_valid_ipv4(addr@));
            }
            return false;
        }
        proof {
            assert(parts.deep_view()[i as int] == parts@[i as int]@);
        }
        i += 1;
    }
    true
}

/// The liveness verdict over a load balancer's configured backends:
/// the configuration stands only when every node answered.
pub fn lb_config_verdict(node_live: &Vec<bool>) -> (r: bool)
    ensures
        r == (forall|i: int| 0 <= i < node_live@.len() ==> node_live@[i]),
{
    let mut i: usize = 0;
    let mut valid = true;
    while i < node_live.len()
        invariant
            i <= node_live@.len(),
            valid == (forall|j: int| 0 <= j < i ==> node_live@[j]),
        decreases node_live@.len() - i,
    {
        if !node_live[i] {
            valid = false;
        }
        i += 1;
    }
    valid
}

/// The liveness verdict over a node agent's configuration: only the
/// reachability of the configured load balancers gates it; the
/// agent's own address is reported but does not decide.
pub fn server_config_verdict(server_live: bool, lb_live: &Vec<bool>) -> (r: bool)
    ensures
        r == (forall|i: int| 0 <= i < lb_live@.len() ==> lb_live@[i]),
{
    let _ = server_live;
    lb_config_verdict(lb_live)
}

} // verus!
