//! Syntax of the address fields of a record: IPv4 addresses in dotted-quad
//! form and subnets in CIDR form.

use vstd::prelude::*;
use vstd::slice::slice_subrange;
use crate::numeral::{
    all_digits, chars_of, decimal_value, is_digit, read_digits, read_unsigned, unsigned_number,
};

verus! {

/// One part of a dotted quad: one to three decimal digits that write a
/// number from 0 to 255, with no leading zero in front of another digit.
pub open spec fn is_octet_text(t: Seq<char>) -> bool {
    &&& 1 <= t.len() <= 3
    &&& all_digits(t)
    &&& (t.len() > 1 ==> t[0] != '0')
    &&& decimal_value(t) <= 255
}

/// `s` is four octets, separated by the dots at `i`, `j` and `k`.
pub open spec fn dotted_quad_at(s: Seq<char>, i: int, j: int, k: int) -> bool {
    &&& 0 <= i < j < k < s.len()
    &&& s[i] == '.'
    &&& s[j] == '.'
    &&& s[k] == '.'
    &&& is_octet_text(s.subrange(0, i))
    &&& is_octet_text(s.subrange(i + 1, j))
    &&& is_octet_text(s.subrange(j + 1, k))
    &&& is_octet_text(s.subrange(k + 1, s.len() as int))
}

/// `s` is an IPv4 address in dotted-quad form: four octets, each from 0 to
/// 255, with a dot between neighbours and nothing else.
pub open spec fn is_ipv4_text(s: Seq<char>) -> bool {
    exists|i: int, j: int, k: int| #[trigger] dotted_quad_at(s, i, j, k)
}

/// `t` writes a prefix length: an unsigned number from 0 to 32.
pub open spec fn is_prefix_text(t: Seq<char>) -> bool {
    unsigned_number(t, 32) is Some
}

/// `s` is an IPv4 address, the slash at `k`, and a prefix length.
pub open spec fn cidr_at(s: Seq<char>, k: int) -> bool {
    &&& 0 <= k < s.len()
    &&& s[k] == '/'
    &&& is_ipv4_text(s.subrange(0, k))
    &&& is_prefix_text(s.subrange(k + 1, s.len() as int))
}

/// `s` is a subnet in CIDR form: an IPv4 address, a slash, and a prefix
/// length from 0 to 32.
pub open spec fn is_subnet_text(s: Seq<char>) -> bool {
    exists|k: int| #[trigger] cidr_at(s, k)
}

/// Where the run of digits that starts at `from` stops: the first position
/// from there on that holds no digit, or the end of `s`.
spec fn digits_end(s: Seq<char>, from: int) -> int
    decreases s.len() - from,
{
    if 0 <= from < s.len() && is_digit(s[from]) {
        digits_end(s, from + 1)
    } else {
        from
    }
}

proof fn lemma_digits_end(s: Seq<char>, from: int)
    requires
        0 <= from <= s.len(),
    ensures
        from <= digits_end(s, from) <= s.len(),
        forall|i: int| from <= i < digits_end(s, from) ==> is_digit(#[trigger] s[i]),
        digits_end(s, from) < s.len() ==> !is_digit(s[digits_end(s, from)]),
    decreases s.len() - from,
{
    if from < s.len() && is_digit(s[from]) {
        lemma_digits_end(s, from + 1);
    }
}

/// A stretch of digits that ends at a non-digit, or at the end of `s`, is
/// the whole run.
proof fn lemma_digits_end_of_run(s: Seq<char>, from: int, to: int)
    requires
        0 <= from <= to <= s.len(),
        all_digits(s.subrange(from, to)),
        to < s.len() ==> !is_digit(s[to]),
    ensures
        digits_end(s, from) == to,
    decreases to - from,
{
    if from < to {
        assert(s.subrange(from, to)[0] == s[from]);
        assert forall|i: int| 0 <= i < to - (from + 1) implies is_digit(
            #[trigger] s.subrange(from + 1, to)[i],
        ) by {
            assert(s.subrange(from, to)[i + 1] == s[from + 1 + i]);
        }
        lemma_digits_end_of_run(s, from + 1, to);
    }
}

/// The dotted quad that the digit runs of `s` lay out, if it is one.
spec fn quad_by_runs(s: Seq<char>) -> bool {
    let i = digits_end(s, 0);
    let j = digits_end(s, i + 1);
    let k = digits_end(s, j + 1);
    dotted_quad_at(s, i, j, k)
}

/// The dots of a dotted quad stand where the digit runs stop.
proof fn lemma_quad_by_runs(s: Seq<char>)
    ensures
        is_ipv4_text(s) == quad_by_runs(s),
{
    if is_ipv4_text(s) {
        let (i, j, k) = choose|i: int, j: int, k: int| #[trigger] dotted_quad_at(s, i, j, k);
        lemma_digits_end_of_run(s, 0, i);
        lemma_digits_end_of_run(s, i + 1, j);
        lemma_digits_end_of_run(s, j + 1, k);
    }
}

/// A dotted quad holds digits and dots only.
proof fn lemma_ipv4_text_chars(s: Seq<char>)
    requires
        is_ipv4_text(s),
    ensures
        forall|n: int| 0 <= n < s.len() ==> is_digit(#[trigger] s[n]) || s[n] == '.',
{
    let (i, j, k) = choose|i: int, j: int, k: int| #[trigger] dotted_quad_at(s, i, j, k);
    assert forall|n: int| 0 <= n < s.len() implies is_digit(#[trigger] s[n]) || s[n] == '.' by {
        if n < i {
            assert(s.subrange(0, i)[n] == s[n]);
        } else if i < n < j {
            assert(s.subrange(i + 1, j)[n - i - 1] == s[n]);
        } else if j < n < k {
            assert(s.subrange(j + 1, k)[n - j - 1] == s[n]);
        } else if k < n {
            assert(s.subrange(k + 1, s.len() as int)[n - k - 1] == s[n]);
        }
    }
}

/// Finds the end of the digit run that starts at `from`, and tells whether
/// the run is an octet.
fn octet_end(s: &[char], from: usize) -> (r: (usize, bool))
    requires
        from <= s.len(),
    ensures
        r.0 == digits_end(s@, from as int),
        from <= r.0 <= s.len(),
        r.1 == is_octet_text(s@.subrange(from as int, r.0 as int)),
{
    let mut end: usize = from;
    while end < s.len() && s[end] >= '0' && s[end] <= '9'
        invariant
            from <= end <= s.len(),
            digits_end(s@, from as int) == digits_end(s@, end as int),
        decreases s.len() - end,
    {
        end += 1;
    }
    let run = slice_subrange(s, from, end);
    let len: usize = end - from;
    let ok = 1 <= len && len <= 3 && !(len > 1 && run[0] == '0') && read_digits(run, 255).is_some();
    (end, ok)
}

/// Decides whether the characters are an IPv4 address in dotted-quad form.
pub fn is_ipv4(s: &[char]) -> (r: bool)
    ensures
        r == is_ipv4_text(s@),
{
    proof {
        lemma_quad_by_runs(s@);
    }
    let (i, first) = octet_end(s, 0);
    if !first || i >= s.len() || s[i] != '.' {
        return false;
    }
    let (j, second) = octet_end(s, i + 1);
    if !second || j >= s.len() || s[j] != '.' {
        return false;
    }
    let (k, third) = octet_end(s, j + 1);
    if !third || k >= s.len() || s[k] != '.' {
        return false;
    }
    let (end, fourth) = octet_end(s, k + 1);
    proof {
        lemma_digits_end(s@, k + 1);
        if is_octet_text(s@.subrange(k + 1, s@.len() as int)) {
            lemma_digits_end_of_run(s@, k + 1, s@.len() as int);
        }
    }
    fourth && end == s.len()
}

/// Decides whether the characters are a subnet in CIDR form.
pub fn is_subnet(s: &[char]) -> (r: bool)
    ensures
        r == is_subnet_text(s@),
{
    let mut k: usize = 0;
    while k < s.len() && s[k] != '/'
        invariant
            k <= s.len(),
            forall|n: int| 0 <= n < k ==> s@[n] != '/',
        decreases s.len() - k,
    {
        k += 1;
    }
    proof {
        assert forall|m: int| #[trigger] cidr_at(s@, m) implies m == k by {
            lemma_ipv4_text_chars(s@.subrange(0, m));
            if k < m {
                assert(s@.subrange(0, m)[k as int] == s@[k as int]);
            }
        }
    }
    if k >= s.len() {
        return false;
    }
    let address = slice_subrange(s, 0, k);
    let prefix = slice_subrange(s, k + 1, s.len());
    let valid = is_ipv4(address) && read_unsigned(prefix, 32).is_some();
    proof {
        if valid {
            assert(cidr_at(s@, k as int));
        }
    }
    valid
}

/// Accepts exactly the IPv4 addresses in dotted-quad form.
pub fn validate_ip(ip: &str) -> (valid: bool)
    ensures
        valid == is_ipv4_text(ip@),
{
    let chars = chars_of(ip);
    is_ipv4(chars.as_slice())
}

/// Accepts exactly the subnets in CIDR form: an IPv4 address, a slash and a
/// prefix length from 0 to 32.
pub fn validate_subnet(subnet: &str) -> (valid: bool)
    ensures
        valid == is_subnet_text(subnet@),
{
    let chars = chars_of(subnet);
    is_subnet(chars.as_slice())
}

/// Accepts what `validate_ip` accepts: a gateway is an IPv4 address.
pub fn validate_gateway(gateway: &str) -> (valid: bool)
    ensures
        valid == is_ipv4_text(gateway@),
{
    validate_ip(gateway)
}

} // verus!
