//! Address templates: every combination of four octets and a port, each
//! either fixed or ranging over an inclusive range, enumerated in order.
use vstd::prelude::*;
use std::ops::RangeInclusive;
use vstd::endian::{endianness, Endian};
use vstd::string::StringExecFns;

verus! {

/// One component of an address template: a whole inclusive range, or one value.
#[derive(Debug)]
pub enum TemplateMember<T> {
    Templated(RangeInclusive<T>),
    Fixed(T),
}

/// `RangeInclusive::start`: the lower bound the range holds (std leaves it
/// unspecified once a range has been iterated to exhaustion; the ranges of a
/// template are not iterated).
#[verifier::external_body]
fn range_start<T>(r: &RangeInclusive<T>) -> (s: &T)
    ensures
        *s == r@.start,
{
    r.start()
}

/// `RangeInclusive::end`: the upper bound the range holds.
#[verifier::external_body]
fn range_end<T>(r: &RangeInclusive<T>) -> (e: &T)
    ensures
        *e == r@.end,
{
    r.end()
}

/// The first value a member covers.
pub open spec fn member_start_u8(m: TemplateMember<u8>) -> usize {
    match m {
        TemplateMember::Templated(r) => r@.start as usize,
        TemplateMember::Fixed(v) => v as usize,
    }
}

/// The last value a member covers.
pub open spec fn member_end_u8(m: TemplateMember<u8>) -> usize {
    match m {
        TemplateMember::Templated(r) => r@.end as usize,
        TemplateMember::Fixed(v) => v as usize,
    }
}

/// The first value a port member covers.
pub open spec fn member_start_u16(m: TemplateMember<u16>) -> usize {
    match m {
        TemplateMember::Templated(r) => r@.start as usize,
        TemplateMember::Fixed(v) => v as usize,
    }
}

/// The last value a port member covers.
pub open spec fn member_end_u16(m: TemplateMember<u16>) -> usize {
    match m {
        TemplateMember::Templated(r) => r@.end as usize,
        TemplateMember::Fixed(v) => v as usize,
    }
}

/// The bounds of an octet member, widened to `usize`.
pub fn octet_bounds(m: &TemplateMember<u8>) -> (r: (usize, usize))
    ensures
        r == (member_start_u8(*m), member_end_u8(*m)),
{
    match m {
        TemplateMember::Templated(r) => (*range_start(r) as usize, *range_end(r) as usize),
        TemplateMember::Fixed(v) => (*v as usize, *v as usize),
    }
}

/// The bounds of a port member, widened to `usize`.
pub fn port_bounds(m: &TemplateMember<u16>) -> (r: (usize, usize))
    ensures
        r == (member_start_u16(*m), member_end_u16(*m)),
{
    match m {
        TemplateMember::Templated(r) => (*range_start(r) as usize, *range_end(r) as usize),
        TemplateMember::Fixed(v) => (*v as usize, *v as usize),
    }
}

// ---------------------------------------------------------------------------
// Enumeration order: the state of an enumeration is one value per component;
// its rank counts, in mixed radix, how many states precede it.
/// How many values component `i` takes.
pub open spec fn radix(lo: Seq<usize>, hi: Seq<usize>, i: int) -> int {
    hi[i] - lo[i] + 1
}

/// The position of `s` among all states, looking at its first `n` components.
pub open spec fn rank(lo: Seq<usize>, hi: Seq<usize>, s: Seq<usize>, n: nat) -> int
    decreases n,
{
    if n == 0 {
        0
    } else {
        rank(lo, hi, s, (n - 1) as nat) * radix(lo, hi, n - 1) + (s[n - 1] - lo[n - 1])
    }
}

/// How many states the first `n` components have.
pub open spec fn count(lo: Seq<usize>, hi: Seq<usize>, n: nat) -> int
    decreases n,
{
    if n == 0 {
        1
    } else {
        count(lo, hi, (n - 1) as nat) * radix(lo, hi, n - 1)
    }
}

/// Every component has a nonempty range.
pub open spec fn ranges_nonempty(lo: Seq<usize>, hi: Seq<usize>) -> bool {
    &&& lo.len() == hi.len()
    &&& forall|i: int| 0 <= i < lo.len() ==> lo[i] <= hi[i]
}

/// Every component of `s` lies in its range.
pub open spec fn in_bounds(lo: Seq<usize>, hi: Seq<usize>, s: Seq<usize>) -> bool {
    &&& s.len() == lo.len()
    &&& forall|i: int| 0 <= i < s.len() ==> lo[i] <= #[trigger] s[i] <= hi[i]
}

/// The state after `s`, counting up from component `i` downwards like an
/// odometer, and whether it wrapped around past the last state.
pub open spec fn advance(lo: Seq<usize>, hi: Seq<usize>, s: Seq<usize>, i: nat) -> (Seq<usize>, bool)
    decreases i,
{
    if s[i as int] == hi[i as int] {
        let t = s.update(i as int, lo[i as int]);
        if i == 0 {
            (t, true)
        } else {
            advance(lo, hi, t, (i - 1) as nat)
        }
    } else {
        (s.update(i as int, (s[i as int] + 1) as usize), false)
    }
}

/// The rank only looks at the first `n` components.
proof fn lemma_rank_prefix(lo: Seq<usize>, hi: Seq<usize>, s: Seq<usize>, t: Seq<usize>, n: nat)
    requires
        forall|j: int| 0 <= j < n ==> s[j] == t[j],
    ensures
        rank(lo, hi, s, n) == rank(lo, hi, t, n),
    decreases n,
{
    if n > 0 {
        lemma_rank_prefix(lo, hi, s, t, (n - 1) as nat);
    }
}

/// In-bounds states have ranks from 0 up to the number of states.
pub proof fn lemma_rank_bounds(lo: Seq<usize>, hi: Seq<usize>, s: Seq<usize>, n: nat)
    requires
        ranges_nonempty(lo, hi),
        in_bounds(lo, hi, s),
        n <= s.len(),
    ensures
        0 <= rank(lo, hi, s, n) < count(lo, hi, n),
        count(lo, hi, n) >= 1,
    decreases n,
{
    if n > 0 {
        lemma_rank_bounds(lo, hi, s, (n - 1) as nat);
        let a = rank(lo, hi, s, (n - 1) as nat);
        let c = count(lo, hi, (n - 1) as nat);
        let r = radix(lo, hi, n - 1);
        let x = s[n - 1] - lo[n - 1];
        assert(0 <= a * r + x < c * r) by (nonlinear_arith)
            requires
                0 <= a < c,
                0 <= x < r,
        ;
        assert(c * r >= 1) by (nonlinear_arith)
            requires
                c >= 1,
                r >= 1,
        ;
    }
}

/// One step of the odometer moves to the next rank, or wraps around from the
/// last state to the first.
pub proof fn lemma_advance(lo: Seq<usize>, hi: Seq<usize>, s: Seq<usize>, i: nat)
    requires
        ranges_nonempty(lo, hi),
        in_bounds(lo, hi, s),
        i < s.len(),
    ensures
        ({
            let (t, wrapped) = advance(lo, hi, s, i);
            &&& in_bounds(lo, hi, t)
            &&& forall|j: int| i < j < s.len() ==> t[j] == s[j]
            &&& !wrapped ==> rank(lo, hi, t, i + 1) == rank(lo, hi, s, i + 1) + 1
            &&& wrapped ==> rank(lo, hi, s, i + 1) == count(lo, hi, i + 1) - 1
            &&& wrapped ==> rank(lo, hi, t, i + 1) == 0
            &&& wrapped ==> forall|j: int| 0 <= j < t.len() && j <= i ==> t[j] == lo[j]
        }),
    decreases i,
{
    let ii = i as int;
    if s[ii] == hi[ii] {
        let u = s.update(ii, lo[ii]);
        lemma_rank_prefix(lo, hi, s, u, i);
        if i == 0 {
            let r = radix(lo, hi, 0);
            assert(0 * r == 0 && 1 * r == r) by (nonlinear_arith);
            assert(rank(lo, hi, u, 1) == 0);
            assert(rank(lo, hi, s, 1) == r - 1);
            assert(count(lo, hi, 0) == 1);
            assert(count(lo, hi, 1) == count(lo, hi, 0) * r);
        } else {
            let p = (i - 1) as nat;
            lemma_advance(lo, hi, u, p);
            let (t, wrapped) = advance(lo, hi, u, p);
            let a = rank(lo, hi, s, i);
            let r = radix(lo, hi, ii);
            assert(t[ii] == lo[ii]);
            assert(rank(lo, hi, s, i + 1) == a * r + (r - 1));
            assert(rank(lo, hi, t, i + 1) == rank(lo, hi, t, i) * r);
            assert(count(lo, hi, i + 1) == count(lo, hi, i) * r);
            assert(rank(lo, hi, u, i) == a);
            if !wrapped {
                assert(rank(lo, hi, t, i) == a + 1);
                assert((a + 1) * r + 0 == a * r + (r - 1) + 1) by (nonlinear_arith);
            } else {
                let c = count(lo, hi, i);
                assert(a == c - 1);
                assert((c - 1) * r + (r - 1) == c * r - 1) by (nonlinear_arith);
                assert(rank(lo, hi, t, i) == 0);
                assert(0 * r + 0 == 0) by (nonlinear_arith);
            }
        }
    } else {
        let t = s.update(ii, (s[ii] + 1) as usize);
        lemma_rank_prefix(lo, hi, s, t, i);
    }
}

/// Distinct in-bounds states have distinct ranks.
pub proof fn lemma_rank_injective(lo: Seq<usize>, hi: Seq<usize>, s: Seq<usize>, t: Seq<usize>, n: nat)
    requires
        ranges_nonempty(lo, hi),
        in_bounds(lo, hi, s),
        in_bounds(lo, hi, t),
        n <= s.len(),
        rank(lo, hi, s, n) == rank(lo, hi, t, n),
    ensures
        forall|j: int| 0 <= j < n ==> s[j] == t[j],
    decreases n,
{
    if n > 0 {
        let m = (n - 1) as nat;
        lemma_rank_bounds(lo, hi, s, m);
        lemma_rank_bounds(lo, hi, t, m);
        let a = rank(lo, hi, s, m);
        let b = rank(lo, hi, t, m);
        let r = radix(lo, hi, m as int);
        let x = s[m as int] - lo[m as int];
        let y = t[m as int] - lo[m as int];
        assert(a == b && x == y) by (nonlinear_arith)
            requires
                a * r + x == b * r + y,
                0 <= x < r,
                0 <= y < r,
                0 <= a,
                0 <= b,
        ;
        lemma_rank_injective(lo, hi, s, t, m);
    }
}


/// The number of states after `k` steps of the odometer from the first state.
pub open spec fn nth_state(lo: Seq<usize>, hi: Seq<usize>, k: nat) -> Seq<usize>
    decreases k,
{
    if k == 0 {
        lo
    } else {
        advance(lo, hi, nth_state(lo, hi, (k - 1) as nat), (lo.len() - 1) as nat).0
    }
}

/// Enumerating from the first state visits the state of rank `k` at step `k`,
/// for every `k` below the number of states, wrapping around exactly after the
/// last one; together with [`lemma_rank_injective`] every state is visited
/// exactly once before the wrap.
pub proof fn law_template_enumeration(lo: Seq<usize>, hi: Seq<usize>, k: nat)
    requires
        ranges_nonempty(lo, hi),
        lo.len() > 0,
        k < count(lo, hi, lo.len()),
    ensures
        in_bounds(lo, hi, nth_state(lo, hi, k)),
        rank(lo, hi, nth_state(lo, hi, k), lo.len()) == k,
        advance(lo, hi, nth_state(lo, hi, k), (lo.len() - 1) as nat).1 <==> k + 1 == count(
            lo,
            hi,
            lo.len(),
        ),
    decreases k,
{
    let n = lo.len();
    let last = (n - 1) as nat;
    if k == 0 {
        lemma_rank_of_first(lo, hi, n);
    } else {
        law_template_enumeration(lo, hi, (k - 1) as nat);
        lemma_advance(lo, hi, nth_state(lo, hi, (k - 1) as nat), last);
    }
    lemma_advance(lo, hi, nth_state(lo, hi, k), last);
    lemma_rank_bounds(lo, hi, advance(lo, hi, nth_state(lo, hi, k), last).0, n);
}

/// The first state has rank 0.
proof fn lemma_rank_of_first(lo: Seq<usize>, hi: Seq<usize>, n: nat)
    requires
        n <= lo.len(),
    ensures
        rank(lo, hi, lo, n) == 0,
    decreases n,
{
    if n > 0 {
        lemma_rank_of_first(lo, hi, (n - 1) as nat);
        let r = radix(lo, hi, n - 1);
        assert(0 * r + 0 == 0) by (nonlinear_arith);
    }
}

/// The decimal digits of `n`, as `usize`'s `Display` writes them.
pub open spec fn decimal(n: nat) -> Seq<char>
    decreases n,
{
    if n < 10 {
        seq![(('0' as u8) + n) as char]
    } else {
        decimal(n / 10).push((('0' as u8) + (n % 10)) as char)
    }
}

/// The text of a socket address: `a.b.c.d:port` in decimal.
pub open spec fn address_text(a: Seq<usize>) -> Seq<char> {
    decimal(a[0] as nat) + seq!['.'] + decimal(a[1] as nat) + seq!['.'] + decimal(a[2] as nat)
        + seq!['.'] + decimal(a[3] as nat) + seq![':'] + decimal(a[4] as nat)
}

/// The text of one decimal digit.
fn digit_text(d: usize) -> (s: &'static str)
    requires
        d < 10,
    ensures
        s@ == seq![(('0' as u8) + d) as char],
{
    proof {
        reveal_strlit("0");
        reveal_strlit("1");
        reveal_strlit("2");
        reveal_strlit("3");
        reveal_strlit("4");
        reveal_strlit("5");
        reveal_strlit("6");
        reveal_strlit("7");
        reveal_strlit("8");
        reveal_strlit("9");
    }
    match d {
        0 => "0",
        1 => "1",
        2 => "2",
        3 => "3",
        4 => "4",
        5 => "5",
        6 => "6",
        7 => "7",
        8 => "8",
        _ => "9",
    }
}

/// The decimal digits of `n`, as `usize`'s `Display` writes them.
pub(crate) fn usize_text(n: usize) -> (s: String)
    ensures
        s@ == decimal(n as nat),
    decreases n,
{
    if n < 10 {
        digit_text(n).to_owned()
    } else {
        let mut s = usize_text(n / 10);
        s.append(digit_text(n % 10));
        s
    }
}

/// The text of a socket address.
fn format_address(a: &[usize; 5]) -> (s: String)
    ensures
        s@ == address_text(a@),
{
    let mut s = usize_text(a[0]);
    s.append(".");
    s.append(usize_text(a[1]).as_str());
    s.append(".");
    s.append(usize_text(a[2]).as_str());
    s.append(".");
    s.append(usize_text(a[3]).as_str());
    s.append(":");
    s.append(usize_text(a[4]).as_str());
    proof {
        reveal_strlit(".");
        reveal_strlit(":");
        assert(s@ =~= address_text(a@));
    }
    s
}

/// The text of a template component: its value when the range holds one
/// value, `[start, end]` otherwise.
pub open spec fn member_text(lo: usize, hi: usize) -> Seq<char> {
    if lo == hi {
        decimal(lo as nat)
    } else {
        seq!['['] + decimal(lo as nat) + seq![',', ' '] + decimal(hi as nat) + seq![']']
    }
}

/// The text of a template: its components as in an address, `a.b.c.d:port`.
pub open spec fn template_text(lo: Seq<usize>, hi: Seq<usize>) -> Seq<char> {
    member_text(lo[0], hi[0]) + seq!['.'] + member_text(lo[1], hi[1]) + seq!['.'] + member_text(
        lo[2],
        hi[2],
    ) + seq!['.'] + member_text(lo[3], hi[3]) + seq![':'] + member_text(lo[4], hi[4])
}

/// Appends the text of a template component.
fn push_member_text(s: &mut String, lo: usize, hi: usize)
    ensures
        final(s)@ == old(s)@ + member_text(lo, hi),
{
    if lo == hi {
        s.append(usize_text(lo).as_str());
    } else {
        s.append("[");
        s.append(usize_text(lo).as_str());
        s.append(", ");
        s.append(usize_text(hi).as_str());
        s.append("]");
        proof {
            reveal_strlit("[");
            reveal_strlit(", ");
            reveal_strlit("]");
        }
    }
    assert(s@ =~= old(s)@ + member_text(lo, hi));
}

/// A template of socket addresses: an inclusive range for each of the four
/// octets and for the port.
#[derive(Debug, Clone, Copy)]
pub struct IPV4AddressTemplate {
    starts: [usize; 5],
    ends: [usize; 5],
}

/// The 8-bit value with the low `k` bits set.
pub open spec fn low_bits(k: u8) -> u8 {
    ((1u8 << k) - 1) as u8
}

/// The (start, end) pairs of the octets of the template built from a network
/// prefix and the length of its subnet mask: the masked octets are fixed, a
/// partly masked octet ranges from `min(octet, m)` to `m` where `m` has the
/// unmasked bits set, and the unmasked octets range over all values.
pub open spec fn netmask_octets(prefix: Seq<u8>, len: nat) -> Seq<(usize, usize)> {
    let non_masked = len / 8;
    let fully_masked = (32 - len) / 8;
    let part_masked = 32 - len - fully_masked * 8;
    Seq::new(non_masked, |i: int| (prefix[i] as usize, prefix[i] as usize)) + (if part_masked
        != 0 {
        let mask = low_bits(part_masked as u8);
        let s = if prefix[non_masked as int] < mask {
            prefix[non_masked as int]
        } else {
            mask
        };
        seq![(s as usize, mask as usize)]
    } else {
        Seq::empty()
    }) + Seq::new(fully_masked as nat, |i: int| (0usize, 255usize))
}

impl IPV4AddressTemplate {
    /// The first value of each component: four octets, then the port.
    pub closed spec fn lo(&self) -> Seq<usize> {
        self.starts@
    }

    /// The last value of each component: four octets, then the port.
    pub closed spec fn hi(&self) -> Seq<usize> {
        self.ends@
    }

    /// The text of the template: each component as its value, or as
    /// `[start, end]` when it ranges, in the form `a.b.c.d:port`.
    pub fn to_string(&self) -> (s: String)
        ensures
            s@ == template_text(self.lo(), self.hi()),
    {
        let mut s = String::new();
        push_member_text(&mut s, self.starts[0], self.ends[0]);
        s.append(".");
        push_member_text(&mut s, self.starts[1], self.ends[1]);
        s.append(".");
        push_member_text(&mut s, self.starts[2], self.ends[2]);
        s.append(".");
        push_member_text(&mut s, self.starts[3], self.ends[3]);
        s.append(":");
        push_member_text(&mut s, self.starts[4], self.ends[4]);
        proof {
            reveal_strlit(".");
            reveal_strlit(":");
            assert(s@ =~= template_text(self.lo(), self.hi()));
        }
        s
    }

    /// A template from a member for each octet and one for the port.
    pub fn new(template: [TemplateMember<u8>; 4], port: TemplateMember<u16>) -> (r: Self)
        ensures
            r.lo() == seq![
                member_start_u8(template[0]),
                member_start_u8(template[1]),
                member_start_u8(template[2]),
                member_start_u8(template[3]),
                member_start_u16(port),
            ],
            r.hi() == seq![
                member_end_u8(template[0]),
                member_end_u8(template[1]),
                member_end_u8(template[2]),
                member_end_u8(template[3]),
                member_end_u16(port),
            ],
    {
        let b0 = octet_bounds(&template[0]);
        let b1 = octet_bounds(&template[1]);
        let b2 = octet_bounds(&template[2]);
        let b3 = octet_bounds(&template[3]);
        let bp = port_bounds(&port);
        let r = IPV4AddressTemplate { starts: [b0.0, b1.0, b2.0, b3.0, bp.0], ends: [b0.1, b1.1, b2.1, b3.1, bp.1] };
        assert(r.lo() =~= seq![b0.0, b1.0, b2.0, b3.0, bp.0]);
        assert(r.hi() =~= seq![b0.1, b1.1, b2.1, b3.1, bp.1]);
        r
    }

    /// The template covering every host of the network `network_prefix` whose
    /// subnet mask is `subnet_mask_bit_length` bits long, on the given port.
    pub fn from_netmask(network_prefix: [u8; 4], subnet_mask_bit_length: usize, port: TemplateMember<u16>) -> (r: Self)
        requires
            subnet_mask_bit_length <= 32,
        ensures
            ({
                let o = netmask_octets(network_prefix@, subnet_mask_bit_length as nat);
                &&& o.len() == 4
                &&& r.lo() == seq![o[0].0, o[1].0, o[2].0, o[3].0, member_start_u16(port)]
                &&& r.hi() == seq![o[0].1, o[1].1, o[2].1, o[3].1, member_end_u16(port)]
            }),
    {
        let len = subnet_mask_bit_length;
        let non_masked = len / 8;
        let fully_masked = (32 - len) / 8;
        let part_masked = 32 - len - fully_masked * 8;
        let ghost o = netmask_octets(network_prefix@, len as nat);
        let mut v: Vec<(usize, usize)> = Vec::new();
        let mut k: usize = 0;
        while k < non_masked
            invariant
                k <= non_masked <= 4,
                non_masked == len / 8,
                v@ =~= Seq::new(k as nat, |i: int| (network_prefix@[i] as usize, network_prefix@[i] as usize)),
            decreases non_masked - k,
        {
            let o = network_prefix[k];
            v.push((o as usize, o as usize));
            k += 1;
        }
        let ghost fixed_part = v@;
        if part_masked != 0 {
            assert(1 <= part_masked <= 7);
            let mask = !(0xffusize << part_masked) as u8;
            assert(1 <= part_masked <= 7 ==> (!(0xffusize << part_masked)) as u8 == ((1u8 << (part_masked as u8)) - 1) as u8) by (bit_vector);
            let octet = network_prefix[non_masked];
            let s = if octet < mask { octet } else { mask };
            let e = s | mask;
            assert((1 <= part_masked <= 7 && s <= mask && mask == ((1u8 << (part_masked as u8)) - 1) as u8) ==> (s | mask) == mask) by (bit_vector);
            v.push((s as usize, e as usize));
        }
        let ghost with_part = v@;
        let mut k: usize = 0;
        while k < fully_masked
            invariant
                k <= fully_masked,
                v@ =~= with_part + Seq::new(k as nat, |i: int| (0usize, 255usize)),
            decreases fully_masked - k,
        {
            v.push((0, 255));
            k += 1;
        }
        assert(v@ =~= o);
        let bp = port_bounds(&port);
        let r = IPV4AddressTemplate {
            starts: [v[0].0, v[1].0, v[2].0, v[3].0, bp.0],
            ends: [v[0].1, v[1].1, v[2].1, v[3].1, bp.1],
        };
        assert(r.lo() =~= seq![o[0].0, o[1].0, o[2].0, o[3].0, bp.0]);
        assert(r.hi() =~= seq![o[0].1, o[1].1, o[2].1, o[3].1, bp.1]);
        r
    }

    /// Whether every component's range is nonempty, which enumeration needs.
    pub fn is_well_formed(&self) -> (r: bool)
        ensures
            r == ranges_nonempty(self.lo(), self.hi()),
    {
        let mut i: usize = 0;
        while i < 5
            invariant
                i <= 5,
                self.lo().len() == 5 && self.hi().len() == 5,
                forall|j: int| 0 <= j < i ==> self.lo()[j] <= self.hi()[j],
            decreases 5 - i,
        {
            if self.starts[i] > self.ends[i] {
                return false;
            }
            i += 1;
        }
        true
    }

    /// The components as members: a single value where the range holds one
    /// value, the range otherwise.
    pub fn members(&self) -> (r: Vec<TemplateMember<usize>>)
        ensures
            r@.len() == 5,
            forall|i: int|
                0 <= i < 5 ==> (if self.lo()[i] == self.hi()[i] {
                    r@[i] == TemplateMember::Fixed(self.lo()[i])
                } else {
                    (#[trigger] r@[i]) matches TemplateMember::Templated(range) && range@.start
                        == self.lo()[i] && range@.end == self.hi()[i]
                }),
    {
        let mut r: Vec<TemplateMember<usize>> = Vec::new();
        let mut i: usize = 0;
        while i < 5
            invariant
                i <= 5,
                r@.len() == i,
                self.lo().len() == 5 && self.hi().len() == 5,
                forall|j: int|
                    0 <= j < i ==> (if self.lo()[j] == self.hi()[j] {
                        r@[j] == TemplateMember::Fixed(self.lo()[j])
                    } else {
                        (#[trigger] r@[j]) matches TemplateMember::Templated(range) && range@.start
                            == self.lo()[j] && range@.end == self.hi()[j]
                    }),
            decreases 5 - i,
        {
            let s = self.starts[i];
            let e = self.ends[i];
            if s == e {
                r.push(TemplateMember::Fixed(s));
            } else {
                r.push(TemplateMember::Templated(RangeInclusive::new(s, e)));
            }
            i += 1;
        }
        r
    }

    /// An enumeration of the template's addresses from the first one.
    pub fn into_iter(&self) -> (r: IPV4AddressTemplateIter)
        ensures
            r.lo() == self.lo(),
            r.hi() == self.hi(),
            r.current() == self.lo(),
            !r.is_done(),
            r.wf() == ranges_nonempty(self.lo(), self.hi()),
    {
        IPV4AddressTemplateIter::new(self)
    }
}

/// An enumeration of the addresses of a template, in increasing order of the
/// octets and then the port (the last component changing fastest).
#[derive(Debug)]
pub struct IPV4AddressTemplateIter {
    starts: [usize; 5],
    ends: [usize; 5],
    state: [usize; 5],
    last: bool,
}

impl IPV4AddressTemplateIter {
    /// The first value of each component.
    pub closed spec fn lo(&self) -> Seq<usize> {
        self.starts@
    }

    /// The last value of each component.
    pub closed spec fn hi(&self) -> Seq<usize> {
        self.ends@
    }

    /// The address the next step yields.
    pub closed spec fn current(&self) -> Seq<usize> {
        self.state@
    }

    /// Whether every address has been yielded.
    pub closed spec fn is_done(&self) -> bool {
        self.last
    }

    /// The ranges are nonempty and the next address lies within them.
    pub closed spec fn wf(&self) -> bool {
        &&& ranges_nonempty(self.lo(), self.hi())
        &&& in_bounds(self.lo(), self.hi(), self.current())
    }

    /// An enumeration of `templ` from its first address.
    pub fn new(templ: &IPV4AddressTemplate) -> (r: IPV4AddressTemplateIter)
        ensures
            r.lo() == templ.lo(),
            r.hi() == templ.hi(),
            r.current() == templ.lo(),
            !r.is_done(),
            r.wf() == ranges_nonempty(templ.lo(), templ.hi()),
    {
        IPV4AddressTemplateIter { starts: templ.starts, ends: templ.ends, state: templ.starts, last: false }
    }

    /// Yields the next address as its five components, or `None` once every
    /// address was yielded. Each address comes one rank after the previous one
    /// and the enumeration ends after the address of the last rank.
    pub fn next_address(&mut self) -> (r: Option<[usize; 5]>)
        requires
            old(self).wf(),
        ensures
            final(self).wf(),
            final(self).lo() == old(self).lo(),
            final(self).hi() == old(self).hi(),
            old(self).is_done() ==> r is None && final(self).is_done() && final(self).current()
                == old(self).current(),
            !old(self).is_done() ==> {
                let (next, wrapped) = advance(old(self).lo(), old(self).hi(), old(self).current(), 4);
                &&& r matches Some(a) && a@ == old(self).current()
                &&& final(self).current() == next
                &&& final(self).is_done() == wrapped
                &&& wrapped <==> rank(old(self).lo(), old(self).hi(), old(self).current(), 5) == count(
                    old(self).lo(),
                    old(self).hi(),
                    5,
                ) - 1
                &&& !wrapped ==> rank(old(self).lo(), old(self).hi(), next, 5) == rank(
                    old(self).lo(),
                    old(self).hi(),
                    old(self).current(),
                    5,
                ) + 1
            },
    {
        if self.last {
            return None;
        }
        let ghost lo = self.lo();
        let ghost hi = self.hi();
        let ghost s0 = self.current();
        let ret = self.state;
        let mut st = self.state;
        let mut i: usize = 4;
        loop
            invariant_except_break
                advance(lo, hi, s0, 4) == advance(lo, hi, st@, i as nat),
            invariant
                i <= 4,
                lo == self.starts@,
                hi == self.ends@,
                lo == old(self).lo(),
                hi == old(self).hi(),
                s0 == old(self).current(),
                !old(self).is_done(),
                st@.len() == 5,
                ret@ == s0,
                !self.last,
                self.state@ == s0,
                ranges_nonempty(lo, hi),
                in_bounds(lo, hi, s0),
                in_bounds(lo, hi, st@),
            ensures
                (st@, false) == advance(lo, hi, s0, 4),
            decreases i,
        {
            if st[i] == self.ends[i] {
                st[i] = self.starts[i];
                if i == 0 {
                    self.state = st;
                    self.last = true;
                    proof {
                        lemma_advance(lo, hi, s0, 4);
                    }
                    return Some(ret);
                } else {
                    i -= 1;
                }
            } else {
                st[i] = st[i] + 1;
                break;
            }
        }
        self.state = st;
        proof {
            lemma_advance(lo, hi, s0, 4);
            lemma_rank_bounds(lo, hi, st@, 5);
        }
        Some(ret)
    }

    /// Yields the text `a.b.c.d:port` of the next address, or `None` once every
    /// address was yielded; the enumeration advances as in [`Self::next_address`].
    pub fn next(&mut self) -> (r: Option<String>)
        requires
            old(self).wf(),
        ensures
            final(self).wf(),
            final(self).lo() == old(self).lo(),
            final(self).hi() == old(self).hi(),
            old(self).is_done() ==> r is None && final(self).is_done() && final(self).current()
                == old(self).current(),
            !old(self).is_done() ==> {
                let (next, wrapped) = advance(old(self).lo(), old(self).hi(), old(self).current(), 4);
                &&& r matches Some(s) && s@ == address_text(old(self).current())
                &&& final(self).current() == next
                &&& final(self).is_done() == wrapped
            },
            next_step(*old(self), *final(self), r),
    {
        match self.next_address() {
            Some(a) => Some(format_address(&a)),
            None => None,
        }
    }
}

/// One call of [`IPV4AddressTemplateIter::next`] took the enumeration from `a`
/// to `b` and returned `r`, as its contract says.
pub open spec fn next_step(a: IPV4AddressTemplateIter, b: IPV4AddressTemplateIter, r: Option<String>) -> bool {
    &&& b.lo() == a.lo()
    &&& b.hi() == a.hi()
    &&& a.is_done() ==> r is None && b.is_done() && b.current() == a.current()
    &&& !a.is_done() ==> {
        let (next, wrapped) = advance(a.lo(), a.hi(), a.current(), 4);
        &&& r matches Some(s) && s@ == address_text(a.current())
        &&& b.current() == next
        &&& b.is_done() == wrapped
    }
}

/// Where the enumeration stands after `i` steps from the first address.
proof fn lemma_steps(its: Seq<IPV4AddressTemplateIter>, outs: Seq<Option<String>>, i: nat)
    requires
        its.len() == outs.len() + 1,
        i < its.len(),
        ranges_nonempty(its[0].lo(), its[0].hi()),
        its[0].lo().len() == 5,
        its[0].current() == its[0].lo(),
        !its[0].is_done(),
        forall|j: int| 0 <= j < outs.len() ==> #[trigger] next_step(its[j], its[j + 1], outs[j]),
    ensures
        its[i as int].lo() == its[0].lo(),
        its[i as int].hi() == its[0].hi(),
        i < count(its[0].lo(), its[0].hi(), 5) ==> !its[i as int].is_done()
            && its[i as int].current() == nth_state(its[0].lo(), its[0].hi(), i),
        i >= count(its[0].lo(), its[0].hi(), 5) ==> its[i as int].is_done(),
    decreases i,
{
    let lo = its[0].lo();
    let hi = its[0].hi();
    assert(in_bounds(lo, hi, lo));
    lemma_rank_bounds(lo, hi, lo, 5);
    if i > 0 {
        let p = (i - 1) as nat;
        lemma_steps(its, outs, p);
        assert(next_step(its[p as int], its[p as int + 1], outs[p as int]));
        if p < count(lo, hi, 5) {
            law_template_enumeration(lo, hi, p);
        }
    }
}

/// Successive calls of `next` on a fresh enumeration of a template whose
/// ranges are all nonempty yield the text of the address of rank `k` at call
/// `k`, for every `k` below the number of addresses, and `None` at every
/// later call; the addresses of distinct calls are distinct.
pub proof fn law_successive_next(its: Seq<IPV4AddressTemplateIter>, outs: Seq<Option<String>>)
    requires
        its.len() == outs.len() + 1,
        ranges_nonempty(its[0].lo(), its[0].hi()),
        its[0].current() == its[0].lo(),
        !its[0].is_done(),
        forall|j: int| 0 <= j < outs.len() ==> #[trigger] next_step(its[j], its[j + 1], outs[j]),
    ensures
        forall|k: int|
            0 <= k < outs.len() ==> (if k < count(its[0].lo(), its[0].hi(), 5) {
                #[trigger] outs[k] matches Some(s) && s@ == address_text(
                    nth_state(its[0].lo(), its[0].hi(), k as nat),
                )
            } else {
                outs[k] is None
            }),
        forall|k: int, l: int|
            0 <= k < l < count(its[0].lo(), its[0].hi(), 5) ==> #[trigger] nth_state(
                its[0].lo(),
                its[0].hi(),
                k as nat,
            ) != #[trigger] nth_state(its[0].lo(), its[0].hi(), l as nat),
{
    let lo = its[0].lo();
    let hi = its[0].hi();
    assert(lo.len() == 5);
    assert forall|k: int|
        0 <= k < outs.len() implies (if k < count(lo, hi, 5) {
            #[trigger] outs[k] matches Some(s) && s@ == address_text(nth_state(lo, hi, k as nat))
        } else {
            outs[k] is None
        }) by {
        lemma_steps(its, outs, k as nat);
        assert(next_step(its[k], its[k + 1], outs[k]));
    }
    assert forall|k: int, l: int|
        0 <= k < l < count(lo, hi, 5) implies #[trigger] nth_state(lo, hi, k as nat)
            != #[trigger] nth_state(lo, hi, l as nat) by {
        law_template_enumeration(lo, hi, k as nat);
        law_template_enumeration(lo, hi, l as nat);
    }
}

/// The 32-bit number whose big-endian bytes are `b`.
pub open spec fn u32_of_be(b: Seq<u8>) -> int {
    b[0] * 0x100_0000 + b[1] * 0x1_0000 + b[2] * 0x100 + b[3]
}

/// The 32-bit number whose little-endian bytes are `b`.
pub open spec fn u32_of_le(b: Seq<u8>) -> int {
    b[3] * 0x100_0000 + b[2] * 0x1_0000 + b[1] * 0x100 + b[0]
}

/// `u32::from_ne_bytes`: the bytes read in the machine's own byte order.
#[verifier::external_body]
fn u32_from_ne_bytes(b: [u8; 4]) -> (r: u32)
    ensures
        r == (match endianness() {
            Endian::Big => u32_of_be(b@),
            Endian::Little => u32_of_le(b@),
        }),
{
    u32::from_ne_bytes(b)
}

/// The number of consecutive one bits of `x` from bit `i` downwards.
pub open spec fn ones_from(x: u32, i: int) -> nat
    decreases i + 1,
{
    if i < 0 {
        0
    } else if (x >> (i as u32)) & 1 == 1 {
        1 + ones_from(x, i - 1)
    } else {
        0
    }
}

/// The number of leading one bits of `x`.
pub open spec fn leading_ones(x: u32) -> nat {
    ones_from(x, 31)
}

/// The number of leading one bits of `x`, as `u32::leading_ones` counts them.
pub fn count_leading_ones(x: u32) -> (r: u32)
    ensures
        r == leading_ones(x),
{
    let mut n: u32 = 0;
    let mut i: u32 = 32;
    while i > 0
        invariant
            i <= 32,
            n + i == 32,
            ones_from(x, 31) == n + ones_from(x, i - 1),
        decreases i,
    {
        if (x >> (i - 1)) & 1 == 1 {
            n += 1;
            i -= 1;
        } else {
            return n;
        }
    }
    n
}

/// The length of a subnet mask as the number of leading one bits of the mask
/// read in the machine's byte order (on a little-endian machine this is not
/// the prefix length of the mask).
pub fn get_netmask_bits(netmask: [u8; 4]) -> (r: u32)
    ensures
        r == leading_ones(
            (match endianness() {
                Endian::Big => u32_of_be(netmask@),
                Endian::Little => u32_of_le(netmask@),
            }) as u32,
        ),
{
    let mask_u32 = u32_from_ne_bytes(netmask);
    count_leading_ones(mask_u32)
}

} // verus!
