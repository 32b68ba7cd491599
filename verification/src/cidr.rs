//! Subnets in CIDR notation, `A.B.C.D/N`, and the hosts they offer.

use vstd::prelude::*;
use vstd::arithmetic::power2::{lemma2_to64, lemma_pow2_pos, lemma_pow2_strictly_increases, pow2};
use crate::addr::{Ipv4Address, be_value, ip_to_u32, u32_to_ip};
use crate::text::{chars_of, fields, split, views};

verus! {

/// Why a text is not a subnet.
#[derive(Clone, Copy, Debug, PartialEq, Eq)]
pub enum CidrError {
    /// The text is not an address part and a prefix part with one `/`
    /// between them.
    BadFormat,
    /// The address part is not four octets, each from 0 to 255, with dots
    /// between them.
    BadAddress,
    /// The prefix part is not a number from 0 to 32.
    BadPrefix,
}

/// Whether a character is one of `0` to `9`.
pub open spec fn is_digit(c: char) -> bool {
    '0' <= c <= '9'
}

/// The number that a digit stands for.
pub open spec fn digit_value(c: char) -> int {
    c as int - '0' as int
}

/// Whether a text holds digits only.
pub open spec fn all_digits(s: Seq<char>) -> bool {
    forall|i: int| 0 <= i < s.len() ==> is_digit(#[trigger] s[i])
}

/// The number that a run of digits spells in base ten.
pub open spec fn decimal(s: Seq<char>) -> nat
    decreases s.len(),
{
    if s.len() == 0 {
        0
    } else {
        (10 * decimal(s.drop_last()) + digit_value(s.last())) as nat
    }
}

/// The octet that a text spells: one to three digits, without a leading
/// zero before another digit, worth at most 255.
pub open spec fn octet_of(s: Seq<char>) -> Option<u8> {
    if 1 <= s.len() <= 3 && all_digits(s) && (s.len() == 1 || s[0] != '0') && decimal(s) <= 255 {
        Some(decimal(s) as u8)
    } else {
        None
    }
}

/// The address that a text spells: four octets with dots between them.
pub open spec fn address_of(s: Seq<char>) -> Option<Seq<u8>> {
    let f = fields(s, '.');
    if f.len() == 4 && octet_of(f[0]) is Some && octet_of(f[1]) is Some && octet_of(f[2]) is Some
        && octet_of(f[3]) is Some {
        Some(seq![octet_of(f[0])->0, octet_of(f[1])->0, octet_of(f[2])->0, octet_of(f[3])->0])
    } else {
        None
    }
}

/// The digits of a prefix part: the text itself, or what follows a leading
/// plus sign.
pub open spec fn unsigned_digits(s: Seq<char>) -> Seq<char> {
    if s.len() > 0 && s[0] == '+' {
        s.skip(1)
    } else {
        s
    }
}

/// The prefix length that a text spells: at least one digit, after an
/// optional plus sign, worth at most 32. Leading zeros do not count.
pub open spec fn prefix_of(s: Seq<char>) -> Option<u8> {
    let d = unsigned_digits(s);
    if d.len() >= 1 && all_digits(d) && decimal(d) <= 32 {
        Some(decimal(d) as u8)
    } else {
        None
    }
}

/// What a text means as a subnet: the octets of its address and its prefix
/// length, or the first reason why it is none.
pub open spec fn cidr_of(s: Seq<char>) -> Result<(Seq<u8>, u8), CidrError> {
    let parts = fields(s, '/');
    if parts.len() != 2 {
        Err(CidrError::BadFormat)
    } else {
        match address_of(parts[0]) {
            None => Err(CidrError::BadAddress),
            Some(octets) => match prefix_of(parts[1]) {
                None => Err(CidrError::BadPrefix),
                Some(n) => Ok((octets, n)),
            },
        }
    }
}

/// The value of one more digit behind a run of digits.
proof fn lemma_decimal_push(s: Seq<char>, i: int)
    requires
        0 <= i < s.len(),
        is_digit(s[i]),
    ensures
        decimal(s.take(i + 1)) == 10 * decimal(s.take(i)) + digit_value(s[i]),
{
    assert(s.take(i + 1).drop_last() =~= s.take(i));
}

fn digit_of(c: char) -> (r: Option<u8>)
    ensures
        r is Some <==> is_digit(c),
        r is Some ==> r->0 == digit_value(c),
{
    if c >= '0' && c <= '9' {
        Some((c as u32 - '0' as u32) as u8)
    } else {
        None
    }
}

/// Reads one octet of a dotted address.
pub fn parse_octet(piece: &Vec<char>) -> (r: Option<u8>)
    ensures
        r == octet_of(piece@),
{
    let n = piece.len();
    if n == 0 || n > 3 {
        return None;
    }
    let mut acc: u32 = 0;
    let mut i: usize = 0;
    while i < n
        invariant
            i <= n <= 3,
            n == piece@.len(),
            all_digits(piece@.take(i as int)),
            acc == decimal(piece@.take(i as int)),
            acc <= 999,
            i < 3 ==> acc <= 99,
            i < 2 ==> acc <= 9,
            i < 1 ==> acc == 0,
        decreases n - i,
    {
        match digit_of(piece[i]) {
            None => {
                assert(!is_digit(piece@[i as int]));
                return None;
            },
            Some(d) => {
                proof {
                    lemma_decimal_push(piece@, i as int);
                    assert forall|j: int| 0 <= j < i + 1 implies is_digit(
                        #[trigger] piece@.take(i + 1)[j],
                    ) by {
                        if j < i {
                            assert(piece@.take(i as int)[j] == piece@[j]);
                        }
                    }
                }
                acc = acc * 10 + d as u32;
            },
        }
        i += 1;
    }
    assert(piece@.take(n as int) =~= piece@);
    if n > 1 && piece[0] == '0' {
        return None;
    }
    if acc > 255 {
        None
    } else {
        Some(acc as u8)
    }
}

/// Reads a dotted address.
pub fn parse_address(text: &Vec<char>) -> (r: Option<Ipv4Address>)
    ensures
        r is Some <==> address_of(text@) is Some,
        r is Some ==> r->0@ == address_of(text@)->0,
{
    let pieces = split(text, '.');
    assert(views(pieces@).len() == pieces@.len());
    if pieces.len() != 4 {
        return None;
    }
    assert(views(pieces@)[0] == pieces@[0]@);
    assert(views(pieces@)[1] == pieces@[1]@);
    assert(views(pieces@)[2] == pieces@[2]@);
    assert(views(pieces@)[3] == pieces@[3]@);
    let a = match parse_octet(&pieces[0]) {
        Some(v) => v,
        None => { return None; },
    };
    let b = match parse_octet(&pieces[1]) {
        Some(v) => v,
        None => { return None; },
    };
    let c = match parse_octet(&pieces[2]) {
        Some(v) => v,
        None => { return None; },
    };
    let d = match parse_octet(&pieces[3]) {
        Some(v) => v,
        None => { return None; },
    };
    Some(Ipv4Address::new(a, b, c, d))
}

/// Reads a prefix length.
pub fn parse_prefix_len(text: &Vec<char>) -> (r: Option<u8>)
    ensures
        r == prefix_of(text@),
{
    let n = text.len();
    let start: usize = if n > 0 && text[0] == '+' { 1 } else { 0 };
    let ghost d = unsigned_digits(text@);
    assert(d =~= text@.skip(start as int));
    if start == n {
        return None;
    }
    let mut acc: u32 = 0;
    let mut over: bool = false;
    let mut i: usize = start;
    while i < n
        invariant
            start <= i <= n,
            n == text@.len(),
            d == text@.skip(start as int),
            d == unsigned_digits(text@),
            all_digits(d.take(i - start)),
            over <==> decimal(d.take(i - start)) > 32,
            !over ==> acc == decimal(d.take(i - start)),
            acc <= 32,
        decreases n - i,
    {
        match digit_of(text[i]) {
            None => {
                assert(d[i - start] == text@[i as int]);
                assert(!is_digit(d[i - start]));
                return None;
            },
            Some(v) => {
                proof {
                    assert(d[i - start] == text@[i as int]);
                    lemma_decimal_push(d, i - start);
                    assert forall|j: int| 0 <= j < i - start + 1 implies is_digit(
                        #[trigger] d.take(i - start + 1)[j],
                    ) by {
                        if j < i - start {
                            assert(d.take(i - start)[j] == d[j]);
                        }
                    }
                }
                if !over {
                    let next: u32 = acc * 10 + v as u32;
                    if next > 32 {
                        over = true;
                    } else {
                        acc = next;
                    }
                }
            },
        }
        i += 1;
    }
    assert(d.take(n - start) =~= d);
    if over {
        None
    } else {
        Some(acc as u8)
    }
}

/// Four texts with dots between them.
pub open spec fn dotted(a: Seq<char>, b: Seq<char>, c: Seq<char>, d: Seq<char>) -> Seq<char> {
    a + seq!['.'] + b + seq!['.'] + c + seq!['.'] + d
}

/// Two texts with a slash between them.
pub open spec fn slashed(address: Seq<char>, prefix: Seq<char>) -> Seq<char> {
    address + seq!['/'] + prefix
}

/// Whether `c` stands nowhere in `s`.
pub open spec fn free_of(s: Seq<char>, c: char) -> bool {
    forall|i: int| 0 <= i < s.len() ==> s[i] != c
}

/// The text of an octet holds digits only.
pub proof fn lemma_octet_is_plain(s: Seq<char>)
    requires
        octet_of(s) is Some,
    ensures
        free_of(s, '.'),
        free_of(s, '/'),
{
    assert forall|i: int| 0 <= i < s.len() implies s[i] != '.' && s[i] != '/' by {
        assert(is_digit(s[i]));
    }
}

/// The text of a prefix length holds no slash.
pub proof fn lemma_prefix_is_plain(s: Seq<char>)
    requires
        prefix_of(s) is Some,
    ensures
        free_of(s, '/'),
{
    let d = unsigned_digits(s);
    assert forall|i: int| 0 <= i < s.len() implies s[i] != '/' by {
        if d == s {
            assert(is_digit(d[i]));
        } else if i > 0 {
            assert(d[i - 1] == s[i]);
            assert(is_digit(d[i - 1]));
        }
    }
}

/// Four texts without a dot, with dots between them, spell an address
/// where each of them spells an octet, and only then.
pub proof fn lemma_dotted_address(a: Seq<char>, b: Seq<char>, c: Seq<char>, d: Seq<char>)
    requires
        free_of(a, '.'),
        free_of(b, '.'),
        free_of(c, '.'),
        free_of(d, '.'),
    ensures
        address_of(dotted(a, b, c, d)) == if octet_of(a) is Some && octet_of(b) is Some && octet_of(
            c,
        ) is Some && octet_of(d) is Some {
            Some(seq![octet_of(a)->0, octet_of(b)->0, octet_of(c)->0, octet_of(d)->0])
        } else {
            None
        },
{
    let s = dotted(a, b, c, d);
    let bcd = b + seq!['.'] + c + seq!['.'] + d;
    let cd = c + seq!['.'] + d;
    assert(s =~= a + seq!['.'] + bcd);
    assert(bcd =~= b + seq!['.'] + cd);
    crate::text::lemma_fields_first(a, '.', bcd);
    crate::text::lemma_fields_first(b, '.', cd);
    crate::text::lemma_fields_first(c, '.', d);
    crate::text::lemma_fields_whole(d, '.');
    assert(fields(s, '.') =~= seq![a, b, c, d]);
}

/// An address part and a prefix part without a slash, with a slash between
/// them, mean what the parts mean: the address is looked at first, then
/// the prefix length.
pub proof fn lemma_slashed_cidr(address: Seq<char>, prefix: Seq<char>)
    requires
        free_of(address, '/'),
        free_of(prefix, '/'),
    ensures
        cidr_of(slashed(address, prefix)) == match address_of(address) {
            None => Err::<(Seq<u8>, u8), CidrError>(CidrError::BadAddress),
            Some(octets) => match prefix_of(prefix) {
                None => Err(CidrError::BadPrefix),
                Some(n) => Ok((octets, n)),
            },
        },
{
    crate::text::lemma_fields_first(address, '/', prefix);
    crate::text::lemma_fields_whole(prefix, '/');
    assert(fields(slashed(address, prefix), '/') =~= seq![address, prefix]);
}

/// Every text of the shape `A.B.C.D/N`, with four octets and a prefix
/// length of at most 32, is a subnet with that address and that prefix
/// length.
pub proof fn lemma_valid_cidr(
    a: Seq<char>,
    b: Seq<char>,
    c: Seq<char>,
    d: Seq<char>,
    n: Seq<char>,
)
    requires
        octet_of(a) is Some,
        octet_of(b) is Some,
        octet_of(c) is Some,
        octet_of(d) is Some,
        prefix_of(n) is Some,
    ensures
        cidr_of(slashed(dotted(a, b, c, d), n)) == Ok::<(Seq<u8>, u8), CidrError>(
            (
                seq![octet_of(a)->0, octet_of(b)->0, octet_of(c)->0, octet_of(d)->0],
                prefix_of(n)->0,
            ),
        ),
        prefix_of(n)->0 <= 32,
{
    lemma_octet_is_plain(a);
    lemma_octet_is_plain(b);
    lemma_octet_is_plain(c);
    lemma_octet_is_plain(d);
    lemma_prefix_is_plain(n);
    lemma_dotted_address(a, b, c, d);
    lemma_slashed_cidr(dotted(a, b, c, d), n);
}

/// A text without a slash is no subnet, and neither is one with more
/// than one slash: both are ill-formed.
pub proof fn lemma_slash_count(s: Seq<char>, a: Seq<char>, b: Seq<char>, c: Seq<char>)
    ensures
        free_of(s, '/') ==> cidr_of(s) == Err::<(Seq<u8>, u8), CidrError>(CidrError::BadFormat),
        free_of(a, '/') ==> cidr_of(a + seq!['/'] + b + seq!['/'] + c) == Err::<
            (Seq<u8>, u8),
            CidrError,
        >(CidrError::BadFormat),
{
    if free_of(s, '/') {
        crate::text::lemma_fields_whole(s, '/');
    }
    if free_of(a, '/') {
        let rest = b + seq!['/'] + c;
        assert(a + seq!['/'] + b + seq!['/'] + c =~= a + seq!['/'] + rest);
        crate::text::lemma_fields_first(a, '/', rest);
        assert(rest[b.len() as int] == '/');
        crate::text::lemma_fields_some(rest, '/');
    }
}

/// The number of addresses in a block with the given prefix length.
pub open spec fn block_size(prefix: nat) -> nat {
    pow2((32 - prefix) as nat)
}

/// The number of addresses of a block that a scan may probe: all but the
/// first, which names the network, and the last, which is its broadcast
/// address. A block of one or two addresses offers none.
pub open spec fn host_total(prefix: nat) -> nat {
    if block_size(prefix) >= 2 {
        (block_size(prefix) - 2) as nat
    } else {
        0
    }
}

/// The first address of the block that holds `base`: `base` with the bits
/// behind the prefix cleared.
pub open spec fn network_value(base: int, prefix: nat) -> int {
    base - base % (block_size(prefix) as int)
}

/// The `index`-th address that a scan may probe, counted from zero.
pub open spec fn host_value(base: int, prefix: nat, index: int) -> int {
    network_value(base, prefix) + 1 + index
}

/// The addresses that a scan may probe, in ascending order.
pub open spec fn host_values(base: int, prefix: nat) -> Seq<int> {
    Seq::new(host_total(prefix), |i: int| host_value(base, prefix, i))
}

/// A block lies within the 32-bit address space, and starts at a multiple
/// of its size that is not above the base.
pub proof fn lemma_block_bounds(base: int, prefix: nat)
    requires
        0 <= base <= u32::MAX,
        prefix <= 32,
    ensures
        1 <= block_size(prefix) <= 0x1_0000_0000,
        0 <= network_value(base, prefix) <= base,
        network_value(base, prefix) + block_size(prefix) <= 0x1_0000_0000,
        network_value(base, prefix) % (block_size(prefix) as int) == 0,
{
    let block = block_size(prefix) as int;
    let count = pow2(prefix) as int;
    lemma2_to64();
    lemma_pow2_pos((32 - prefix) as nat);
    lemma_pow2_pos(prefix);
    vstd::arithmetic::power2::lemma_pow2_adds((32 - prefix) as nat, prefix);
    assert(block * count == 0x1_0000_0000);
    if prefix > 0 {
        lemma_pow2_strictly_increases((32 - prefix) as nat, 32);
    }
    let q = base / block;
    let r = base % block;
    vstd::arithmetic::div_mod::lemma_fundamental_div_mod(base, block);
    vstd::arithmetic::div_mod::lemma_mod_bound(base, block);
    assert(base == block * q + r);
    assert(network_value(base, prefix) == block * q);
    assert(q < count) by (nonlinear_arith)
        requires
            block * q <= base,
            base < block * count,
            block > 0,
    ;
    assert(block * q + block <= block * count) by (nonlinear_arith)
        requires
            q + 1 <= count,
            block > 0,
    ;
    assert(0 <= q) by (nonlinear_arith)
        requires
            base == block * q + r,
            0 <= r < block,
            0 <= base,
            block > 0,
    ;
    assert(0 <= block * q) by (nonlinear_arith)
        requires
            0 <= q,
            block > 0,
    ;
    vstd::arithmetic::div_mod::lemma_mod_multiples_basic(q, block);
    assert(block * q == q * block) by (nonlinear_arith);
}

/// What a scan of a subnet probes: as many addresses as the block holds
/// less two, none where the block holds fewer; in ascending order without
/// a gap; all of them above the network address and below the broadcast
/// address of the block.
pub proof fn lemma_hosts(base: int, prefix: nat)
    requires
        0 <= base <= u32::MAX,
        prefix <= 32,
    ensures
        ({
            let hosts = host_values(base, prefix);
            let size = pow2((32 - prefix) as nat) as int;
            let network = network_value(base, prefix);
            &&& hosts.len() == if size >= 2 { size - 2 } else { 0 }
            &&& prefix >= 31 ==> hosts.len() == 0
            &&& forall|i: int| 0 <= i < hosts.len() ==> #[trigger] hosts[i] == network + 1 + i
            &&& forall|i: int|
                0 <= i < hosts.len() ==> network < #[trigger] hosts[i] < network + size - 1
            &&& forall|i: int| 0 <= i < hosts.len() ==> 0 < #[trigger] hosts[i] < u32::MAX
        }),
{
    lemma_block_bounds(base, prefix);
    lemma2_to64();
}

/// The bits of an address that lie behind a prefix of the given length.
pub open spec fn host_mask(prefix: u32) -> u32 {
    if prefix >= 32 {
        0
    } else {
        0xFFFF_FFFFu32 >> prefix
    }
}

/// The bits behind a prefix are all the numbers below the size of the
/// block.
proof fn lemma_host_mask(prefix: u32)
    requires
        prefix <= 32,
    ensures
        host_mask(prefix) == block_size(prefix as nat) - 1,
{
    lemma2_to64();
    if prefix < 32 {
        let size = pow2((32 - prefix) as nat) as int;
        let count = pow2(prefix as nat) as int;
        lemma_pow2_pos((32 - prefix) as nat);
        lemma_pow2_pos(prefix as nat);
        vstd::arithmetic::power2::lemma_pow2_adds((32 - prefix) as nat, prefix as nat);
        vstd::bits::lemma_u32_shr_is_div(0xFFFF_FFFFu32, prefix);
        assert(0xFFFF_FFFF == (size - 1) * count + (count - 1)) by (nonlinear_arith)
            requires
                size * count == 0x1_0000_0000,
        ;
        vstd::arithmetic::div_mod::lemma_fundamental_div_mod_converse(
            0xFFFF_FFFF,
            count,
            size - 1,
            count - 1,
        );
    }
}

/// The first address of a block is the base with the bits behind the
/// prefix cleared: `base & !(0xFFFFFFFF >> prefix)`, where a shift by all
/// 32 bits leaves nothing.
pub proof fn lemma_network_is_masked(base: u32, prefix: u32)
    requires
        prefix <= 32,
    ensures
        network_value(base as int, prefix as nat) == base & !host_mask(prefix),
{
    let mask = host_mask(prefix);
    lemma_host_mask(prefix);
    lemma2_to64();
    assert((base & !mask) + (base & mask) == base) by (bit_vector);
    if prefix == 0 {
        assert(base & 0xFFFF_FFFFu32 == base) by (bit_vector);
        assert(base as int % 0x1_0000_0000 == base);
    } else {
        let bits = (32 - prefix) as nat;
        vstd::bits::lemma_u32_low_bits_mask_is_mod(base, bits);
        vstd::bits::lemma_u32_pow2_no_overflow(bits);
        assert(vstd::bits::low_bits_mask(bits) as u32 == mask);
    }
}

/// A block of addresses: a base address and the length of the prefix that
/// all addresses of the block share with it.
#[derive(Clone, Copy, Debug, PartialEq, Eq)]
pub struct Subnet {
    base: Ipv4Address,
    prefix_len: u8,
}

/// What a subnet is: the number that its base address spells, and its
/// prefix length.
pub struct SubnetView {
    pub base: int,
    pub prefix: nat,
}

impl View for Subnet {
    type V = SubnetView;

    closed spec fn view(&self) -> SubnetView {
        SubnetView { base: self.base.value(), prefix: self.prefix_len as nat }
    }
}

impl Subnet {
    /// The prefix is at most 32 bits long.
    pub open spec fn wf(&self) -> bool {
        &&& 0 <= self@.base <= u32::MAX
        &&& self@.prefix <= 32
    }

    /// The subnet of `base` with the given prefix length, if that is at
    /// most 32.
    pub fn new(base: Ipv4Address, prefix_len: u8) -> (r: Option<Subnet>)
        ensures
            r is Some <==> prefix_len <= 32,
            r is Some ==> r->0.wf() && r->0@.base == base.value() && r->0@.prefix == prefix_len,
    {
        if prefix_len <= 32 {
            Some(Subnet { base, prefix_len })
        } else {
            None
        }
    }

    /// The address the subnet was written with.
    pub fn base_address(&self) -> (r: Ipv4Address)
        ensures
            r.value() == self@.base,
    {
        self.base
    }

    /// The number of leading bits that all addresses of the subnet share.
    pub fn prefix_len(&self) -> (r: u8)
        ensures
            r == self@.prefix,
    {
        self.prefix_len
    }

    /// The number of addresses in the subnet, the network and broadcast
    /// addresses included.
    pub fn block_size(&self) -> (r: u64)
        requires
            self.wf(),
        ensures
            r == block_size(self@.prefix),
    {
        let shift: u64 = (32 - self.prefix_len) as u64;
        proof {
            vstd::bits::lemma_u64_pow2_no_overflow(shift as nat);
            vstd::bits::lemma_u64_shl_is_mul(1, shift);
        }
        1u64 << shift
    }

    /// The first address of the subnet: the base address with the bits
    /// behind the prefix cleared.
    pub fn network(&self) -> (r: Ipv4Address)
        requires
            self.wf(),
        ensures
            r.value() == network_value(self@.base, self@.prefix),
    {
        let base: u32 = ip_to_u32(self.base);
        let mask: u32 = if self.prefix_len >= 32 {
            0
        } else {
            0xFFFF_FFFFu32 >> (self.prefix_len as u32)
        };
        proof {
            lemma_network_is_masked(base, self.prefix_len as u32);
        }
        u32_to_ip(base & !mask)
    }

    /// The number of addresses that a scan of the subnet probes.
    pub fn host_count(&self) -> (r: u64)
        requires
            self.wf(),
        ensures
            r == host_total(self@.prefix),
            r == host_values(self@.base, self@.prefix).len(),
    {
        let block = self.block_size();
        if block >= 2 {
            block - 2
        } else {
            0
        }
    }

    /// The `index`-th address that a scan of the subnet probes, counted
    /// from zero.
    pub fn host(&self, index: u64) -> (r: Ipv4Address)
        requires
            self.wf(),
            index < host_total(self@.prefix),
        ensures
            r.value() == host_value(self@.base, self@.prefix, index as int),
    {
        let network: u64 = ip_to_u32(self.network()) as u64;
        proof {
            lemma_block_bounds(self@.base, self@.prefix);
        }
        u32_to_ip((network + 1 + index) as u32)
    }

    /// The `index`-th address that a scan of the subnet probes, counted
    /// from zero, where there are that many.
    pub fn host_at(&self, index: u64) -> (r: Option<Ipv4Address>)
        requires
            self.wf(),
        ensures
            r is Some <==> index < host_total(self@.prefix),
            r is Some ==> r->0.value() == host_value(self@.base, self@.prefix, index as int),
    {
        if index < self.host_count() {
            Some(self.host(index))
        } else {
            None
        }
    }

    /// The addresses that a scan of the subnet probes, from the lowest on.
    pub fn hosts(&self) -> (r: HostRange)
        requires
            self.wf(),
        ensures
            r.wf(),
            r@ == host_values(self@.base, self@.prefix),
    {
        let count = self.host_count();
        let network: u64 = ip_to_u32(self.network()) as u64;
        proof {
            lemma_block_bounds(self@.base, self@.prefix);
        }
        let r = HostRange { next: network + 1, left: count };
        assert(r@ =~= host_values(self@.base, self@.prefix));
        r
    }
}

/// A run of consecutive addresses that hands them out one by one, lowest
/// first. A subnet gives a fresh run each time it is asked.
#[derive(Clone, Debug, PartialEq, Eq)]
pub struct HostRange {
    next: u64,
    left: u64,
}

impl View for HostRange {
    type V = Seq<int>;

    /// The addresses not yet handed out.
    closed spec fn view(&self) -> Seq<int> {
        Seq::new(self.left as nat, |i: int| self.next + i)
    }
}

impl HostRange {
    /// Every address left is a 32-bit address.
    pub closed spec fn wf(&self) -> bool {
        self.next + self.left <= 0x1_0000_0000
    }

    /// The number of addresses not yet handed out.
    pub fn remaining(&self) -> (r: u64)
        ensures
            r == self@.len(),
    {
        self.left
    }

    /// Hands out the lowest address left, or nothing where none is left.
    pub fn next_host(&mut self) -> (r: Option<Ipv4Address>)
        requires
            old(self).wf(),
        ensures
            final(self).wf(),
            old(self)@.len() == 0 ==> r is None && final(self)@ == old(self)@,
            old(self)@.len() > 0 ==> r is Some && r->0.value() == old(self)@[0] && final(self)@
                == old(self)@.drop_first(),
    {
        if self.left == 0 {
            return None;
        }
        let ip = u32_to_ip(self.next as u32);
        self.next = self.next + 1;
        self.left = self.left - 1;
        assert(self@ =~= old(self)@.drop_first());
        Some(ip)
    }
}

/// Reads a subnet in the notation `A.B.C.D/N`.
///
/// The text must hold exactly one `/`. What stands before it must be four
/// octets from 0 to 255 with dots between them, each written without a
/// leading zero before another digit. What stands behind it must be a
/// number from 0 to 32 in digits, which a plus sign may precede. Nothing
/// else may stand in the text, blanks included.
pub fn parse_cidr(text: &str) -> (r: Result<Subnet, CidrError>)
    ensures
        match r {
            Ok(subnet) => cidr_of(text@) is Ok && subnet.wf() && subnet@.base == be_value(
                cidr_of(text@)->Ok_0.0,
            ) && subnet@.prefix == cidr_of(text@)->Ok_0.1,
            Err(e) => cidr_of(text@) == Err::<(Seq<u8>, u8), CidrError>(e),
        },
{
    let chars = chars_of(text);
    let parts = split(&chars, '/');
    assert(views(parts@).len() == parts@.len());
    if parts.len() != 2 {
        return Err(CidrError::BadFormat);
    }
    assert(views(parts@)[0] == parts@[0]@);
    assert(views(parts@)[1] == parts@[1]@);
    let base = match parse_address(&parts[0]) {
        Some(ip) => ip,
        None => { return Err(CidrError::BadAddress); },
    };
    let prefix_len = match parse_prefix_len(&parts[1]) {
        Some(n) => n,
        None => { return Err(CidrError::BadPrefix); },
    };
    Ok(Subnet { base, prefix_len })
}

} // verus!
