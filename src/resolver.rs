use vstd::prelude::*;
use crate::error::Error;
use crate::text::{split, split_spec};

verus! {

/// The port every resolver is queried on.
pub const DNS_PORT: u16 = 53;

pub open spec fn is_digit(c: char) -> bool {
    '0' <= c && c <= '9'
}

/// The decimal number written by `d`.
pub open spec fn digits_value(d: Seq<char>) -> nat
    decreases d.len(),
{
    if d.len() == 0 {
        0
    } else {
        digits_value(d.drop_last()) * 10 + (d.last() as nat - '0' as nat) as nat
    }
}

/// One to three decimal digits, without a leading zero, worth at most 255.
pub open spec fn valid_octet(d: Seq<char>) -> bool {
    &&& 1 <= d.len() <= 3
    &&& forall|i: int| 0 <= i < d.len() ==> is_digit(#[trigger] d[i])
    &&& (d.len() == 1 || d[0] != '0')
    &&& digits_value(d) <= 255
}

/// The address written as `a.b.c.d`, first octet most significant.
pub open spec fn ipv4_spec(s: Seq<char>) -> Option<u32> {
    let p = split_spec(s, '.');
    if p.len() == 4 && valid_octet(p[0]) && valid_octet(p[1]) && valid_octet(p[2]) && valid_octet(
        p[3],
    ) {
        Some(
            (digits_value(p[0]) * 0x100_0000 + digits_value(p[1]) * 0x1_0000 + digits_value(p[2])
                * 0x100 + digits_value(p[3])) as u32,
        )
    } else {
        None
    }
}

/// The addresses of a resolver list, in order, or the first segment that is
/// not an address.
pub open spec fn resolvers_spec(segs: Seq<Seq<char>>) -> Result<Seq<u32>, Seq<char>>
    decreases segs.len(),
{
    if segs.len() == 0 {
        Ok(Seq::empty())
    } else {
        match ipv4_spec(segs[0]) {
            None => Err(segs[0]),
            Some(a) => match resolvers_spec(segs.drop_first()) {
                Ok(rest) => Ok(seq![a] + rest),
                Err(e) => Err(e),
            },
        }
    }
}

/// `e` reports `seg` as a resolver segment that is not an address.
pub open spec fn is_invalid_resolver(e: Error, seg: Seq<char>) -> bool {
    match e {
        Error::InvalidResolverAddress(t) => t@ == seg,
        _ => false,
    }
}

/// Reads one octet of a dotted-quad address.
pub fn parse_octet(s: &str) -> (r: Option<u32>)
    ensures
        r == (if valid_octet(s@) {
            Some(digits_value(s@) as u32)
        } else {
            None::<u32>
        }),
{
    let n = s.unicode_len();
    if n == 0 || n > 3 {
        return None;
    }
    let mut v: u32 = 0;
    let mut i: usize = 0;
    assert(s@.take(0) =~= Seq::<char>::empty());
    while i < n
        invariant
            n == s@.len(),
            1 <= n <= 3,
            i <= n,
            forall|j: int| 0 <= j < i ==> is_digit(#[trigger] s@[j]),
            v == digits_value(s@.take(i as int)),
            i == 0 ==> v == 0,
            i == 1 ==> v < 10,
            i == 2 ==> v < 100,
            i == 3 ==> v < 1000,
        decreases n - i,
    {
        let c = s.get_char(i);
        if !('0' <= c && c <= '9') {
            assert(!is_digit(s@[i as int]));
            return None;
        }
        assert(s@.take(i + 1).drop_last() =~= s@.take(i as int));
        v = v * 10 + (c as u32 - '0' as u32);
        i = i + 1;
    }
    assert(s@.take(n as int) =~= s@);
    if n > 1 && s.get_char(0) == '0' {
        return None;
    }
    if v > 255 {
        return None;
    }
    Some(v)
}

/// Reads an IPv4 address written as `a.b.c.d`.
pub fn parse_ipv4(s: &str) -> (r: Option<u32>)
    ensures
        r == ipv4_spec(s@),
{
    let parts = split(s, '.');
    let ghost p = split_spec(s@, '.');
    if parts.len() != 4 {
        return None;
    }
    assert(parts@.map_values(|q: String| q@)[0] == p[0]);
    assert(parts@.map_values(|q: String| q@)[1] == p[1]);
    assert(parts@.map_values(|q: String| q@)[2] == p[2]);
    assert(parts@.map_values(|q: String| q@)[3] == p[3]);
    let a = parse_octet(parts[0].as_str());
    let b = parse_octet(parts[1].as_str());
    let c = parse_octet(parts[2].as_str());
    let d = parse_octet(parts[3].as_str());
    match (a, b, c, d) {
        (Some(a), Some(b), Some(c), Some(d)) => Some(a * 0x100_0000 + b * 0x1_0000 + c * 0x100 + d),
        _ => None,
    }
}

/// Reads a comma-separated list of resolver addresses; the first segment
/// that is not an address is reported.
pub fn parse_resolver_list(list: &str) -> (r: Result<Vec<u32>, Error>)
    ensures
        match resolvers_spec(split_spec(list@, ',')) {
            Ok(v) => r is Ok && r->Ok_0@ == v,
            Err(seg) => r is Err && is_invalid_resolver(r->Err_0, seg),
        },
{
    let parts = split(list, ',');
    let ghost segs = split_spec(list@, ',');
    let mut addrs: Vec<u32> = Vec::new();
    let mut i: usize = 0;
    assert(segs.skip(0) =~= segs);
    assert(addrs@ + Seq::<u32>::empty() =~= addrs@);
    while i < parts.len()
        invariant
            segs == split_spec(list@, ','),
            parts@.map_values(|q: String| q@) == segs,
            i <= parts.len(),
            resolvers_spec(segs) == match resolvers_spec(segs.skip(i as int)) {
                Ok(rest) => Ok(addrs@ + rest),
                Err(e) => Err::<Seq<u32>, Seq<char>>(e),
            },
        decreases parts.len() - i,
    {
        assert(parts@.map_values(|q: String| q@)[i as int] == segs[i as int]);
        assert(segs.skip(i as int).drop_first() =~= segs.skip(i + 1));
        assert(segs.skip(i as int)[0] == segs[i as int]);
        match parse_ipv4(parts[i].as_str()) {
            None => {
                let seg = parts[i].clone();
                assert(seg@ == segs[i as int]);
                assert(resolvers_spec(segs.skip(i as int)) == Err::<Seq<u32>, Seq<char>>(
                    segs[i as int],
                ));
                return Err(Error::InvalidResolverAddress(seg));
            },
            Some(a) => {
                proof {
                    match resolvers_spec(segs.skip(i + 1)) {
                        Ok(rest) => {
                            assert(addrs@ + (seq![a] + rest) =~= addrs@.push(a) + rest);
                        },
                        Err(_) => {},
                    }
                }
                addrs.push(a);
            },
        }
        i = i + 1;
    }
    assert(segs.skip(i as int) =~= Seq::<Seq<char>>::empty());
    assert(addrs@ + Seq::<u32>::empty() =~= addrs@);
    Ok(addrs)
}

/// Which resolvers the lookups go to.
#[derive(Clone, Debug)]
pub enum ResolverConfig {
    /// The built-in public resolvers.
    Default,
    /// The given addresses, in the order given.
    Custom(Vec<u32>),
}

/// The resolvers of a comma-separated address list, in the order given.
pub fn resolver_config_from_string(resolver_list: &str) -> (r: Result<ResolverConfig, Error>)
    ensures
        match resolvers_spec(split_spec(resolver_list@, ',')) {
            Ok(v) => r is Ok && r->Ok_0 is Custom && r->Ok_0->Custom_0@ == v,
            Err(seg) => r is Err && is_invalid_resolver(r->Err_0, seg),
        },
{
    match parse_resolver_list(resolver_list) {
        Ok(v) => Ok(ResolverConfig::Custom(v)),
        Err(e) => Err(e),
    }
}

/// Builds the resolver configuration: the built-in resolvers when no list is
/// given, else the addresses of the list.
pub fn build_resolver_config(resolver_list: Option<&str>) -> (r: Result<ResolverConfig, Error>)
    ensures
        match resolver_list {
            None => r is Ok && r->Ok_0 is Default,
            Some(l) => match resolvers_spec(split_spec(l@, ',')) {
                Ok(v) => r is Ok && r->Ok_0 is Custom && r->Ok_0->Custom_0@ == v,
                Err(seg) => r is Err && is_invalid_resolver(r->Err_0, seg),
            },
        },
{
    match resolver_list {
        None => Ok(ResolverConfig::Default),
        Some(l) => resolver_config_from_string(l),
    }
}

} // verus!
