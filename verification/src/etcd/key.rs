//! The keys under which the registry holds the configuration and the leases.
use vstd::prelude::*;

use crate::addr::{
    addr_text, address_text_spells_the_octets, address_text_tells_addresses_apart, cidr_text, network_eq, network_of_parts, octet, Ipv4Addr, Ipv4Network, Ipv6Network,
};
use crate::error::FlannelError;
use crate::text::{
    decimal, decimal_is_solid, decimal_spells_the_number, decimal_text, join_path,
    joined_path_keeps_its_parts, path_join, separator_tells_apart,
};

verus! {

broadcast use network_of_parts;

/// A subnet's part of its key: `172.17.43.0-24`.
pub open spec fn label(addr: Ipv4Addr, prefix: u8) -> Seq<char> {
    addr_text(addr) + seq!['-'] + decimal(prefix as nat)
}

/// The key of the configuration.
pub open spec fn config_key_text(prefix: Seq<char>) -> Seq<char> {
    path_join(prefix, "config"@)
}

/// The key that all leases' keys extend.
pub open spec fn subnets_key_text(prefix: Seq<char>) -> Seq<char> {
    path_join(prefix, "subnets"@)
}

/// The key of a subnet's lease.
pub open spec fn subnet_key_text(prefix: Seq<char>, sn: Ipv4Network) -> Seq<char> {
    path_join(subnets_key_text(prefix), label(sn.ip(), sn.prefix()))
}

/// What the key of a lease ends in: an IPv4 subnet, and an IPv6 subnet after an ampersand.
pub open spec fn key_pattern() -> Seq<char> {
    "(\\d+\\.\\d+.\\d+.\\d+)-(\\d+)(?:&([a-f\\d:]+)-(\\d+))?$"@
}

/// The key of the configuration.
pub fn config_key(prefix: &str) -> (r: String)
    ensures
        r@ == config_key_text(prefix@),
{
    join_path(prefix, "config")
}

/// The key that all leases' keys extend.
pub fn subnets_key(prefix: &str) -> (r: String)
    ensures
        r@ == subnets_key_text(prefix@),
{
    join_path(prefix, "subnets")
}

/// The key of a subnet's lease.
pub fn subnet_key(prefix: &str, sn: Ipv4Network) -> (r: String)
    ensures
        r@ == subnet_key_text(prefix@, sn),
{
    proof {
        reveal_strlit("-");
    }
    let mut name = sn.ip().to_text();
    name.append("-");
    name.append(decimal_text(sn.prefix() as u64).as_str());
    join_path(subnets_key(prefix).as_str(), name.as_str())
}

/// The error that `regex` gives for a pattern it refuses.
#[verifier::external_type_specification]
#[verifier::external_body]
pub struct ExRegexError(regex::Error);

/// The groups of the leftmost-first match of a pattern in a text, the whole match being the first
/// of them, as `regex::Regex::captures` finds them; a group that took no part is absent. There is
/// no inner value without a match, and none at all where `regex::Regex::new` refuses the pattern.
pub uninterp spec fn regex_captures(pattern: Seq<char>, text: Seq<char>) -> Option<
    Option<Seq<Option<Seq<char>>>>,
>;

/// The groups of a match as character sequences.
pub open spec fn group_views(groups: Seq<Option<String>>) -> Seq<Option<Seq<char>>> {
    Seq::new(
        groups.len(),
        |i: int|
            match groups[i] {
                Some(s) => Some(s@),
                None => None,
            },
    )
}

/// The result of a search as character sequences.
pub open spec fn search_view<E>(r: Result<Option<Vec<Option<String>>>, E>) -> Option<
    Option<Seq<Option<Seq<char>>>>,
> {
    match r {
        Ok(Some(groups)) => Some(Some(group_views(groups@))),
        Ok(None) => Some(None),
        Err(_) => None,
    }
}

/// The groups of the match in a key that ends in an IPv4 subnet.
pub open spec fn label_groups(addr: Ipv4Addr, prefix: u8) -> Seq<Option<Seq<char>>> {
    seq![
        Some(label(addr, prefix)),
        Some(addr_text(addr)),
        Some(decimal(prefix as nat)),
        None,
        None,
    ]
}

/// Whether a search of the key pattern finds the subnet in which a text ends, where nothing or a
/// slash stands before it.
pub open spec fn finds_label<E>(
    pattern: Seq<char>,
    text: Seq<char>,
    r: Result<Option<Vec<Option<String>>>, E>,
) -> bool {
    forall|base: Seq<char>, addr: Ipv4Addr, prefix: u8|
        pattern == key_pattern() && text == #[trigger] (base + label(addr, prefix)) && (base.len()
            == 0 || base.last() == '/') ==> search_view(r) == Some(
            Some(label_groups(addr, prefix)),
        )
}

/// Calls `regex::Regex::new` and `regex::Regex::captures`. The result is a function of the pattern
/// and the text. The key pattern is well-formed and finds the IPv4 subnet in which a text
/// ends: the slash before it is no digit, so that no match begins further left, and
/// the match has to reach the end of the text.
#[verifier::external_body]
fn captures(pattern: &str, text: &str) -> (r: Result<Option<Vec<Option<String>>>, regex::Error>)
    ensures
        search_view(r) == regex_captures(pattern@, text@),
        pattern@ == key_pattern() ==> r is Ok,
        finds_label(pattern@, text@, r),
{
    let re = regex::Regex::new(pattern)?;
    Ok(re.captures(text).map(|caps| {
        caps.iter().map(|group| group.map(|it| it.as_str().to_owned())).collect()
    }))
}

/// The networks that the groups of a match spell.
pub open spec fn networks_in(groups: Seq<Option<Seq<char>>>) -> Result<
    (Ipv4Network, Option<Ipv6Network>),
    FlannelError,
> {
    if groups.len() != 5 {
        Err(FlannelError::InvalidSubnetKey)
    } else {
        match (groups[1], groups[2]) {
            (Some(ip), Some(len)) => match Ipv4Network::parsed(ip + seq!['/'] + len) {
                Err(e) => Err(e),
                Ok(sn4) => match (groups[3], groups[4]) {
                    (Some(ip6), Some(len6)) => if ip6.len() == 0 || len6.len() == 0 {
                        Ok((sn4, None))
                    } else {
                        match Ipv6Network::parsed(ip6 + seq!['/'] + len6) {
                            Err(e) => Err(e),
                            Ok(sn6) => Ok((sn4, Some(sn6))),
                        }
                    },
                    _ => Ok((sn4, None)),
                },
            },
            _ => Err(FlannelError::InvalidSubnetKey),
        }
    }
}

/// The networks that a key ends in.
pub open spec fn networks_of_key(key: Seq<char>) -> Result<
    (Ipv4Network, Option<Ipv6Network>),
    FlannelError,
> {
    match regex_captures(key_pattern(), key) {
        Some(Some(groups)) => networks_in(groups),
        _ => Err(FlannelError::InvalidSubnetKey),
    }
}

fn with_slash(a: &String, b: &String) -> (r: String)
    ensures
        r@ == a@ + seq!['/'] + b@,
{
    proof {
        reveal_strlit("/");
    }
    let mut s = a.clone();
    s.append("/");
    s.append(b.as_str());
    s
}

/// The networks that the groups of a match spell.
pub fn networks_from_groups(groups: &Vec<Option<String>>) -> (r: Result<
    (Ipv4Network, Option<Ipv6Network>),
    FlannelError,
>)
    ensures
        r == networks_in(group_views(groups@)),
        forall|addr: Ipv4Addr, prefix: u8|
            prefix <= 32 && group_views(groups@) == #[trigger] label_groups(addr, prefix) ==> r
                == Ok::<(Ipv4Network, Option<Ipv6Network>), FlannelError>(
                (Ipv4Network::of(addr, prefix), None),
            ),
{
    let ghost views = group_views(groups@);
    if groups.len() != 5 {
        return Err(FlannelError::InvalidSubnetKey);
    }
    assert(views[1] == match groups@[1] { Some(s) => Some(s@), None => None });
    assert(views[2] == match groups@[2] { Some(s) => Some(s@), None => None });
    assert(views[3] == match groups@[3] { Some(s) => Some(s@), None => None });
    assert(views[4] == match groups@[4] { Some(s) => Some(s@), None => None });
    let (ip, len) = match (&groups[1], &groups[2]) {
        (Some(ip), Some(len)) => (ip, len),
        _ => return Err(FlannelError::InvalidSubnetKey),
    };
    let cidr = with_slash(ip, len);
    proof {
        assert forall|addr: Ipv4Addr, prefix: u8|
            views == #[trigger] label_groups(addr, prefix) implies cidr@ == cidr_text(
            addr,
            prefix,
        ) by {
            assert(label_groups(addr, prefix)[1] == Some(addr_text(addr)));
            assert(label_groups(addr, prefix)[2] == Some(decimal(prefix as nat)));
        }
    }
    let sn4 = match Ipv4Network::parse(cidr.as_str()) {
        Ok(n) => n,
        Err(e) => return Err(e),
    };
    match (&groups[3], &groups[4]) {
        (Some(ip6), Some(len6)) => {
            if ip6.as_str().unicode_len() == 0 || len6.as_str().unicode_len() == 0 {
                return Ok((sn4, None));
            }
            match Ipv6Network::parse(with_slash(ip6, len6).as_str()) {
                Ok(sn6) => Ok((sn4, Some(sn6))),
                Err(e) => Err(e),
            }
        },
        _ => Ok((sn4, None)),
    }
}

/// The networks that a key ends in. A key that `subnet_key` made gives back its subnet.
pub fn extract_ip_and_subnet(input: &str) -> (r: Result<
    (Ipv4Network, Option<Ipv6Network>),
    FlannelError,
>)
    ensures
        r == networks_of_key(input@),
        forall|prefix: Seq<char>, sn: Ipv4Network|
            sn.prefix() <= 32 && input@ == #[trigger] subnet_key_text(prefix, sn) ==> r == Ok::<
                (Ipv4Network, Option<Ipv6Network>),
                FlannelError,
            >((sn, None)),
{
    let found = captures("(\\d+\\.\\d+.\\d+.\\d+)-(\\d+)(?:&([a-f\\d:]+)-(\\d+))?$", input);
    proof {
        assert forall|prefix: Seq<char>, sn: Ipv4Network|
            input@ == #[trigger] subnet_key_text(prefix, sn) implies search_view(found) == Some(
            Some(label_groups(sn.ip(), sn.prefix())),
        ) by {
            key_ends_in_label(prefix, sn);
        }
        assert forall|prefix: Seq<char>, sn: Ipv4Network|
            input@ == #[trigger] subnet_key_text(prefix, sn) implies Ipv4Network::of(
            sn.ip(),
            sn.prefix(),
        ) == sn by {
            network_eq(Ipv4Network::of(sn.ip(), sn.prefix()), sn);
        }
    }
    match found {
        Ok(Some(groups)) => networks_from_groups(&groups),
        _ => Err(FlannelError::InvalidSubnetKey),
    }
}

/// The key of a subnet's lease ends in a slash and the subnet's label.
proof fn key_ends_in_label(prefix: Seq<char>, sn: Ipv4Network)
    ensures
        subnet_key_text(prefix, sn) == subnets_key_text(prefix).push('/') + label(
            sn.ip(),
            sn.prefix(),
        ),
{
    reveal_strlit("subnets");
    let base = subnets_key_text(prefix);
    let name = label(sn.ip(), sn.prefix());
    decimal_is_solid(octet(sn.ip(), 0));
    assert(name[0] == decimal(octet(sn.ip(), 0))[0]);
    assert(base.last() == 's');
}

/// The key of the configuration is `config` under the prefix.
pub proof fn configuration_stands_under_the_prefix(prefix: Seq<char>)
    ensures
        prefix.len() > 0 && prefix[prefix.len() - 1] != '/' ==> config_key_text(prefix) == prefix
            + seq!['/'] + "config"@,
        prefix.len() == 0 || prefix[prefix.len() - 1] == '/' ==> config_key_text(prefix) == prefix
            + "config"@,
{
    reveal_strlit("config");
    joined_path_keeps_its_parts(prefix, "config"@);
}

/// The key of a subnet's lease is, under the prefix and `subnets`, the subnet's address, a hyphen and
/// its prefix length in decimal.
pub proof fn lease_stands_under_its_subnet(prefix: Seq<char>, sn: Ipv4Network)
    ensures
        ({
            let base = if prefix.len() > 0 && prefix[prefix.len() - 1] != '/' {
                prefix + seq!['/'] + "subnets"@
            } else {
                prefix + "subnets"@
            };
            &&& subnets_key_text(prefix) == base
            &&& subnet_key_text(prefix, sn) == base + seq!['/'] + addr_text(sn.ip()) + seq!['-']
                + decimal(sn.prefix() as nat)
        }),
{
    reveal_strlit("subnets");
    joined_path_keeps_its_parts(prefix, "subnets"@);
    key_ends_in_label(prefix, sn);
    let base = subnets_key_text(prefix);
    assert(subnet_key_text(prefix, sn) =~= base + seq!['/'] + addr_text(sn.ip()) + seq!['-']
        + decimal(sn.prefix() as nat));
}

/// Different subnets have different keys.
pub proof fn keys_tell_subnets_apart(prefix: Seq<char>, a: Ipv4Network, b: Ipv4Network)
    ensures
        subnet_key_text(prefix, a) == subnet_key_text(prefix, b) ==> a == b,
{
    if subnet_key_text(prefix, a) == subnet_key_text(prefix, b) {
        let base = subnets_key_text(prefix).push('/');
        let x = label(a.ip(), a.prefix());
        let y = label(b.ip(), b.prefix());
        key_ends_in_label(prefix, a);
        key_ends_in_label(prefix, b);
        assert((base + x).skip(base.len() as int) =~= x);
        assert((base + y).skip(base.len() as int) =~= y);
        address_text_spells_the_octets(a.ip());
        address_text_spells_the_octets(b.ip());
        assert(!addr_text(a.ip()).contains('-'));
        assert(!addr_text(b.ip()).contains('-'));
        separator_tells_apart(
            addr_text(a.ip()),
            decimal(a.prefix() as nat),
            addr_text(b.ip()),
            decimal(b.prefix() as nat),
            '-',
        );
        address_text_tells_addresses_apart(a.ip(), b.ip());
        decimal_spells_the_number(a.prefix() as nat);
        decimal_spells_the_number(b.prefix() as nat);
        network_eq(a, b);
    }
}

/// A match names an IPv4 subnet by its first two groups, and an IPv6 subnet by the other two where
/// neither is absent or empty; what is no network is an error.
pub proof fn groups_name_the_networks(
    groups: Seq<Option<Seq<char>>>,
    ip: Seq<char>,
    len: Seq<char>,
)
    ensures
        groups.len() != 5 ==> networks_in(groups) == Err::<
            (Ipv4Network, Option<Ipv6Network>),
            FlannelError,
        >(FlannelError::InvalidSubnetKey),
        groups.len() == 5 && groups[1] == Some(ip) && groups[2] == Some(len) ==> ({
            let r = networks_in(groups);
            let sn4 = Ipv4Network::parsed(ip + seq!['/'] + len);
            let named6 = groups[3] is Some && groups[4] is Some && groups[3]->0.len() > 0
                && groups[4]->0.len() > 0;
            let sn6 = Ipv6Network::parsed(groups[3]->0 + seq!['/'] + groups[4]->0);
            &&& sn4 is Err ==> r == Err::<(Ipv4Network, Option<Ipv6Network>), FlannelError>(
                sn4->Err_0,
            )
            &&& sn4 is Ok && named6 && sn6 is Err ==> r == Err::<
                (Ipv4Network, Option<Ipv6Network>),
                FlannelError,
            >(sn6->Err_0)
            &&& sn4 is Ok && !named6 ==> r == Ok::<
                (Ipv4Network, Option<Ipv6Network>),
                FlannelError,
            >((sn4->Ok_0, None))
            &&& sn4 is Ok && named6 && sn6 is Ok ==> r == Ok::<
                (Ipv4Network, Option<Ipv6Network>),
                FlannelError,
            >((sn4->Ok_0, Some(sn6->Ok_0)))
        }),
{
}

/// A key without a match names no subnet; one with a match names those of the match.
pub proof fn keys_are_read_by_their_match(key: Seq<char>)
    ensures
        ({
            let found = regex_captures(
                "(\\d+\\.\\d+.\\d+.\\d+)-(\\d+)(?:&([a-f\\d:]+)-(\\d+))?$"@,
                key,
            );
            &&& found == Some(None::<Seq<Option<Seq<char>>>>) ==> networks_of_key(key) == Err::<
                (Ipv4Network, Option<Ipv6Network>),
                FlannelError,
            >(FlannelError::InvalidSubnetKey)
            &&& found is Some && found->0 is Some ==> networks_of_key(key) == networks_in(
                found->0->0,
            )
        }),
{
}

}
