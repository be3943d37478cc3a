//! The file that tells other programs of the host's subnet.
use vstd::prelude::*;

use crate::addr::{addr_text, cidr_text, octet, Add, Ipv4Addr, Ipv4Network};
use crate::error::FlannelError;
use crate::subnet::config::Config;
use crate::subnet::manager::SubnetManager;
use crate::text::{
    decimal, decimal_is_solid, decimal_spells_the_number, decimal_text, decimal_value, index_of_char_is, is_solid, is_white_space,
    solid_concat, split, split_once, split_once_text, split_text, trim, trim_keeps_solid,
    trim_text, views,
};

verus! {

/// The variables of a file of `NAME=VALUE` lines. A later value of a name hides an earlier one.
#[derive(Debug)]
pub struct SubnetEnv {
    entries: Vec<(String, String)>,
}

/// The value of each name, the last one where a name occurs again.
pub open spec fn last_values(entries: Seq<(String, String)>) -> Map<Seq<char>, Seq<char>>
    decreases entries.len(),
{
    if entries.len() == 0 {
        Map::empty()
    } else {
        last_values(entries.drop_last()).insert(entries.last().0@, entries.last().1@)
    }
}

/// The variables of a list of lines: what stands before and after the first `=` of a line without
/// its surrounding white space. Lines without `=` hold none.
pub open spec fn env_of_lines(lines: Seq<Seq<char>>) -> Map<Seq<char>, Seq<char>>
    decreases lines.len(),
{
    if lines.len() == 0 {
        Map::empty()
    } else {
        let env = env_of_lines(lines.drop_last());
        match split_once(trim(lines.last()), '=') {
            Some((k, v)) => env.insert(k, v),
            None => env,
        }
    }
}

/// The variables of a text.
pub open spec fn env_of(text: Seq<char>) -> Map<Seq<char>, Seq<char>> {
    env_of_lines(split(text, '\n'))
}

/// The text of a truth value.
pub open spec fn bool_text(b: bool) -> Seq<char> {
    if b {
        "true"@
    } else {
        "false"@
    }
}

/// The lines of the subnet file.
pub open spec fn subnet_lines(
    network: Ipv4Network,
    ip_masq: bool,
    sn: Ipv4Network,
    mtu: u32,
) -> Seq<Seq<char>> {
    seq![
        "FLANNEL_NETWORK="@ + cidr_text(network.ip(), network.prefix()),
        "FLANNEL_SUBNET="@ + cidr_text(sn.ip().moved_up(1), sn.prefix()),
        "FLANNEL_MTU="@ + decimal(mtu as nat),
        "FLANNEL_IPMASQ="@ + bool_text(ip_masq),
    ]
}

/// Lines that each end in a newline.
pub open spec fn joined(lines: Seq<Seq<char>>) -> Seq<char>
    decreases lines.len(),
{
    if lines.len() == 0 {
        Seq::empty()
    } else {
        lines[0] + seq!['\n'] + joined(lines.drop_first())
    }
}

/// The content of the subnet file: empty without IPv4.
pub open spec fn subnet_file_text(config: Config, ip_masq: bool, sn: Ipv4Network, mtu: u32) -> Seq<
    char,
> {
    if config.enable_ipv4 {
        joined(subnet_lines(config.network->0, ip_masq, sn, mtu))
    } else {
        Seq::empty()
    }
}

impl View for SubnetEnv {
    type V = Map<Seq<char>, Seq<char>>;

    closed spec fn view(&self) -> Map<Seq<char>, Seq<char>> {
        last_values(self.entries@)
    }
}

impl SubnetEnv {
    pub fn new() -> (r: Self)
        ensures
            r@ == Map::<Seq<char>, Seq<char>>::empty(),
    {
        SubnetEnv { entries: Vec::new() }
    }

    /// Gives a name a value.
    pub fn insert(&mut self, name: String, value: String)
        ensures
            final(self)@ == old(self)@.insert(name@, value@),
    {
        let ghost before = self.entries@;
        self.entries.push((name, value));
        assert(self.entries@.drop_last() =~= before);
    }

    /// The value of a name.
    pub fn get(&self, name: &str) -> (r: Option<&str>)
        ensures
            match r {
                Some(v) => self@.contains_key(name@) && self@[name@] == v@,
                None => !self@.contains_key(name@),
            },
    {
        let wanted = name.to_owned();
        let mut i: usize = self.entries.len();
        proof {
            assert(self.entries@.take(i as int) =~= self.entries@);
        }
        while i > 0
            invariant
                i <= self.entries@.len(),
                wanted@ == name@,
                self@.contains_key(name@) <==> last_values(
                    self.entries@.take(i as int),
                ).contains_key(name@),
                self@.contains_key(name@) ==> self@[name@] == last_values(
                    self.entries@.take(i as int),
                )[name@],
            decreases i,
        {
            proof {
                assert(self.entries@.take(i as int).drop_last() =~= self.entries@.take(i - 1));
            }
            let entry = &self.entries[i - 1];
            if entry.0 == wanted {
                return Some(entry.1.as_str());
            }
            i = i - 1;
        }
        None
    }
}

/// Reads the variables of a text.
pub fn read_from_subnet_env(text: &str) -> (r: SubnetEnv)
    ensures
        r@ == env_of(text@),
{
    let lines = split_text(text, '\n');
    let n: usize = lines.len();
    let mut env = SubnetEnv::new();
    let mut i: usize = 0;
    proof {
        assert(views(lines@).take(0) =~= Seq::<Seq<char>>::empty());
    }
    while i < n
        invariant
            n == lines@.len(),
            i <= n,
            env@ == env_of_lines(views(lines@).take(i as int)),
        decreases n - i,
    {
        proof {
            assert(views(lines@).take(i + 1).drop_last() =~= views(lines@).take(i as int));
            assert(views(lines@).take(i + 1).last() == lines@[i as int]@);
        }
        let line = trim_text(lines[i].as_str());
        if let Some((name, value)) = split_once_text(line.as_str(), '=') {
            env.insert(name, value);
        }
        i = i + 1;
    }
    assert(views(lines@).take(n as int) =~= views(lines@));
    env
}

/// The subnet that the variables name.
pub open spec fn subnet_in_env(env: Map<Seq<char>, Seq<char>>) -> Result<
    Option<Ipv4Network>,
    FlannelError,
> {
    if env.contains_key("FLANNEL_SUBNET"@) {
        match Ipv4Network::parsed(env["FLANNEL_SUBNET"@]) {
            Ok(n) => Ok(Some(n)),
            Err(e) => Err(e),
        }
    } else {
        Ok(None)
    }
}

/// The subnet that the variables name.
pub fn previous_subnet(env: &SubnetEnv) -> (r: Result<Option<Ipv4Network>, FlannelError>)
    ensures
        r == subnet_in_env(env@),
        forall|addr: Ipv4Addr, prefix: u8|
            prefix <= 32 && env@.contains_key("FLANNEL_SUBNET"@) && env@["FLANNEL_SUBNET"@]
                == #[trigger] cidr_text(addr, prefix) ==> r == Ok::<Option<Ipv4Network>, FlannelError>(
                Some(Ipv4Network::of(addr, prefix)),
            ),
{
    match env.get("FLANNEL_SUBNET") {
        None => Ok(None),
        Some(text) => match Ipv4Network::parse(text) {
            Ok(n) => Ok(Some(n)),
            Err(e) => Err(e),
        },
    }
}

/// The subnet that a subnet file names. What `write_subnet_file` wrote is read back as the first
/// host address of the subnet that was written.
pub fn recover_subnet(text: &str) -> (r: Result<Option<Ipv4Network>, FlannelError>)
    ensures
        r == subnet_in_env(env_of(text@)),
        forall|config: Config, ip_masq: bool, sn: Ipv4Network, mtu: u32|
            config.enable_ipv4 && sn.prefix() <= 32 && sn.ip().add_fits(1) && text@
                == #[trigger] subnet_file_text(config, ip_masq, sn, mtu) ==> r == Ok::<
                Option<Ipv4Network>,
                FlannelError,
            >(Some(Ipv4Network::of(sn.ip().moved_up(1), sn.prefix()))),
{
    let env = read_from_subnet_env(text);
    proof {
        assert forall|config: Config, ip_masq: bool, sn: Ipv4Network, mtu: u32|
            config.enable_ipv4 && text@ == #[trigger] subnet_file_text(
                config,
                ip_masq,
                sn,
                mtu,
            ) implies env@.contains_key("FLANNEL_SUBNET"@) && env@["FLANNEL_SUBNET"@] == cidr_text(
            sn.ip().moved_up(1),
            sn.prefix(),
        ) by {
            subnet_file_reads_back(config.network->0, ip_masq, sn, mtu);
        }
    }
    previous_subnet(&env)
}

impl SubnetManager {
    /// The content of the subnet file.
    pub fn write_subnet_file(config: &Config, ip_masq: bool, sn: Ipv4Network, mtu: u32) -> (r:
        String)
        requires
            config.enable_ipv4 ==> config.network is Some && sn.ip().add_fits(1),
        ensures
            r@ == subnet_file_text(*config, ip_masq, sn, mtu),
    {
        let mut s = String::new();
        if config.enable_ipv4 {
            let network = match config.network {
                Some(n) => n,
                None => return s,
            };
            proof {
                reveal_strlit("\n");
                reveal_with_fuel(joined, 5);
            }
            s.append("FLANNEL_NETWORK=");
            s.append(network.to_text().as_str());
            s.append("\n");
            let next_ip = sn.ip().add(1);
            s.append("FLANNEL_SUBNET=");
            s.append(next_ip.to_text().as_str());
            s.append("/");
            s.append(decimal_text(sn.prefix() as u64).as_str());
            s.append("\n");
            s.append("FLANNEL_MTU=");
            s.append(decimal_text(mtu as u64).as_str());
            s.append("\n");
            s.append("FLANNEL_IPMASQ=");
            s.append(if ip_masq { "true" } else { "false" });
            s.append("\n");
            proof {
                reveal_strlit("/");
                let lines = subnet_lines(network, ip_masq, sn, mtu);
                let l1 = lines.drop_first();
                let l2 = l1.drop_first();
                let l3 = l2.drop_first();
                assert(l3.drop_first() =~= Seq::<Seq<char>>::empty());
                assert(l1[0] == lines[1] && l2[0] == lines[2] && l3[0] == lines[3]);
                assert(joined(l3) =~= lines[3] + seq!['\n']);
                assert(joined(l2) =~= lines[2] + seq!['\n'] + (lines[3] + seq!['\n']));
                assert(s@ =~= joined(lines));
            }
        }
        s
    }

    /// The name under which a file is written before it takes the place of the old one.
    pub fn temporary_name(file_name: &str) -> (r: String)
        ensures
            r@ == seq!['.'] + file_name@,
    {
        proof {
            reveal_strlit(".");
        }
        let mut s = ".".to_owned();
        s.append(file_name);
        s
    }
}

/// Lines without newlines, joined, are the pieces between the newlines, and an empty one at last.
proof fn split_undoes_joined(lines: Seq<Seq<char>>)
    requires
        forall|i: int| 0 <= i < lines.len() ==> is_solid(#[trigger] lines[i]),
    ensures
        split(joined(lines), '\n') == lines.push(Seq::empty()),
    decreases lines.len(),
{
    let text = joined(lines);
    if lines.len() == 0 {
        index_of_char_is(text, '\n', 0);
        assert(split(text, '\n') =~= lines.push(Seq::empty()));
    } else {
        let rest = lines.drop_first();
        let k = lines[0].len() as int;
        assert forall|i: int| 0 <= i < rest.len() implies is_solid(#[trigger] rest[i]) by {
            assert(is_solid(lines[i + 1]));
        }
        split_undoes_joined(rest);
        assert(is_solid(lines[0]));
        assert forall|i: int| 0 <= i < k implies #[trigger] text[i] != '\n' by {
            assert(!is_white_space(lines[0][i]));
        }
        assert(text[k] == '\n');
        index_of_char_is(text, '\n', k);
        assert(text.take(k) =~= lines[0]);
        assert(text.skip(k + 1) =~= joined(rest));
        assert(seq![lines[0]] + rest.push(Seq::empty()) =~= lines.push(Seq::empty()));
    }
}

/// A line `NAME=VALUE` holds that value under that name.
proof fn line_holds_entry(name: Seq<char>, equals: Seq<char>, value: Seq<char>)
    requires
        is_solid(equals),
        is_solid(value),
        equals == name.push('='),
        forall|i: int| 0 <= i < name.len() ==> #[trigger] name[i] != '=',
    ensures
        is_solid(equals + value),
        split_once(trim(equals + value), '=') == Some((name, value)),
{
    let line = equals + value;
    let k = name.len() as int;
    solid_concat(equals, value);
    trim_keeps_solid(line);
    assert forall|i: int| 0 <= i < k implies #[trigger] line[i] != '=' by {
        assert(name[i] != '=');
        assert(line[i] == equals[i]);
    }
    assert(line[k] == '=');
    index_of_char_is(line, '=', k);
    assert(line.take(k) =~= name);
    assert(line.skip(k + 1) =~= value);
}

/// CIDR notation holds no white space.
proof fn cidr_is_solid(addr: Ipv4Addr, prefix: u8)
    ensures
        is_solid(cidr_text(addr, prefix)),
{
    let a = decimal(octet(addr, 0));
    let b = decimal(octet(addr, 1));
    let c = decimal(octet(addr, 2));
    let d = decimal(octet(addr, 3));
    let p = decimal(prefix as nat);
    decimal_is_solid(octet(addr, 0));
    decimal_is_solid(octet(addr, 1));
    decimal_is_solid(octet(addr, 2));
    decimal_is_solid(octet(addr, 3));
    decimal_is_solid(prefix as nat);
    solid_concat(a, seq!['.']);
    solid_concat(a + seq!['.'], b);
    solid_concat(a + seq!['.'] + b, seq!['.']);
    solid_concat(a + seq!['.'] + b + seq!['.'], c);
    solid_concat(a + seq!['.'] + b + seq!['.'] + c, seq!['.']);
    solid_concat(a + seq!['.'] + b + seq!['.'] + c + seq!['.'], d);
    solid_concat(addr_text(addr), seq!['/']);
    solid_concat(addr_text(addr) + seq!['/'], p);
}

/// Reading a subnet file gives back what was written into it, each value under its name and
/// nothing else.
pub proof fn subnet_file_reads_back(network: Ipv4Network, ip_masq: bool, sn: Ipv4Network, mtu: u32)
    ensures
        env_of(joined(subnet_lines(network, ip_masq, sn, mtu))) == Map::<Seq<char>, Seq<char>>::empty().insert(
            "FLANNEL_NETWORK"@,
            cidr_text(network.ip(), network.prefix()),
        ).insert("FLANNEL_SUBNET"@, cidr_text(sn.ip().moved_up(1), sn.prefix())).insert(
            "FLANNEL_MTU"@,
            decimal(mtu as nat),
        ).insert("FLANNEL_IPMASQ"@, bool_text(ip_masq)),
        env_of(joined(subnet_lines(network, ip_masq, sn, mtu))).contains_key("FLANNEL_SUBNET"@),
        env_of(joined(subnet_lines(network, ip_masq, sn, mtu)))["FLANNEL_SUBNET"@] == cidr_text(
            sn.ip().moved_up(1),
            sn.prefix(),
        ),
{
    reveal_strlit("FLANNEL_NETWORK");
    reveal_strlit("FLANNEL_SUBNET");
    reveal_strlit("FLANNEL_MTU");
    reveal_strlit("FLANNEL_IPMASQ");
    reveal_strlit("FLANNEL_NETWORK=");
    reveal_strlit("FLANNEL_SUBNET=");
    reveal_strlit("FLANNEL_MTU=");
    reveal_strlit("FLANNEL_IPMASQ=");
    reveal_strlit("true");
    reveal_strlit("false");
    let lines = subnet_lines(network, ip_masq, sn, mtu);
    cidr_is_solid(network.ip(), network.prefix());
    cidr_is_solid(sn.ip().moved_up(1), sn.prefix());
    decimal_is_solid(mtu as nat);
    assert("FLANNEL_NETWORK="@ =~= "FLANNEL_NETWORK"@.push('='));
    assert("FLANNEL_SUBNET="@ =~= "FLANNEL_SUBNET"@.push('='));
    assert("FLANNEL_MTU="@ =~= "FLANNEL_MTU"@.push('='));
    assert("FLANNEL_IPMASQ="@ =~= "FLANNEL_IPMASQ"@.push('='));
    line_holds_entry(
        "FLANNEL_NETWORK"@,
        "FLANNEL_NETWORK="@,
        cidr_text(network.ip(), network.prefix()),
    );
    line_holds_entry(
        "FLANNEL_SUBNET"@,
        "FLANNEL_SUBNET="@,
        cidr_text(sn.ip().moved_up(1), sn.prefix()),
    );
    line_holds_entry("FLANNEL_MTU"@, "FLANNEL_MTU="@, decimal(mtu as nat));
    line_holds_entry("FLANNEL_IPMASQ"@, "FLANNEL_IPMASQ="@, bool_text(ip_masq));
    split_undoes_joined(lines);
    let all = lines.push(Seq::empty());
    let l4 = all.drop_last();
    let l3 = l4.drop_last();
    let l2 = l3.drop_last();
    let l1 = l2.drop_last();
    assert(l4 =~= lines);
    assert(l1.drop_last() =~= Seq::<Seq<char>>::empty());
    reveal_with_fuel(env_of_lines, 6);
    trim_keeps_solid(Seq::<char>::empty());
    index_of_char_is(Seq::<char>::empty(), '=', 0);
    // Different names: they differ in length, or in their ninth character.
    assert("FLANNEL_SUBNET"@.len() == "FLANNEL_IPMASQ"@.len() && "FLANNEL_SUBNET"@[8]
        != "FLANNEL_IPMASQ"@[8]);
    assert("FLANNEL_SUBNET"@.len() != "FLANNEL_MTU"@.len());
}

/// A name has the value of its last line; a name without a line has none.
pub proof fn last_line_of_a_name_counts(
    text: Seq<char>,
    i: int,
    name: Seq<char>,
    value: Seq<char>,
)
    ensures
        ({
            let lines = split(text, '\n');
            &&& 0 <= i < lines.len() && split_once(trim(lines[i]), '=') == Some((name, value)) && (
            forall|j: int|
                i < j < lines.len() && split_once(trim(#[trigger] lines[j]), '=') is Some
                    ==> split_once(trim(lines[j]), '=')->0 .0 != name) ==> env_of(
                text,
            ).contains_pair(name, value)
            &&& (forall|j: int|
                0 <= j < lines.len() && split_once(trim(#[trigger] lines[j]), '=') is Some
                    ==> split_once(trim(lines[j]), '=')->0 .0 != name) ==> !env_of(
                text,
            ).contains_key(name)
        }),
{
    last_line_of_a_name_counts_in(split(text, '\n'), i, name, value);
}

proof fn last_line_of_a_name_counts_in(
    lines: Seq<Seq<char>>,
    i: int,
    name: Seq<char>,
    value: Seq<char>,
)
    ensures
        0 <= i < lines.len() && split_once(trim(lines[i]), '=') == Some((name, value)) && (
        forall|j: int|
            i < j < lines.len() && split_once(trim(#[trigger] lines[j]), '=') is Some ==> split_once(
                trim(lines[j]),
                '=',
            )->0 .0 != name) ==> env_of_lines(lines).contains_pair(name, value),
        (forall|j: int|
            0 <= j < lines.len() && split_once(trim(#[trigger] lines[j]), '=') is Some ==> split_once(
                trim(lines[j]),
                '=',
            )->0 .0 != name) ==> !env_of_lines(lines).contains_key(name),
    decreases lines.len(),
{
    if lines.len() > 0 {
        let before = lines.drop_last();
        last_line_of_a_name_counts_in(before, i, name, value);
        assert(forall|j: int| 0 <= j < before.len() ==> #[trigger] before[j] == lines[j]);
        assert(lines[lines.len() - 1] == lines.last());
    }
}

/// The subnet file names the network, the subnet by its first host address, the packet length and
/// whether addresses are masked, each as it is; without IPv4 it names nothing.
pub proof fn subnet_file_names_its_values(
    config: Config,
    network: Ipv4Network,
    ip_masq: bool,
    sn: Ipv4Network,
    mtu: u32,
)
    requires
        config.enable_ipv4,
        config.network == Some(network),
        sn.ip().bits < 4_294_967_295,
    ensures
        ({
            let env = env_of(subnet_file_text(config, ip_masq, sn, mtu));
            &&& env.contains_pair("FLANNEL_NETWORK"@, cidr_text(network.ip(), network.prefix()))
            &&& env.contains_pair(
                "FLANNEL_SUBNET"@,
                cidr_text(Ipv4Addr { bits: (sn.ip().bits + 1) as u32 }, sn.prefix()),
            )
            &&& env.contains_key("FLANNEL_MTU"@) && decimal_value(env["FLANNEL_MTU"@]) == mtu
            &&& env.contains_pair("FLANNEL_IPMASQ"@, if ip_masq { "true"@ } else { "false"@ })
        }),
{
    subnet_file_reads_back(network, ip_masq, sn, mtu);
    decimal_spells_the_number(mtu as nat);
    reveal_strlit("FLANNEL_NETWORK");
    reveal_strlit("FLANNEL_SUBNET");
    reveal_strlit("FLANNEL_MTU");
    reveal_strlit("FLANNEL_IPMASQ");
    assert("FLANNEL_NETWORK"@.len() == 15 && "FLANNEL_SUBNET"@.len() == 14 && "FLANNEL_MTU"@.len()
        == 11 && "FLANNEL_IPMASQ"@.len() == 14);
    assert("FLANNEL_SUBNET"@[8] != "FLANNEL_IPMASQ"@[8]);
}

/// The previous subnet is the network that stands under its name, and none where the name has no
/// value; a value that is no network is an error.
pub proof fn previous_subnet_stands_under_its_name(env: Map<Seq<char>, Seq<char>>)
    ensures
        !env.contains_key("FLANNEL_SUBNET"@) ==> subnet_in_env(env) == Ok::<
            Option<Ipv4Network>,
            FlannelError,
        >(None),
        env.contains_key("FLANNEL_SUBNET"@) ==> ({
            let n = Ipv4Network::parsed(env["FLANNEL_SUBNET"@]);
            &&& n is Ok ==> subnet_in_env(env) == Ok::<Option<Ipv4Network>, FlannelError>(
                Some(n->Ok_0),
            )
            &&& n is Err ==> subnet_in_env(env) == Err::<Option<Ipv4Network>, FlannelError>(
                n->Err_0,
            )
        }),
{
}

}
