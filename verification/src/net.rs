//! Network interfaces.
use vstd::prelude::*;

use crate::argument;
use crate::argument::{Error, Optioned, Words};
use crate::config;
use crate::config::BackendConfig;
use crate::creation;
use crate::creation::{Build, Creation, Job};
use crate::device;
use crate::device::{Common, VirtioDevice};
use crate::number;
use crate::text;

verus! {

/// A network interface.
#[derive(Debug)]
pub struct VirtioNet {
    pub common: Common,
    pub ip_addr: Option<[u8; 4]>,
    pub netmask: Option<[u8; 4]>,
    pub mac_addr: Option<[u8; 6]>,
    pub tap_name: Option<String>,
}

/// `VirtioNet` with its texts and lists as sequences.
pub struct Net {
    pub common: device::Part,
    pub ip_addr: Option<Seq<u8>>,
    pub netmask: Option<Seq<u8>>,
    pub mac_addr: Option<Seq<u8>>,
    pub tap_name: Option<Seq<char>>,
}

/// The bytes of an optional address.
pub open spec fn address<const N: usize>(a: Option<[u8; N]>) -> Option<Seq<u8>> {
    match a {
        Some(bytes) => Some(bytes@),
        None => None,
    }
}

impl View for VirtioNet {
    type V = Net;

    open spec fn view(&self) -> Net {
        Net {
            common: self.common@,
            ip_addr: address(self.ip_addr),
            netmask: address(self.netmask),
            mac_addr: address(self.mac_addr),
            tap_name: config::optional_text(self.tap_name),
        }
    }
}

/// An interface before any option was read.
pub open spec fn default_net() -> Net {
    Net {
        common: device::fresh(0),
        ip_addr: None,
        netmask: None,
        mac_addr: None,
        tap_name: None,
    }
}

/// What the options of an interface are told when they are refused.
pub open spec fn net_words() -> Words {
    Words {
        form: "net options must be of the form `kind=value`",
        number: "`label` must be an unsigned integer",
        zero: "invalid `label` value",
        unknown: "unrecognized net option",
    }
}

/// The values of the options that give a hardware address.
pub open spec fn mac_values(opts: Seq<Seq<char>>) -> Seq<Seq<char>>
    decreases opts.len(),
{
    if opts.len() == 0 {
        Seq::empty()
    } else {
        let before = mac_values(opts.drop_last());
        match text::pair(opts.last(), '=') {
            Some((kind, value)) => if kind == "mac"@ {
                before.push(value)
            } else {
                before
            },
            None => before,
        }
    }
}

/// The hardware addresses that the values of an argument stand for, in order.
/// There is none where a value is no address.
pub open spec fn addresses(macs: Seq<Option<[u8; 6]>>) -> Seq<Option<Seq<u8>>> {
    Seq::new(macs.len(), |i: int| address(macs[i]))
}

/// An interface whose options are being read. `used` counts the hardware
/// addresses that were read.
pub struct Reading {
    pub net: Net,
    pub macs: Seq<Option<Seq<u8>>>,
    pub used: int,
}

/// What the option `opt` does to an interface.
pub open spec fn net_option(r: Reading, opt: Seq<char>) -> Result<Reading, argument::Refusal> {
    match argument::kind_value(opt, net_words().form@) {
        Err(e) => Err(e),
        Ok((kind, value)) => if kind == "label"@ {
            match argument::label(value, net_words()) {
                Ok(label) => Ok(
                    Reading {
                        net: Net { common: device::Part { label, ..r.net.common }, ..r.net },
                        ..r
                    },
                ),
                Err(e) => Err(e),
            }
        } else if kind == "ip_addr"@ {
            match number::ipv4(value) {
                Some(a) => Ok(Reading { net: Net { ip_addr: Some(a), ..r.net }, ..r }),
                None => Err(
                    argument::Refusal {
                        value,
                        expected: "`ip_addr` needs to be in the form \"x.x.x.x\""@,
                    },
                ),
            }
        } else if kind == "netmask"@ {
            match number::ipv4(value) {
                Some(a) => Ok(Reading { net: Net { netmask: Some(a), ..r.net }, ..r }),
                None => Err(
                    argument::Refusal {
                        value,
                        expected: "`netmask` needs to be in the form \"x.x.x.x\""@,
                    },
                ),
            }
        } else if kind == "mac"@ {
            if 0 <= r.used < r.macs.len() && r.macs[r.used] is Some {
                Ok(
                    Reading {
                        net: Net { mac_addr: r.macs[r.used], ..r.net },
                        used: r.used + 1,
                        ..r
                    },
                )
            } else {
                Err(
                    argument::Refusal {
                        value,
                        expected: "`mac` needs to be in the form \"XX:XX:XX:XX:XX:XX\""@,
                    },
                )
            }
        } else if kind == "tapName"@ {
            Ok(Reading { net: Net { tap_name: Some(value), ..r.net }, ..r })
        } else {
            Err(argument::Refusal { value: kind, expected: net_words().unknown@ })
        },
    }
}

/// The interface that the argument `param` asks for. It may start with a word
/// in front of its options; `macs` holds the hardware addresses in it.
pub open spec fn asked(param: Seq<char>, macs: Seq<Option<Seq<u8>>>) -> Result<
    Net,
    argument::Refusal,
> {
    match argument::with_options::<NetReader>(
        Reading { net: default_net(), macs, used: 0 },
        argument::option_parts(param),
    ) {
        Ok(r) => Ok(r.net),
        Err(e) => Err(e),
    }
}

proof fn lemma_macs_used(macs: Seq<Option<Seq<u8>>>, opts: Seq<Seq<char>>)
    requires
        argument::with_options::<NetReader>(
            Reading { net: default_net(), macs, used: 0 },
            opts,
        ) is Ok,
    ensures
        ({
            let r = argument::with_options::<NetReader>(
                Reading { net: default_net(), macs, used: 0 },
                opts,
            )->Ok_0;
            &&& r.macs == macs
            &&& r.used == mac_values(opts).len()
            &&& r.used <= macs.len()
            &&& r.net.mac_addr == (if r.used == 0 {
                None
            } else {
                macs[r.used - 1]
            })
        }),
    decreases opts.len(),
{
    if opts.len() > 0 {
        reveal_strlit("label");
        reveal_strlit("ip_addr");
        reveal_strlit("netmask");
        reveal_strlit("mac");
        reveal_strlit("tapName");
        assert("mac"@.len() == 3 && "label"@.len() == 5);
        assert("ip_addr"@.len() == 7 && "netmask"@.len() == 7 && "tapName"@.len() == 7);
        lemma_macs_used(macs, opts.drop_last());
        let before = argument::with_options::<NetReader>(
            Reading { net: default_net(), macs, used: 0 },
            opts.drop_last(),
        );
        assert(argument::with_options::<NetReader>(
            Reading { net: default_net(), macs, used: 0 },
            opts,
        ) == net_option(before->Ok_0, opts.last()));
    }
}

/// An interface has the last of the hardware addresses that its argument
/// gives, and none if the argument gives none.
pub proof fn lemma_last_mac_stands(param: Seq<char>, macs: Seq<Option<Seq<u8>>>)
    requires
        asked(param, macs) is Ok,
        macs.len() == mac_values(argument::option_parts(param)).len(),
    ensures
        asked(param, macs)->Ok_0.mac_addr == (if macs.len() == 0 {
            None
        } else {
            macs.last()
        }),
{
    lemma_macs_used(macs, argument::option_parts(param));
}

/// An accepted argument gives a label if and only if it has an option for it,
/// and then the label is not zero.
pub proof fn lemma_label_is_given(param: Seq<char>, macs: Seq<Option<Seq<u8>>>)
    requires
        asked(param, macs) is Ok,
    ensures
        asked(param, macs)->Ok_0.common.label == 0 <==> !argument::has_kind(
            argument::option_parts(param),
            "label"@,
        ),
{
    argument::lemma_label_follows_options::<NetReader>(
        Reading { net: default_net(), macs, used: 0 },
        argument::option_parts(param),
        |d: Reading| d.net.common.label,
    );
}

/// A word in front of the options changes nothing.
pub proof fn lemma_leading_word_changes_nothing(
    word: Seq<char>,
    param: Seq<char>,
    macs: Seq<Option<Seq<u8>>>,
)
    requires
        !word.contains(','),
        !word.contains('='),
        text::pair(argument::head(param), '=') is Some,
    ensures
        asked(word + seq![','] + param, macs) == asked(param, macs),
{
    argument::lemma_leading_word_is_passed_over(word, param);
}

/// The kinds of options are different words without the characters that cut an
/// argument.
proof fn lemma_kinds()
    ensures
        !"label"@.contains('='),
        !"label"@.contains(','),
        !"ip_addr"@.contains('='),
        !"ip_addr"@.contains(','),
        !"netmask"@.contains('='),
        !"netmask"@.contains(','),
        !"mac"@.contains('='),
        !"mac"@.contains(','),
        !"tapName"@.contains('='),
        !"tapName"@.contains(','),
        "label"@ != "ip_addr"@,
        "label"@ != "netmask"@,
        "label"@ != "mac"@,
        "label"@ != "tapName"@,
        "ip_addr"@ != "netmask"@,
        "ip_addr"@ != "mac"@,
        "ip_addr"@ != "tapName"@,
        "netmask"@ != "mac"@,
        "netmask"@ != "tapName"@,
        "mac"@ != "tapName"@,
{
    reveal_strlit("label");
    reveal_strlit("ip_addr");
    reveal_strlit("netmask");
    reveal_strlit("mac");
    reveal_strlit("tapName");
    assert("label"@ =~= seq!['l', 'a', 'b', 'e', 'l']);
    assert("ip_addr"@ =~= seq!['i', 'p', '_', 'a', 'd', 'd', 'r']);
    assert("netmask"@ =~= seq!['n', 'e', 't', 'm', 'a', 's', 'k']);
    assert("mac"@ =~= seq!['m', 'a', 'c']);
    assert("tapName"@ =~= seq!['t', 'a', 'p', 'N', 'a', 'm', 'e']);
    assert("label"@.len() != "ip_addr"@.len());
    assert("label"@.len() != "netmask"@.len());
    assert("label"@.len() != "mac"@.len());
    assert("label"@.len() != "tapName"@.len());
    assert("ip_addr"@[0] != "netmask"@[0]);
    assert("ip_addr"@.len() != "mac"@.len());
    assert("ip_addr"@[0] != "tapName"@[0]);
    assert("netmask"@.len() != "mac"@.len());
    assert("netmask"@[0] != "tapName"@[0]);
    assert("mac"@.len() != "tapName"@.len());
}

/// What each option of an interface sets, and that it leaves everything else
/// as it is: the address and the mask are read in their usual form, the name
/// is taken as it is, and a hardware address is the next of those that were
/// read before.
pub proof fn lemma_each_option_sets_its_field(r: Reading, value: Seq<char>)
    requires
        0 <= r.used,
    ensures
        ({
            let after = net_option(r, argument::written("ip_addr"@, value));
            match number::ipv4(value) {
                Some(x) => after matches Ok(a) && a.net.ip_addr == Some(x) && a.net.common
                    == r.net.common && a.net.netmask == r.net.netmask && a.net.mac_addr
                    == r.net.mac_addr && a.net.tap_name == r.net.tap_name && a.macs == r.macs
                    && a.used == r.used,
                None => after matches Err(e) && e.value == value && e.expected
                    == "`ip_addr` needs to be in the form \"x.x.x.x\""@,
            }
        }),
        ({
            let after = net_option(r, argument::written("netmask"@, value));
            match number::ipv4(value) {
                Some(x) => after matches Ok(a) && a.net.netmask == Some(x) && a.net.common
                    == r.net.common && a.net.ip_addr == r.net.ip_addr && a.net.mac_addr
                    == r.net.mac_addr && a.net.tap_name == r.net.tap_name && a.macs == r.macs
                    && a.used == r.used,
                None => after matches Err(e) && e.value == value && e.expected
                    == "`netmask` needs to be in the form \"x.x.x.x\""@,
            }
        }),
        ({
            let after = net_option(r, argument::written("mac"@, value));
            if r.used < r.macs.len() && r.macs[r.used] is Some {
                after matches Ok(a) && a.net.mac_addr == r.macs[r.used] && a.used == r.used + 1
                    && a.macs == r.macs && a.net.common == r.net.common && a.net.ip_addr
                    == r.net.ip_addr && a.net.netmask == r.net.netmask && a.net.tap_name
                    == r.net.tap_name
            } else {
                after matches Err(e) && e.value == value && e.expected
                    == "`mac` needs to be in the form \"XX:XX:XX:XX:XX:XX\""@
            }
        }),
        net_option(r, argument::written("tapName"@, value)) matches Ok(a) && a.net.tap_name
            == Some(value) && a.net.common == r.net.common && a.net.ip_addr == r.net.ip_addr
            && a.net.netmask == r.net.netmask && a.net.mac_addr == r.net.mac_addr && a.macs
            == r.macs && a.used == r.used,
        ({
            let after = net_option(r, argument::written("label"@, value));
            match argument::label(value, net_words()) {
                Ok(l) => after matches Ok(a) && a.net.common.label == l && a.net.common.mmio
                    == r.net.common.mmio && a.net.common.config_space == r.net.common.config_space
                    && a.net.ip_addr == r.net.ip_addr && a.net.netmask == r.net.netmask
                    && a.net.mac_addr == r.net.mac_addr && a.net.tap_name == r.net.tap_name
                    && a.macs == r.macs && a.used == r.used,
                Err(e) => after == Err::<Reading, argument::Refusal>(e),
            }
        }),
{
    lemma_kinds();
    argument::lemma_option_reads_back("label"@, value, net_words().form@);
    argument::lemma_option_reads_back("ip_addr"@, value, net_words().form@);
    argument::lemma_option_reads_back("netmask"@, value, net_words().form@);
    argument::lemma_option_reads_back("mac"@, value, net_words().form@);
    argument::lemma_option_reads_back("tapName"@, value, net_words().form@);
}

/// An option of another kind, or one without a value, is refused.
pub proof fn lemma_other_options_are_refused(r: Reading, kind: Seq<char>, value: Seq<char>)
    requires
        !kind.contains('='),
    ensures
        kind != "label"@ && kind != "ip_addr"@ && kind != "netmask"@ && kind != "mac"@ && kind
            != "tapName"@ ==> (net_option(r, argument::written(kind, value)) matches Err(e)
            && e.value == kind && e.expected == "unrecognized net option"@),
        net_option(r, kind) matches Err(e) && e.value == kind && e.expected
            == "net options must be of the form `kind=value`"@,
{
    argument::lemma_option_reads_back(kind, value, net_words().form@);
    argument::lemma_option_reads_back(kind, kind, net_words().form@);
}

/// An interface is asked for by options, each of which acts on what stands
/// before it; the hardware addresses are used in the order of their options.
/// Without options there is nothing to it.
pub proof fn lemma_options_act_in_turn(
    param: Seq<char>,
    opt: Seq<char>,
    macs: Seq<Option<Seq<u8>>>,
    before: Reading,
)
    requires
        !opt.contains(','),
        asked(param, macs) == Ok::<Net, argument::Refusal>(before.net),
        before.macs == macs,
        before.used == mac_values(argument::option_parts(param)).len(),
    ensures
        match net_option(before, opt) {
            Ok(after) => asked(argument::longer(param, opt), macs) == Ok::<Net, argument::Refusal>(
                after.net,
            ),
            Err(e) => asked(argument::longer(param, opt), macs) == Err::<Net, _>(e),
        },
{
    let start = Reading { net: default_net(), macs, used: 0 };
    let opts = argument::option_parts(param);
    argument::lemma_longer_argument(param, opt);
    argument::lemma_one_more_option::<NetReader>(start, opts, opt);
    lemma_macs_used(macs, opts);
    assert(argument::with_options::<NetReader>(start, opts)->Ok_0 == before);
}

/// A refusal of what stands in front stays what it is, and a word alone asks
/// for an interface without a label, an address or a name.
pub proof fn lemma_plain_interface(
    param: Seq<char>,
    opt: Seq<char>,
    macs: Seq<Option<Seq<u8>>>,
)
    requires
        !opt.contains(','),
    ensures
        asked(param, macs) is Err ==> asked(argument::longer(param, opt), macs) == asked(
            param,
            macs,
        ),
        !opt.contains('=') ==> (asked(opt, macs) matches Ok(d) && d.common.label == 0
            && d.common.mmio is None && d.common.config_space == Some(Seq::<u32>::empty())
            && d.ip_addr is None && d.netmask is None && d.mac_addr is None && d.tap_name is None),
{
    let start = Reading { net: default_net(), macs, used: 0 };
    argument::lemma_longer_argument(param, opt);
    argument::lemma_single_part(opt);
    argument::lemma_one_more_option::<NetReader>(start, argument::option_parts(param), opt);
    if !opt.contains('=') {
        assert(argument::option_parts(opt) =~= Seq::empty());
    }
}

/// The hardware addresses that are looked up are the values of just the
/// options that give one, in their order.
pub proof fn lemma_macs_are_looked_up_in_order(
    opts: Seq<Seq<char>>,
    kind: Seq<char>,
    value: Seq<char>,
)
    requires
        !kind.contains('='),
    ensures
        mac_values(Seq::empty()).len() == 0,
        mac_values(opts.push(argument::written("mac"@, value))) == mac_values(opts).push(value),
        kind != "mac"@
            ==> mac_values(opts.push(argument::written(kind, value))) == mac_values(opts),
        mac_values(opts.push(kind)) == mac_values(opts),
{
    lemma_kinds();
    text::lemma_pair_of_key_and_value("mac"@, value, '=');
    text::lemma_pair_of_key_and_value(kind, value, '=');
    text::lemma_pair_is_the_text(kind, '=');
    assert(opts.push(argument::written("mac"@, value)).drop_last() =~= opts);
    assert(opts.push(argument::written(kind, value)).drop_last() =~= opts);
    assert(opts.push(kind).drop_last() =~= opts);
}

fn words() -> (r: Words)
    ensures
        r == net_words(),
{
    Words {
        form: "net options must be of the form `kind=value`",
        number: "`label` must be an unsigned integer",
        zero: "invalid `label` value",
        unknown: "unrecognized net option",
    }
}

/// The values of the hardware addresses in an argument, in order.
pub fn mac_texts(param: &str) -> (r: Vec<String>)
    ensures
        r@.len() == mac_values(argument::option_parts(param@)).len(),
        forall|i: int|
            0 <= i < r@.len() ==> (#[trigger] r@[i])@ == mac_values(
                argument::option_parts(param@),
            )[i],
{
    let (parts, from) = argument::option_components(param);
    let ghost opts = argument::option_parts(param@);
    let n: usize = parts.len();
    let mut r: Vec<String> = Vec::new();
    let mut i: usize = from;
    assert(opts.take(0) =~= Seq::empty());
    while i < n
        invariant
            from <= i <= n,
            n == parts@.len(),
            opts == text::texts(parts@).skip(from as int),
            r@.len() == mac_values(opts.take(i - from)).len(),
            forall|j: int|
                0 <= j < r@.len() ==> (#[trigger] r@[j])@ == mac_values(opts.take(i - from))[j],
        decreases n - i,
    {
        let opt = parts[i];
        proof {
            assert(text::texts(parts@)[i as int] == opt@);
            assert(opts.take(i - from + 1).drop_last() =~= opts.take(i - from));
            assert(opts.take(i - from + 1).last() == opt@);
        }
        if let Some((kind, value)) = text::split_pair(opt, '=') {
            if text::same(kind, "mac") {
                r.push(value.to_owned());
            }
        }
        i += 1;
    }
    assert(opts.take(n - from) =~= opts);
    r
}

impl VirtioDevice for VirtioNet {
    open spec fn common(&self) -> Common {
        self.common
    }

    open spec fn with_common(&self, c: Common) -> Self {
        VirtioNet { common: c, ..*self }
    }

    fn common_ref(&self) -> (r: &Common) {
        &self.common
    }

    fn common_mut(&mut self) -> (r: &mut Common) {
        &mut self.common
    }
}

/// An interface whose options are being read.
pub struct NetReader {
    pub device: VirtioNet,
    pub macs: Vec<Option<[u8; 6]>>,
    pub used: usize,
}

impl View for NetReader {
    type V = Reading;

    open spec fn view(&self) -> Reading {
        Reading { net: self.device@, macs: addresses(self.macs@), used: self.used as int }
    }
}

impl Optioned for NetReader {
    open spec fn option_effect(r: Reading, opt: Seq<char>) -> Result<Reading, argument::Refusal> {
        net_option(r, opt)
    }

    fn take_option(&mut self, opt: &str) -> (r: Result<(), Error>) {
        let (kind, value) = match argument::read_option(opt, words().form) {
            Ok(kv) => kv,
            Err(e) => {
                return Err(e);
            },
        };
        if text::same(kind, "label") {
            match argument::read_label(value, words()) {
                Ok(label) => {
                    self.device.common.label = label;
                    Ok(())
                },
                Err(e) => Err(e),
            }
        } else if text::same(kind, "ip_addr") {
            match number::parse_ipv4(value) {
                Some(a) => {
                    self.device.ip_addr = Some(a);
                    Ok(())
                },
                None => Err(
                    argument::invalid(value, "`ip_addr` needs to be in the form \"x.x.x.x\""),
                ),
            }
        } else if text::same(kind, "netmask") {
            match number::parse_ipv4(value) {
                Some(a) => {
                    self.device.netmask = Some(a);
                    Ok(())
                },
                None => Err(
                    argument::invalid(value, "`netmask` needs to be in the form \"x.x.x.x\""),
                ),
            }
        } else if text::same(kind, "mac") {
            let at: usize = self.used;
            let mac = if at < self.macs.len() {
                self.macs[at]
            } else {
                None
            };
            if mac.is_some() {
                self.device.mac_addr = mac;
                self.used = at + 1;
                Ok(())
            } else {
                Err(
                    argument::invalid(
                        value,
                        "`mac` needs to be in the form \"XX:XX:XX:XX:XX:XX\"",
                    ),
                )
            }
        } else if text::same(kind, "tapName") {
            self.device.tap_name = Some(value.to_owned());
            Ok(())
        } else {
            Err(argument::invalid(kind, words().unknown))
        }
    }
}

/// What an interface that has an address, a mask or a hardware address lacks of
/// the others.
pub open spec fn lacking(net: Net) -> Seq<Seq<char>> {
    if net.ip_addr is None && net.netmask is None && net.mac_addr is None {
        Seq::empty()
    } else {
        (if net.ip_addr is None {
            seq!["ip address not found"@]
        } else {
            Seq::empty()
        }) + (if net.netmask is None {
            seq!["netmask not found"@]
        } else {
            Seq::empty()
        }) + (if net.mac_addr is None {
            seq!["mac address not found"@]
        } else {
            Seq::empty()
        })
    }
}

impl VirtioNet {
    /// An interface without a label or an address.
    pub fn new() -> (r: Self)
        ensures
            r@ == default_net(),
    {
        VirtioNet {
            common: Common::new(0),
            ip_addr: None,
            netmask: None,
            mac_addr: None,
            tap_name: None,
        }
    }

    /// The warnings for an interface that has only some of its addresses.
    pub fn warnings(&self) -> (r: Vec<&'static str>)
        ensures
            text::texts(r@) == lacking(self@),
    {
        let mut r: Vec<&'static str> = Vec::new();
        if self.ip_addr.is_some() || self.netmask.is_some() || self.mac_addr.is_some() {
            if self.ip_addr.is_none() {
                r.push("ip address not found");
            }
            if self.netmask.is_none() {
                r.push("netmask not found");
            }
            if self.mac_addr.is_none() {
                r.push("mac address not found");
            }
        }
        assert(text::texts(r@) =~= lacking(self@));
        r
    }
}

/// The network interfaces of the virtual machine.
#[derive(Debug)]
pub struct VirtioNetDevices {
    pub virtio_nets: Vec<VirtioNet>,
    pub network_dev: bool,
    pub vhost_net_device_path: String,
    pub vhost_net: bool,
}

/// `VirtioNetDevices` with its texts and lists as sequences.
pub struct Nets {
    pub nets: Seq<Net>,
    pub network_dev: bool,
    pub device_path: Seq<char>,
    pub vhost_net: bool,
}

impl View for VirtioNetDevices {
    type V = Nets;

    open spec fn view(&self) -> Nets {
        Nets {
            nets: creation::views(self.virtio_nets@),
            network_dev: self.network_dev,
            device_path: self.vhost_net_device_path@,
            vhost_net: self.vhost_net,
        }
    }
}

/// How an interface is built. It is only built if its address, its mask and its
/// hardware address are known.
pub open spec fn net_order(all: Nets, net: Net) -> Option<creation::Order> {
    if net.ip_addr is Some && net.netmask is Some && net.mac_addr is Some && all.vhost_net {
        Some(
            creation::Order::Net {
                device_path: all.device_path,
                ip_addr: net.ip_addr->0,
                netmask: net.netmask->0,
                mac_addr: net.mac_addr->0,
                name: match net.tap_name {
                    Some(name) => Some("vmtap-"@ + name),
                    None => None,
                },
            },
        )
    } else {
        None
    }
}

/// What is to be done for the interfaces.
pub open spec fn tasks(all: Nets) -> Seq<creation::Task> {
    Seq::new(
        all.nets.len(),
        |i: int|
            creation::Task {
                label: all.nets[i].common.label,
                order: net_order(all, all.nets[i]),
            },
    )
}

/// An interface is built exactly if the host serves the network and all three
/// of its addresses are known, with each of them in its place, under its own
/// label and, if it has a name, under that name with the mark of a virtual
/// machine in front.
pub proof fn lemma_each_interface_is_built_as_asked(all: Nets, i: int)
    requires
        0 <= i < all.nets.len(),
    ensures
        tasks(all).len() == all.nets.len(),
        tasks(all)[i].label == all.nets[i].common.label,
        tasks(all)[i].order is Some <==> all.vhost_net && all.nets[i].ip_addr is Some
            && all.nets[i].netmask is Some && all.nets[i].mac_addr is Some,
        tasks(all)[i].order matches Some(order) ==> (order matches creation::Order::Net {
            device_path,
            ip_addr,
            netmask,
            mac_addr,
            name,
        } && {
            &&& device_path == all.device_path
            &&& Some(ip_addr) == all.nets[i].ip_addr
            &&& Some(netmask) == all.nets[i].netmask
            &&& Some(mac_addr) == all.nets[i].mac_addr
            &&& all.nets[i].tap_name is None ==> name is None
            &&& all.nets[i].tap_name matches Some(tap) ==> name == Some("vmtap-"@ + tap)
        }),
{
}

/// An interface is warned of exactly for what it lacks, if it has anything of
/// what it needs.
pub proof fn lemma_warnings_name_what_lacks(net: Net)
    ensures
        ({
            let none = net.ip_addr is None && net.netmask is None && net.mac_addr is None;
            &&& none ==> lacking(net).len() == 0
            &&& !none ==> (lacking(net).contains("ip address not found"@) <==> net.ip_addr is None)
            &&& !none ==> (lacking(net).contains("netmask not found"@) <==> net.netmask is None)
            &&& !none ==> (lacking(net).contains("mac address not found"@) <==> net.mac_addr
                is None)
            &&& lacking(net).len() <= 2
        }),
{
    reveal_strlit("ip address not found");
    reveal_strlit("netmask not found");
    reveal_strlit("mac address not found");
    let (ip, mask, mac) = ("ip address not found"@, "netmask not found"@, "mac address not found"@);
    assert(ip.len() == 20 && mask.len() == 17 && mac.len() == 21);
    let l = lacking(net);
    if !(net.ip_addr is None && net.netmask is None && net.mac_addr is None) {
        if net.ip_addr is None {
            assert(l[0] == ip);
        }
        if net.netmask is None {
            assert(l[if net.ip_addr is None {
                1
            } else {
                0int
            }] == mask);
        }
        if net.mac_addr is None {
            assert(l[l.len() - 1] == mac);
        }
    }
}

impl VirtioNetDevices {
    /// No interfaces.
    pub fn new() -> (r: Self)
        ensures
            r@ == (Nets {
                nets: Seq::empty(),
                network_dev: false,
                device_path: "/dev/vhost-net"@,
                vhost_net: true,
            }),
    {
        let r = VirtioNetDevices {
            virtio_nets: Vec::new(),
            network_dev: false,
            vhost_net_device_path: "/dev/vhost-net".to_owned(),
            vhost_net: true,
        };
        assert(r@.nets =~= Seq::empty());
        r
    }

    /// Takes the interface that the argument asks for. `macs` holds the
    /// hardware address that each of `mac_texts` stands for.
    pub fn set_argument(&mut self, value: Option<&str>, macs: Vec<Option<[u8; 6]>>) -> (r: Result<
        (),
        Error,
    >)
        requires
            value is Some,
            macs@.len() == mac_values(argument::option_parts(value->0@)).len(),
        ensures
            argument::listed(
                r,
                final(self)@.nets,
                asked(value->0@, addresses(macs@)),
                old(self)@.nets,
            ),
            final(self)@ == (Nets {
                nets: final(self)@.nets,
                network_dev: old(self)@.network_dev || argument::head(value->0@) == "true"@,
                ..old(self)@
            }),
    {
        let param = match value {
            Some(param) => param,
            None => "",
        };
        let (parts, from) = argument::option_components(param);
        if text::same(parts[0], "true") {
            self.network_dev = true;
        }
        let mut reader = NetReader { device: VirtioNet::new(), macs, used: 0 };
        match argument::take_options(&mut reader, &parts, from) {
            Ok(_) => {},
            Err(e) => {
                return Err(e);
            },
        }
        let ghost net = reader@.net;
        self.virtio_nets.push(reader.device);
        assert(self@.nets =~= old(self)@.nets.push(net));
        Ok(())
    }

    /// What is to be done for one interface.
    fn job(&self, net: &VirtioNet) -> (r: Job)
        ensures
            r@ == (creation::Task { label: net@.common.label, order: net_order(self@, net@) }),
    {
        let build = match (net.ip_addr, net.netmask, net.mac_addr) {
            (Some(ip_addr), Some(netmask), Some(mac_addr)) => {
                if self.vhost_net {
                    let name = match &net.tap_name {
                        Some(name) => Some(text::concat("vmtap-", name.as_str())),
                        None => None,
                    };
                    Some(
                        Build::Net {
                            device_path: self.vhost_net_device_path.clone(),
                            ip_addr,
                            netmask,
                            mac_addr,
                            name,
                        },
                    )
                } else {
                    None
                }
            },
            _ => None,
        };
        Job { label: net.common.label, build }
    }

    /// Starts to create the interfaces.
    pub fn create_net_devices(&self, cfg: &BackendConfig) -> (r: Creation)
        requires
            self@.nets.len() > 0 ==> creation::ready(cfg@),
        ensures
            r.wf(),
            r.plan() == creation::plan_for(tasks(self@), cfg@),
            r.making() == creation::reach(r.plan(), 0, Seq::empty()),
    {
        let ghost all = tasks(self@);
        let mut jobs: Vec<Job> = Vec::new();
        let n: usize = self.virtio_nets.len();
        let mut i: usize = 0;
        while i < n
            invariant
                i <= n,
                n == self.virtio_nets@.len(),
                all == tasks(self@),
                creation::tasks(jobs@) == all.take(i as int),
            decreases n - i,
        {
            let job = self.job(&self.virtio_nets[i]);
            proof {
                assert(self@.nets[i as int] == self.virtio_nets@[i as int]@);
                assert(job@ == all[i as int]);
                assert(creation::tasks(jobs@.push(job)) =~= creation::tasks(jobs@).push(job@));
                assert(all.take(i + 1) =~= all.take(i as int).push(job@));
            }
            jobs.push(job);
            i += 1;
        }
        assert(all.take(n as int) =~= all);
        creation::create(jobs, cfg)
    }
}

} // verus!
