//! Channels of the hypervisor abstraction that a process behind a socket
//! implements.
use vstd::prelude::*;

use crate::argument::{Error, Optioned, Words};
use crate::argument;
use crate::config::BackendConfig;
use crate::creation::{Build, Buildable, Creation, Job};
use crate::creation;
use crate::device::{Common, VirtioDevice};
use crate::device;
use crate::number;
use crate::text;
use crate::vhost_user::VhostUserOption;

verus! {

/// A channel of the hypervisor abstraction.
#[derive(Debug)]
pub struct VirtioHab {
    pub common: Common,
    pub hab_device_id: u32,
    pub no_of_queues: u32,
    pub vhost_user_hab: VhostUserOption,
}

/// `VirtioHab` with its texts and lists as sequences.
pub struct Hab {
    pub common: device::Part,
    pub device_id: u32,
    pub no_of_queues: u32,
    pub socket: Seq<char>,
}

impl View for VirtioHab {
    type V = Hab;

    open spec fn view(&self) -> Hab {
        Hab {
            common: self.common@,
            device_id: self.hab_device_id,
            no_of_queues: self.no_of_queues,
            socket: self.vhost_user_hab.socket@,
        }
    }
}

/// A channel before any option was read.
pub open spec fn default_hab(socket: Seq<char>) -> Hab {
    Hab { common: device::fresh(0), device_id: 0, no_of_queues: 0, socket }
}

/// What the options of a hypervisor channel are told when they are refused.
pub open spec fn hab_words() -> Words {
    Words {
        form: "vhost HAB options must be of the form `kind=value`",
        number: "`label` must be an unsigned integer",
        zero: "`label` must be a non zero integer",
        unknown: "supported vhost hab options only",
    }
}

/// What the option `opt` does to a channel.
pub open spec fn hab_option(d: Hab, opt: Seq<char>) -> Result<Hab, argument::Refusal> {
    match argument::kind_value(opt, hab_words().form@) {
        Err(e) => Err(e),
        Ok((kind, value)) => if kind == "label"@ {
            match argument::label(value, hab_words()) {
                Ok(label) => Ok(Hab { common: device::Part { label, ..d.common }, ..d }),
                Err(e) => Err(e),
            }
        } else if kind == "device-id"@ {
            match number::unsigned(value, 10, u32::MAX as nat) {
                Some(n) => Ok(Hab { device_id: n as u32, ..d }),
                None => Err(
                    argument::Refusal { value, expected: "device-id must be an integer"@ },
                ),
            }
        } else if kind == "queue-num"@ {
            match number::unsigned(value, 10, u32::MAX as nat) {
                Some(n) => Ok(Hab { no_of_queues: n as u32, ..d }),
                None => Err(
                    argument::Refusal { value, expected: "queue number must be an integer "@ },
                ),
            }
        } else {
            Err(argument::Refusal { value: kind, expected: hab_words().unknown@ })
        },
    }
}

/// The device that the argument `param` asks for. Its first part is the
/// socket; `exists` says whether there is one.
pub open spec fn asked(param: Seq<char>, exists: bool) -> Result<Hab, argument::Refusal> {
    if !exists {
        Err(
            argument::Refusal {
                value: param,
                expected: "vhost-user-hab socket path must be an existing path"@,
            },
        )
    } else {
        argument::with_options::<VirtioHab>(
            default_hab(argument::head(param)),
            argument::options(param),
        )
    }
}

/// An accepted argument gives a label if and only if it has an option for it,
/// and then the label is not zero.
pub proof fn lemma_label_is_given(param: Seq<char>, exists: bool)
    requires
        asked(param, exists) is Ok,
    ensures
        asked(param, exists)->Ok_0.common.label == 0 <==> !argument::has_kind(
            argument::options(param),
            "label"@,
        ),
{
    argument::lemma_label_follows_options::<VirtioHab>(
        default_hab(argument::head(param)),
        argument::options(param),
        |d: Hab| d.common.label,
    );
}

/// The kinds of options are different words without the characters that cut an
/// argument.
proof fn lemma_kinds()
    ensures
        !"label"@.contains('='),
        !"label"@.contains(','),
        !"device-id"@.contains('='),
        !"device-id"@.contains(','),
        !"queue-num"@.contains('='),
        !"queue-num"@.contains(','),
        "label"@ != "device-id"@,
        "label"@ != "queue-num"@,
        "device-id"@ != "queue-num"@,
{
    reveal_strlit("label");
    reveal_strlit("device-id");
    reveal_strlit("queue-num");
    assert("label"@ =~= seq!['l', 'a', 'b', 'e', 'l']);
    assert("device-id"@ =~= seq!['d', 'e', 'v', 'i', 'c', 'e', '-', 'i', 'd']);
    assert("queue-num"@ =~= seq!['q', 'u', 'e', 'u', 'e', '-', 'n', 'u', 'm']);
    assert("label"@.len() != "device-id"@.len());
    assert("label"@.len() != "queue-num"@.len());
    assert("device-id"@[0] != "queue-num"@[0]);
}

/// What each option sets, and that it leaves everything else as it is.
pub proof fn lemma_each_option_sets_its_field(d: Hab, value: Seq<char>)
    ensures
        ({
            let after = hab_option(d, argument::written("label"@, value));
            match argument::label(value, hab_words()) {
                Ok(l) => after matches Ok(a) && a.common.label == l && a.common.mmio
                    == d.common.mmio && a.common.config_space == d.common.config_space
                        && a.device_id == d.device_id && a.no_of_queues == d.no_of_queues
                        && a.socket == d.socket,
                Err(e) => after == Err::<Hab, argument::Refusal>(e),
            }
        }),
        ({
            let after = hab_option(d, argument::written("device-id"@, value));
            match number::unsigned(value, 10, 0xffff_ffff) {
                Some(n) => after matches Ok(a) && a.device_id == n && a.common == d.common
                    && a.no_of_queues == d.no_of_queues && a.socket == d.socket,
                None => after matches Err(e) && e.value == value && e.expected
                    == "device-id must be an integer"@,
            }
        }),
        ({
            let after = hab_option(d, argument::written("queue-num"@, value));
            match number::unsigned(value, 10, 0xffff_ffff) {
                Some(n) => after matches Ok(a) && a.no_of_queues == n && a.common == d.common
                    && a.device_id == d.device_id && a.socket == d.socket,
                None => after matches Err(e) && e.value == value && e.expected
                    == "queue number must be an integer "@,
            }
        }),
{
    lemma_kinds();
    argument::lemma_option_reads_back("label"@, value, hab_words().form@);
    argument::lemma_option_reads_back("device-id"@, value, hab_words().form@);
    argument::lemma_option_reads_back("queue-num"@, value, hab_words().form@);
}

/// An option of another kind, or one without a value, is refused.
pub proof fn lemma_other_options_are_refused(d: Hab, kind: Seq<char>, value: Seq<char>)
    requires
        !kind.contains('='),
    ensures
        kind != "label"@ && kind != "device-id"@
            && kind != "queue-num"@
            ==> (hab_option(d, argument::written(kind, value)) matches Err(e) && e.value == kind
            && e.expected == "supported vhost hab options only"@),
        hab_option(d, kind) matches Err(e) && e.value == kind
            && e.expected == "vhost HAB options must be of the form `kind=value`"@,
{
    argument::lemma_option_reads_back(kind, value, hab_words().form@);
    argument::lemma_option_reads_back(kind, kind, hab_words().form@);
}

/// A device is asked for by its socket alone or with options behind it, each
/// of which acts on what stands before it. Without the socket there is none.
pub proof fn lemma_options_act_in_turn(param: Seq<char>, opt: Seq<char>)
    requires
        !opt.contains(','),
    ensures
        asked(argument::longer(param, opt), true) == match asked(param, true) {
            Ok(d) => hab_option(d, opt),
            Err(e) => Err(e),
        },
        asked(opt, true) matches Ok(d) && d.socket == opt && d.device_id == 0
            && d.no_of_queues == 0 && d.common.label == 0 && d.common.mmio is None
            && d.common.config_space == Some(Seq::<u32>::empty()),
        asked(param, false) matches Err(e) && e.value == param && e.expected
            == "vhost-user-hab socket path must be an existing path"@,
{
    argument::lemma_longer_argument(param, opt);
    argument::lemma_single_part(opt);
    argument::lemma_one_more_option::<VirtioHab>(
        default_hab(argument::head(param)),
        argument::options(param),
        opt,
    );
    assert(argument::options(opt) =~= Seq::empty());
    argument::lemma_one_more_option::<VirtioHab>(
        default_hab(opt),
        argument::options(opt),
        opt,
    );
}

fn words() -> (r: Words)
    ensures
        r == hab_words(),
{
    Words {
        form: "vhost HAB options must be of the form `kind=value`",
        number: "`label` must be an unsigned integer",
        zero: "`label` must be a non zero integer",
        unknown: "supported vhost hab options only",
    }
}

impl VirtioDevice for VirtioHab {
    open spec fn common(&self) -> Common {
        self.common
    }

    open spec fn with_common(&self, c: Common) -> Self {
        VirtioHab { common: c, ..*self }
    }

    fn common_ref(&self) -> (r: &Common) {
        &self.common
    }

    fn common_mut(&mut self) -> (r: &mut Common) {
        &mut self.common
    }
}

impl Optioned for VirtioHab {
    open spec fn option_effect(d: Hab, opt: Seq<char>) -> Result<Hab, argument::Refusal> {
        hab_option(d, opt)
    }

    fn take_option(&mut self, opt: &str) -> (r: Result<(), Error>) {
        let (kind, value) = match argument::read_option(opt, words().form) {
            Ok(kv) => kv,
            Err(e) => {
                return Err(e);
            },
        };
        if text::same(kind, "label") {
            match argument::read_label(value, words()) {
                Ok(label) => {
                    self.common.label = label;
                    Ok(())
                },
                Err(e) => Err(e),
            }
        } else if text::same(kind, "device-id") {
            match number::parse_u32(value, 10) {
                Some(n) => {
                    self.hab_device_id = n;
                    Ok(())
                },
                None => Err(argument::invalid(value, "device-id must be an integer")),
            }
        } else if text::same(kind, "queue-num") {
            match number::parse_u32(value, 10) {
                Some(n) => {
                    self.no_of_queues = n;
                    Ok(())
                },
                None => Err(argument::invalid(value, "queue number must be an integer ")),
            }
        } else {
            Err(argument::invalid(kind, words().unknown))
        }
    }
}

/// A channel is built as it was asked for, under its own label.
pub proof fn lemma_device_is_built_as_asked(d: Hab, version: u8)
    ensures
        VirtioHab::task(d, version).label == d.common.label,
        VirtioHab::task(d, version).order matches Some(creation::Order::VhostUserHab {
            socket,
            device_id,
            no_of_queues,
        }) && socket == d.socket && device_id == d.device_id && no_of_queues == d.no_of_queues,
{
}

impl Buildable for VirtioHab {
    open spec fn task(d: Hab, version: u8) -> creation::Task {
        creation::Task {
            label: d.common.label,
            order: Some(
                creation::Order::VhostUserHab {
                    socket: d.socket,
                    device_id: d.device_id,
                    no_of_queues: d.no_of_queues,
                },
            ),
        }
    }

    fn job(&self, version: u8) -> (r: Job) {
        Job {
            label: self.common.label,
            build: Some(
                Build::VhostUserHab {
                    socket: self.vhost_user_hab.socket.clone(),
                    device_id: self.hab_device_id,
                    no_of_queues: self.no_of_queues,
                },
            ),
        }
    }
}

impl VirtioHab {
    /// A channel without a label or a socket.
    pub fn new() -> (r: Self)
        ensures
            r@ == default_hab(Seq::empty()),
    {
        VirtioHab {
            common: Common::new(0),
            hab_device_id: 0,
            no_of_queues: 0,
            vhost_user_hab: VhostUserOption { socket: String::new() },
        }
    }
}

/// The channels of the virtual machine.
#[derive(Debug)]
pub struct VirtioHabDevices {
    pub virtio_hab_devices: Vec<VirtioHab>,
}

impl View for VirtioHabDevices {
    type V = Seq<Hab>;

    open spec fn view(&self) -> Seq<Hab> {
        creation::views(self.virtio_hab_devices@)
    }
}

impl VirtioHabDevices {
    /// None of these devices.
    pub fn new() -> (r: Self)
        ensures
            r@ == Seq::<Hab>::empty(),
    {
        let r = VirtioHabDevices { virtio_hab_devices: Vec::new() };
        assert(r@ =~= Seq::empty());
        r
    }

    /// Takes the device that the argument asks for. `exists` says
    /// whether the socket came to exist while it was waited for.
    pub fn set_argument(&mut self, value: Option<&str>, exists: bool) -> (r: Result<(), Error>)
        requires
            value is Some,
        ensures
            argument::listed(r, final(self)@, asked(value->0@, exists), old(self)@),
    {
        let param = match value {
            Some(param) => param,
            None => "",
        };
        let mut device = VirtioHab::new();
        let parts = argument::components(param);
        device.vhost_user_hab = VhostUserOption { socket: parts[0].to_owned() };
        if !exists {
            return Err(
                argument::invalid(param, "vhost-user-hab socket path must be an existing path"),
            );
        }
        match argument::take_options(&mut device, &parts, 1) {
            Ok(_) => {},
            Err(e) => {
                return Err(e);
            },
        }
        let ghost taken = device@;
        self.virtio_hab_devices.push(device);
        assert(self@ =~= old(self)@.push(taken));
        Ok(())
    }

    /// Starts to create the devices.
    pub fn create_vhab_devices(&self, cfg: &BackendConfig) -> (r: Creation)
        requires
            self@.len() > 0 ==> creation::ready(cfg@),
        ensures
            r.wf(),
            r.plan() == creation::plan_for(
                creation::tasks_for::<VirtioHab>(self@, cfg@.driver_variant),
                cfg@,
            ),
            r.making() == creation::reach(r.plan(), 0, Seq::empty()),
    {
        creation::create_all(&self.virtio_hab_devices, cfg)
    }
}

} // verus!
