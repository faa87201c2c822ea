//! Devices of no particular kind that a process behind a socket implements.
use vstd::prelude::*;

use crate::argument::{Error, Optioned, Words};
use crate::argument;
use crate::config::BackendConfig;
use crate::creation::{Build, Buildable, Creation, Job};
use crate::creation;
use crate::device::{Common, VirtioDevice};
use crate::device;
use crate::number;
use crate::text;
use crate::vhost_user::VhostUserOption;

verus! {

/// A device of no particular kind.
#[derive(Debug)]
pub struct VuVirtioGeneric {
    pub common: Common,
    pub num_queues: Option<u64>,
    pub vhost_user_generic: VhostUserOption,
}

/// `VuVirtioGeneric` with its texts and lists as sequences.
pub struct Generic {
    pub common: device::Part,
    pub num_queues: Option<u64>,
    pub socket: Seq<char>,
}

impl View for VuVirtioGeneric {
    type V = Generic;

    open spec fn view(&self) -> Generic {
        Generic {
            common: self.common@,
            num_queues: self.num_queues,
            socket: self.vhost_user_generic.socket@,
        }
    }
}

/// A device before any option was read.
pub open spec fn default_generic(socket: Seq<char>) -> Generic {
    Generic { common: device::fresh(0), num_queues: None, socket }
}

/// What the options of a device of no particular kind are told when they are refused.
pub open spec fn generic_words() -> Words {
    Words {
        form: "vhost-user-generic options must be of the form `kind=value`",
        number: "`label` must be an unsigned integer",
        zero: "`label` must be a non zero integer",
        unknown: "supported vhost-user-generic options only",
    }
}

/// What the option `opt` does to a device.
pub open spec fn generic_option(d: Generic, opt: Seq<char>) -> Result<Generic, argument::Refusal> {
    match argument::kind_value(opt, generic_words().form@) {
        Err(e) => Err(e),
        Ok((kind, value)) => if kind == "label"@ {
            match argument::label(value, generic_words()) {
                Ok(label) => Ok(Generic { common: device::Part { label, ..d.common }, ..d }),
                Err(e) => Err(e),
            }
        } else if kind == "queue-num"@ {
            match number::unsigned(value, 10, u64::MAX as nat) {
                Some(n) => Ok(Generic { num_queues: Some(n as u64), ..d }),
                None => Err(
                    argument::Refusal {
                        value,
                        expected: "queue number must be an unsigned integer "@,
                    },
                ),
            }
        } else {
            Err(argument::Refusal { value: kind, expected: generic_words().unknown@ })
        },
    }
}

/// The device that the argument `param` asks for. Its first part is the
/// socket; `exists` says whether there is one.
pub open spec fn asked(param: Seq<char>, exists: bool) -> Result<Generic, argument::Refusal> {
    if !exists {
        Err(
            argument::Refusal {
                value: param,
                expected: "vhost-user-generic socket path must be an existing path"@,
            },
        )
    } else {
        argument::with_options::<VuVirtioGeneric>(
            default_generic(argument::head(param)),
            argument::options(param),
        )
    }
}

/// An accepted argument gives a label if and only if it has an option for it,
/// and then the label is not zero.
pub proof fn lemma_label_is_given(param: Seq<char>, exists: bool)
    requires
        asked(param, exists) is Ok,
    ensures
        asked(param, exists)->Ok_0.common.label == 0 <==> !argument::has_kind(
            argument::options(param),
            "label"@,
        ),
{
    argument::lemma_label_follows_options::<VuVirtioGeneric>(
        default_generic(argument::head(param)),
        argument::options(param),
        |d: Generic| d.common.label,
    );
}

/// The kinds of options are different words without the characters that cut an
/// argument.
proof fn lemma_kinds()
    ensures
        !"label"@.contains('='),
        !"label"@.contains(','),
        !"queue-num"@.contains('='),
        !"queue-num"@.contains(','),
        "label"@ != "queue-num"@,
{
    reveal_strlit("label");
    reveal_strlit("queue-num");
    assert("label"@ =~= seq!['l', 'a', 'b', 'e', 'l']);
    assert("queue-num"@ =~= seq!['q', 'u', 'e', 'u', 'e', '-', 'n', 'u', 'm']);
    assert("label"@.len() != "queue-num"@.len());
}

/// What each option sets, and that it leaves everything else as it is.
pub proof fn lemma_each_option_sets_its_field(d: Generic, value: Seq<char>)
    ensures
        ({
            let after = generic_option(d, argument::written("label"@, value));
            match argument::label(value, generic_words()) {
                Ok(l) => after matches Ok(a) && a.common.label == l && a.common.mmio
                    == d.common.mmio && a.common.config_space == d.common.config_space
                        && a.num_queues == d.num_queues && a.socket == d.socket,
                Err(e) => after == Err::<Generic, argument::Refusal>(e),
            }
        }),
        ({
            let after = generic_option(d, argument::written("queue-num"@, value));
            match number::unsigned(value, 10, 0xffff_ffff_ffff_ffff) {
                Some(n) => after matches Ok(a) && (a.num_queues matches Some(m) && m == n)
                    && a.common == d.common && a.socket == d.socket,
                None => after matches Err(e) && e.value == value && e.expected
                    == "queue number must be an unsigned integer "@,
            }
        }),
{
    lemma_kinds();
    argument::lemma_option_reads_back("label"@, value, generic_words().form@);
    argument::lemma_option_reads_back("queue-num"@, value, generic_words().form@);
}

/// An option of another kind, or one without a value, is refused.
pub proof fn lemma_other_options_are_refused(d: Generic, kind: Seq<char>, value: Seq<char>)
    requires
        !kind.contains('='),
    ensures
        kind != "label"@
            && kind != "queue-num"@
            ==> (generic_option(d, argument::written(kind, value)) matches Err(e) && e.value == kind
            && e.expected == "supported vhost-user-generic options only"@),
        generic_option(d, kind) matches Err(e) && e.value == kind
            && e.expected == "vhost-user-generic options must be of the form `kind=value`"@,
{
    argument::lemma_option_reads_back(kind, value, generic_words().form@);
    argument::lemma_option_reads_back(kind, kind, generic_words().form@);
}

/// A device is asked for by its socket alone or with options behind it, each
/// of which acts on what stands before it. Without the socket there is none.
pub proof fn lemma_options_act_in_turn(param: Seq<char>, opt: Seq<char>)
    requires
        !opt.contains(','),
    ensures
        asked(argument::longer(param, opt), true) == match asked(param, true) {
            Ok(d) => generic_option(d, opt),
            Err(e) => Err(e),
        },
        asked(opt, true) matches Ok(d) && d.socket == opt && d.num_queues is None
            && d.common.label == 0 && d.common.mmio is None
            && d.common.config_space == Some(Seq::<u32>::empty()),
        asked(param, false) matches Err(e) && e.value == param && e.expected
            == "vhost-user-generic socket path must be an existing path"@,
{
    argument::lemma_longer_argument(param, opt);
    argument::lemma_single_part(opt);
    argument::lemma_one_more_option::<VuVirtioGeneric>(
        default_generic(argument::head(param)),
        argument::options(param),
        opt,
    );
    assert(argument::options(opt) =~= Seq::empty());
    argument::lemma_one_more_option::<VuVirtioGeneric>(
        default_generic(opt),
        argument::options(opt),
        opt,
    );
}

fn words() -> (r: Words)
    ensures
        r == generic_words(),
{
    Words {
        form: "vhost-user-generic options must be of the form `kind=value`",
        number: "`label` must be an unsigned integer",
        zero: "`label` must be a non zero integer",
        unknown: "supported vhost-user-generic options only",
    }
}

impl VirtioDevice for VuVirtioGeneric {
    open spec fn common(&self) -> Common {
        self.common
    }

    open spec fn with_common(&self, c: Common) -> Self {
        VuVirtioGeneric { common: c, ..*self }
    }

    fn common_ref(&self) -> (r: &Common) {
        &self.common
    }

    fn common_mut(&mut self) -> (r: &mut Common) {
        &mut self.common
    }
}

impl Optioned for VuVirtioGeneric {
    open spec fn option_effect(d: Generic, opt: Seq<char>) -> Result<Generic, argument::Refusal> {
        generic_option(d, opt)
    }

    fn take_option(&mut self, opt: &str) -> (r: Result<(), Error>) {
        let (kind, value) = match argument::read_option(opt, words().form) {
            Ok(kv) => kv,
            Err(e) => {
                return Err(e);
            },
        };
        if text::same(kind, "label") {
            match argument::read_label(value, words()) {
                Ok(label) => {
                    self.common.label = label;
                    Ok(())
                },
                Err(e) => Err(e),
            }
        } else if text::same(kind, "queue-num") {
            match number::parse_unsigned(value, 10, u64::MAX) {
                Some(n) => {
                    self.num_queues = Some(n);
                    Ok(())
                },
                None => Err(
                    argument::invalid(value, "queue number must be an unsigned integer "),
                ),
            }
        } else {
            Err(argument::invalid(kind, words().unknown))
        }
    }
}

/// A device is built as it was asked for, under its own label.
pub proof fn lemma_device_is_built_as_asked(d: Generic, version: u8)
    ensures
        VuVirtioGeneric::task(d, version).label == d.common.label,
        VuVirtioGeneric::task(d, version).order matches Some(creation::Order::VhostUserGeneric {
            socket,
            num_queues,
        }) && socket == d.socket && num_queues == d.num_queues,
{
}

impl Buildable for VuVirtioGeneric {
    open spec fn task(d: Generic, version: u8) -> creation::Task {
        creation::Task {
            label: d.common.label,
            order: Some(
                creation::Order::VhostUserGeneric { socket: d.socket, num_queues: d.num_queues },
            ),
        }
    }

    fn job(&self, version: u8) -> (r: Job) {
        Job {
            label: self.common.label,
            build: Some(
                Build::VhostUserGeneric {
                    socket: self.vhost_user_generic.socket.clone(),
                    num_queues: self.num_queues,
                },
            ),
        }
    }
}

impl VuVirtioGeneric {
    /// A device without a label or a socket.
    pub fn new() -> (r: Self)
        ensures
            r@ == default_generic(Seq::empty()),
    {
        VuVirtioGeneric {
            common: Common::new(0),
            num_queues: None,
            vhost_user_generic: VhostUserOption { socket: String::new() },
        }
    }
}

/// The devices of no particular kind of the virtual machine.
#[derive(Debug)]
pub struct VuVirtioGenericDevices {
    pub vugeneric_devices: Vec<VuVirtioGeneric>,
}

impl View for VuVirtioGenericDevices {
    type V = Seq<Generic>;

    open spec fn view(&self) -> Seq<Generic> {
        creation::views(self.vugeneric_devices@)
    }
}

impl VuVirtioGenericDevices {
    /// None of these devices.
    pub fn new() -> (r: Self)
        ensures
            r@ == Seq::<Generic>::empty(),
    {
        let r = VuVirtioGenericDevices { vugeneric_devices: Vec::new() };
        assert(r@ =~= Seq::empty());
        r
    }

    /// Takes the device that the argument asks for. `exists` says
    /// whether the socket exists.
    pub fn set_argument(&mut self, value: Option<&str>, exists: bool) -> (r: Result<(), Error>)
        requires
            value is Some,
        ensures
            argument::listed(r, final(self)@, asked(value->0@, exists), old(self)@),
    {
        let param = match value {
            Some(param) => param,
            None => "",
        };
        let mut device = VuVirtioGeneric::new();
        let parts = argument::components(param);
        device.vhost_user_generic = VhostUserOption { socket: parts[0].to_owned() };
        if !exists {
            return Err(
                argument::invalid(param, "vhost-user-generic socket path must be an existing path"),
            );
        }
        match argument::take_options(&mut device, &parts, 1) {
            Ok(_) => {},
            Err(e) => {
                return Err(e);
            },
        }
        let ghost taken = device@;
        self.vugeneric_devices.push(device);
        assert(self@ =~= old(self)@.push(taken));
        Ok(())
    }

    /// Starts to create the devices.
    pub fn create_vugeneric_devices(&self, cfg: &BackendConfig) -> (r: Creation)
        requires
            self@.len() > 0 ==> creation::ready(cfg@),
        ensures
            r.wf(),
            r.plan() == creation::plan_for(
                creation::tasks_for::<VuVirtioGeneric>(self@, cfg@.driver_variant),
                cfg@,
            ),
            r.making() == creation::reach(r.plan(), 0, Seq::empty()),
    {
        creation::create_all(&self.vugeneric_devices, cfg)
    }
}

} // verus!
