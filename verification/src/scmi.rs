//! System control devices that the kernel of the host implements.
use vstd::prelude::*;

use crate::argument::{Error, Words};
use crate::argument;
use crate::config::BackendConfig;
use crate::creation::{Build, Buildable, Creation, Job};
use crate::creation;
use crate::device::{Common, VirtioDevice};
use crate::text;
use crate::device;

verus! {

/// A system control device.
#[derive(Debug)]
pub struct ScmiDevice {
    pub common: Common,
}

/// `ScmiDevice` with its lists as sequences.
pub struct Scmi {
    pub common: device::Part,
}

impl View for ScmiDevice {
    type V = Scmi;

    open spec fn view(&self) -> Scmi {
        Scmi { common: self.common@ }
    }
}

/// What the options of a system control device are told when they are refused.
pub open spec fn scmi_words() -> Words {
    Words {
        form: "scmi options must be of the form `kind=value`",
        number: "`label` must be an unsigned integer",
        zero: "`label` must be a non zero integer",
        unknown: "supported scmi options only",
    }
}

/// The device that the argument `param` asks for. It may start with a word
/// that says nothing more.
pub open spec fn asked(param: Seq<char>) -> Result<Scmi, argument::Refusal> {
    match argument::given_label(param, scmi_words()) {
        Ok(label) => Ok(Scmi { common: device::fresh(label) }),
        Err(e) => Err(e),
    }
}

/// A device that is accepted has a label that is not zero, unless its argument
/// gives none.
pub proof fn lemma_label_is_given(param: Seq<char>)
    requires
        asked(param) is Ok,
    ensures
        asked(param)->Ok_0.common.label == 0 <==> argument::option_parts(param).len() == 0,
{
    argument::lemma_given_label_is_zero_only_without_options(param, scmi_words());
}

/// A word in front of the options changes nothing.
pub proof fn lemma_leading_word_changes_nothing(word: Seq<char>, param: Seq<char>)
    requires
        !word.contains(','),
        !word.contains('='),
        text::pair(argument::head(param), '=') is Some,
    ensures
        asked(word + seq![','] + param) == asked(param),
{
    argument::lemma_leading_word_is_passed_over(word, param);
}

/// A device is asked for by a word, by labels or by both; of the labels the
/// last one counts, and anything else is refused.
pub proof fn lemma_word_and_label(param: Seq<char>, word: Seq<char>, value: Seq<char>)
    requires
        !word.contains(','),
        !word.contains('='),
        !value.contains(','),
    ensures
        asked(word) matches Ok(d) && d.common.label == 0 && d.common.mmio is None
            && d.common.config_space == Some(Seq::<u32>::empty()),
        match argument::label(value, scmi_words()) {
            Ok(l) => (asked(argument::written("label"@, value)) matches Ok(a) && a.common.label
                == l) && (asked(param) is Ok ==> (asked(
                argument::longer(param, argument::written("label"@, value)),
            ) matches Ok(a) && a.common.label == l && a.common.mmio is None && a.common.config_space
                == Some(Seq::<u32>::empty()))),
            Err(e) => asked(argument::written("label"@, value)) == Err::<Scmi, argument::Refusal>(e)
                && (asked(param) is Ok ==> asked(
                argument::longer(param, argument::written("label"@, value)),
            ) == Err::<Scmi, argument::Refusal>(e)),
        },
        asked(param) matches Err(e) ==> asked(
            argument::longer(param, argument::written("label"@, value)),
        ) == Err::<Scmi, argument::Refusal>(e),
        asked(param) is Ok ==> asked(argument::longer(param, word)) is Err,
{
    argument::lemma_label_word();
    argument::lemma_labels_need_their_form(param, word, scmi_words());
    argument::lemma_last_label_counts(param, "label"@, value, scmi_words());
    argument::lemma_option_alone_counts("label"@, value, scmi_words());
}

fn words() -> (r: Words)
    ensures
        r == scmi_words(),
{
    Words {
        form: "scmi options must be of the form `kind=value`",
        number: "`label` must be an unsigned integer",
        zero: "`label` must be a non zero integer",
        unknown: "supported scmi options only",
    }
}

impl VirtioDevice for ScmiDevice {
    open spec fn common(&self) -> Common {
        self.common
    }

    open spec fn with_common(&self, c: Common) -> Self {
        ScmiDevice { common: c }
    }

    fn common_ref(&self) -> (r: &Common) {
        &self.common
    }

    fn common_mut(&mut self) -> (r: &mut Common) {
        &mut self.common
    }
}

/// How a device is built.
pub open spec fn scmi_order() -> creation::Order {
    creation::Order::Scmi { path: "/dev/vhost-scmi"@ }
}

/// A device is built at the one place where the host has it, under its own
/// label.
pub proof fn lemma_device_is_built_as_asked(d: Scmi, version: u8)
    ensures
        ScmiDevice::task(d, version).label == d.common.label,
        ScmiDevice::task(d, version).order matches Some(creation::Order::Scmi { path }) && path
            == "/dev/vhost-scmi"@,
{
}

impl Buildable for ScmiDevice {
    open spec fn task(d: Scmi, version: u8) -> creation::Task {
        creation::Task { label: d.common.label, order: Some(scmi_order()) }
    }

    fn job(&self, version: u8) -> (r: Job) {
        Job { label: self.common.label, build: Some(self.create_vhost_scmi_device()) }
    }
}

impl ScmiDevice {
    /// A device without a label.
    pub fn new() -> (r: Self)
        ensures
            r@ == (Scmi { common: device::fresh(0) }),
    {
        ScmiDevice { common: Common::new(0) }
    }

    /// How the device is built.
    pub fn create_vhost_scmi_device(&self) -> (r: Build)
        ensures
            r@ == scmi_order(),
    {
        Build::Scmi { path: "/dev/vhost-scmi".to_owned() }
    }
}

/// The system control devices of the virtual machine.
#[derive(Debug)]
pub struct ScmiDevices {
    pub scmi_devices: Vec<ScmiDevice>,
}

impl View for ScmiDevices {
    type V = Seq<Scmi>;

    open spec fn view(&self) -> Seq<Scmi> {
        creation::views(self.scmi_devices@)
    }
}

impl ScmiDevices {
    /// None of these devices.
    pub fn new() -> (r: Self)
        ensures
            r@ == Seq::<Scmi>::empty(),
    {
        let r = ScmiDevices { scmi_devices: Vec::new() };
        assert(r@ =~= Seq::empty());
        r
    }

    /// Takes the device that the argument asks for.
    pub fn set_argument(&mut self, value: Option<&str>) -> (r: Result<(), Error>)
        requires
            value is Some,
        ensures
            argument::listed(r, final(self)@, asked(value->0@), old(self)@),
    {
        let param = match value {
            Some(param) => param,
            None => "",
        };
        let mut scmi = ScmiDevice::new();
        match argument::read_given_label(param, words()) {
            Ok(label) => {
                scmi.common.label = label;
            },
            Err(e) => {
                return Err(e);
            },
        }
        let ghost taken = scmi@;
        self.scmi_devices.push(scmi);
        assert(self@ =~= old(self)@.push(taken));
        Ok(())
    }

    /// Starts to create the devices.
    pub fn create_scmi_devices(&self, cfg: &BackendConfig) -> (r: Creation)
        requires
            self@.len() > 0 ==> creation::ready(cfg@),
        ensures
            r.wf(),
            r.plan() == creation::plan_for(
                creation::tasks_for::<ScmiDevice>(self@, cfg@.driver_variant),
                cfg@,
            ),
            r.making() == creation::reach(r.plan(), 0, Seq::empty()),
    {
        creation::create_all(&self.scmi_devices, cfg)
    }
}

} // verus!
