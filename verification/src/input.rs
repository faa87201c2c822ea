//! Input devices.
use vstd::prelude::*;

use crate::argument::{Error, Words};
use crate::argument;
use crate::config::BackendConfig;
use crate::creation::{Build, Creation, Job};
use crate::creation;
use crate::device::{Common, VirtioDevice};
use crate::device;
use crate::input_config::InputSelectors;

verus! {

/// An input device.
#[derive(Debug)]
pub struct VirtioInput {
    pub common: Common,
    pub dev_path: String,
}

/// `VirtioInput` with its texts and lists as sequences.
pub struct Input {
    pub common: device::Part,
    pub path: Seq<char>,
}

impl View for VirtioInput {
    type V = Input;

    open spec fn view(&self) -> Input {
        Input { common: self.common@, path: self.dev_path@ }
    }
}

/// What the options of an input device are told when they are refused.
pub open spec fn input_words() -> Words {
    Words {
        form: "input options must be of the form `kind=value`",
        number: "`label` must be an unsigned integer",
        zero: "`label` must be a non zero integer",
        unknown: "supported input options only",
    }
}

/// The device that the argument `param` asks for. Its first part is the path;
/// `exists` says whether there is such a file. If there is none, no device is
/// asked for.
pub open spec fn asked(param: Seq<char>, exists: bool) -> Result<Option<Input>, argument::Refusal> {
    if !exists {
        Ok(None)
    } else {
        match argument::only_label(param, input_words()) {
            Ok(label) => Ok(
                Some(Input { common: device::fresh(label), path: argument::head(param) }),
            ),
            Err(e) => Err(e),
        }
    }
}

/// What is to be done for the devices.
pub open spec fn tasks(devices: Seq<Input>, selectors: InputSelectors) -> Seq<creation::Task> {
    Seq::new(
        devices.len(),
        |i: int|
            creation::Task {
                label: devices[i].common.label,
                order: Some(creation::Order::Input { path: devices[i].path, selectors }),
            },
    )
}

/// An input device is asked for by its path, with labels behind it, of which
/// the last one counts. Where there is no such file, nothing is asked for and
/// nothing refused.
pub proof fn lemma_path_and_label(param: Seq<char>, path: Seq<char>, value: Seq<char>)
    requires
        !path.contains(','),
        !path.contains('='),
        !value.contains(','),
    ensures
        asked(path, true) matches Ok(Some(d)) && d.path == path && d.common.label == 0
            && d.common.mmio is None && d.common.config_space == Some(Seq::<u32>::empty()),
        match asked(param, true) {
            Ok(d) => d is Some && match argument::label(value, input_words()) {
                Ok(l) => asked(
                    argument::longer(param, argument::written("label"@, value)),
                    true,
                ) matches Ok(Some(a)) && a.path == d->0.path && a.common.label == l && a.common.mmio
                    is None && a.common.config_space == Some(Seq::<u32>::empty()),
                Err(e) => asked(
                    argument::longer(param, argument::written("label"@, value)),
                    true,
                ) == Err::<Option<Input>, argument::Refusal>(e),
            },
            Err(e) => asked(
                argument::longer(param, argument::written("label"@, value)),
                true,
            ) == Err::<Option<Input>, argument::Refusal>(e),
        },
        asked(param, true) is Ok ==> asked(argument::longer(param, path), true) is Err,
        asked(param, false) == Ok::<Option<Input>, argument::Refusal>(None),
{
    argument::lemma_label_word();
    argument::lemma_single_part(path);
    argument::lemma_labels_need_their_form(param, path, input_words());
    argument::lemma_last_label_counts(param, "label"@, value, input_words());
    argument::lemma_written_part("label"@, value);
    argument::lemma_longer_argument(param, argument::written("label"@, value));
}

/// Every device of a list is built: from its own path, under its own label,
/// and asked by the same selectors.
pub proof fn lemma_each_input_is_built(devices: Seq<Input>, selectors: InputSelectors, i: int)
    requires
        0 <= i < devices.len(),
    ensures
        tasks(devices, selectors).len() == devices.len(),
        tasks(devices, selectors)[i].label == devices[i].common.label,
        tasks(devices, selectors)[i].order matches Some(creation::Order::Input {
            path,
            selectors: s,
        }) && path == devices[i].path && s == selectors,
{
}

fn words() -> (r: Words)
    ensures
        r == input_words(),
{
    Words {
        form: "input options must be of the form `kind=value`",
        number: "`label` must be an unsigned integer",
        zero: "`label` must be a non zero integer",
        unknown: "supported input options only",
    }
}

impl VirtioDevice for VirtioInput {
    open spec fn common(&self) -> Common {
        self.common
    }

    open spec fn with_common(&self, c: Common) -> Self {
        VirtioInput { common: c, ..*self }
    }

    fn common_ref(&self) -> (r: &Common) {
        &self.common
    }

    fn common_mut(&mut self) -> (r: &mut Common) {
        &mut self.common
    }
}

impl VirtioInput {
    /// A device without a label or a path.
    pub fn new() -> (r: Self)
        ensures
            r@ == (Input { common: device::fresh(0), path: Seq::empty() }),
    {
        VirtioInput { common: Common::new(0), dev_path: String::new() }
    }
}

/// The input devices of the virtual machine.
#[derive(Debug)]
pub struct VirtioInputDevices {
    pub virtio_inputs: Vec<VirtioInput>,
}

impl View for VirtioInputDevices {
    type V = Seq<Input>;

    open spec fn view(&self) -> Seq<Input> {
        creation::views(self.virtio_inputs@)
    }
}

impl VirtioInputDevices {
    /// None of these devices.
    pub fn new() -> (r: Self)
        ensures
            r@ == Seq::<Input>::empty(),
    {
        let r = VirtioInputDevices { virtio_inputs: Vec::new() };
        assert(r@ =~= Seq::empty());
        r
    }

    /// Takes the device that the argument asks for. `exists` says whether the
    /// path exists; if it does not, the result is false and there is no device.
    pub fn set_argument(&mut self, value: Option<&str>, exists: bool) -> (r: Result<bool, Error>)
        requires
            value is Some,
        ensures
            match asked(value->0@, exists) {
                Ok(Some(device)) => r == Ok::<bool, Error>(true) && final(self)@ == old(self)@.push(
                    device,
                ),
                Ok(None) => r == Ok::<bool, Error>(false) && final(self)@ == old(self)@,
                Err(e) => r matches Err(given) && given@ == e && final(self)@ == old(self)@,
            },
    {
        let param = match value {
            Some(param) => param,
            None => "",
        };
        if !exists {
            return Ok(false);
        }
        let mut vinput = VirtioInput::new();
        vinput.dev_path = argument::first(param).to_owned();
        match argument::read_only_label(param, words()) {
            Ok(label) => {
                vinput.common.label = label;
            },
            Err(e) => {
                return Err(e);
            },
        }
        let ghost taken = vinput@;
        self.virtio_inputs.push(vinput);
        assert(self@ =~= old(self)@.push(taken));
        Ok(true)
    }

    /// Starts to create the devices, which are described with `selectors`.
    pub fn create_vinput_devices(&self, cfg: &BackendConfig, selectors: InputSelectors) -> (r:
        Creation)
        requires
            self@.len() > 0 ==> creation::ready(cfg@),
        ensures
            r.wf(),
            r.plan() == creation::plan_for(tasks(self@, selectors), cfg@),
            r.making() == creation::reach(r.plan(), 0, Seq::empty()),
    {
        let ghost all = tasks(self@, selectors);
        let mut jobs: Vec<Job> = Vec::new();
        let n: usize = self.virtio_inputs.len();
        let mut i: usize = 0;
        while i < n
            invariant
                i <= n,
                n == self.virtio_inputs@.len(),
                all == tasks(self@, selectors),
                creation::tasks(jobs@) == all.take(i as int),
            decreases n - i,
        {
            let vinput = &self.virtio_inputs[i];
            let job = Job {
                label: vinput.common.label,
                build: Some(Build::Input { path: vinput.dev_path.clone(), selectors }),
            };
            proof {
                assert(self@[i as int] == vinput@);
                assert(job@ == all[i as int]);
                assert(creation::tasks(jobs@.push(job)) =~= creation::tasks(jobs@).push(job@));
                assert(all.take(i + 1) =~= all.take(i as int).push(job@));
            }
            jobs.push(job);
            i += 1;
        }
        assert(all.take(n as int) =~= all);
        creation::create(jobs, cfg)
    }
}

} // verus!
