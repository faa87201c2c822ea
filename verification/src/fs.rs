//! File systems that a process behind a socket implements.
use vstd::prelude::*;

use crate::argument::{Error, Optioned, Words};
use crate::argument;
use crate::config::BackendConfig;
use crate::creation::{Build, Buildable, Creation, Job};
use crate::creation;
use crate::device::{Common, VirtioDevice};
use crate::device;
use crate::text;
use crate::vhost_user::VhostUserOption;

verus! {

/// A file system.
#[derive(Debug)]
pub struct VuVirtioFs {
    pub common: Common,
    pub tag: String,
    pub vhost_user_fs: VhostUserOption,
}

/// `VuVirtioFs` with its texts and lists as sequences.
pub struct Fs {
    pub common: device::Part,
    pub tag: Seq<char>,
    pub socket: Seq<char>,
}

impl View for VuVirtioFs {
    type V = Fs;

    open spec fn view(&self) -> Fs {
        Fs { common: self.common@, tag: self.tag@, socket: self.vhost_user_fs.socket@ }
    }
}

/// A file system before any option was read.
pub open spec fn default_fs(tag: Seq<char>, socket: Seq<char>) -> Fs {
    Fs { common: device::fresh(0), tag, socket }
}

/// What the options of a file system are told when they are refused.
pub open spec fn fs_words() -> Words {
    Words {
        form: "vhost-user-fs options must be of the form `kind=value`",
        number: "`label` must be an unsigned integer",
        zero: "`label` must be a non zero integer",
        unknown: "vhost-user-fs only supports label",
    }
}

/// What the option `opt` does to a file system.
pub open spec fn fs_option(d: Fs, opt: Seq<char>) -> Result<Fs, argument::Refusal> {
    match argument::kind_value(opt, fs_words().form@) {
        Err(e) => Err(e),
        Ok((kind, value)) => if kind == "label"@ {
            match argument::label(value, fs_words()) {
                Ok(label) => Ok(Fs { common: device::Part { label, ..d.common }, ..d }),
                Err(e) => Err(e),
            }
        } else if kind == "tag"@ {
            Ok(Fs { tag: value, ..d })
        } else {
            Err(argument::Refusal { value: kind, expected: fs_words().unknown@ })
        },
    }
}

/// The device that the argument `param` asks for. Its first part is the
/// socket; `exists` says whether there is one.
pub open spec fn asked(param: Seq<char>, exists: bool) -> Result<Fs, argument::Refusal> {
    if !exists {
        Err(
            argument::Refusal {
                value: param,
                expected: "vhost-user-fs socket path must an existing path"@,
            },
        )
    } else {
        argument::with_options::<VuVirtioFs>(
            default_fs(Seq::empty(), argument::head(param)),
            argument::options(param),
        )
    }
}

/// An accepted argument gives a label if and only if it has an option for it,
/// and then the label is not zero.
pub proof fn lemma_label_is_given(param: Seq<char>, exists: bool)
    requires
        asked(param, exists) is Ok,
    ensures
        asked(param, exists)->Ok_0.common.label == 0 <==> !argument::has_kind(
            argument::options(param),
            "label"@,
        ),
{
    argument::lemma_label_follows_options::<VuVirtioFs>(
        default_fs(Seq::empty(), argument::head(param)),
        argument::options(param),
        |d: Fs| d.common.label,
    );
}

/// The kinds of options are different words without the characters that cut an
/// argument.
proof fn lemma_kinds()
    ensures
        !"label"@.contains('='),
        !"label"@.contains(','),
        !"tag"@.contains('='),
        !"tag"@.contains(','),
        "label"@ != "tag"@,
{
    reveal_strlit("label");
    reveal_strlit("tag");
    assert("label"@ =~= seq!['l', 'a', 'b', 'e', 'l']);
    assert("tag"@ =~= seq!['t', 'a', 'g']);
    assert("label"@.len() != "tag"@.len());
}

/// What each option sets, and that it leaves everything else as it is.
pub proof fn lemma_each_option_sets_its_field(d: Fs, value: Seq<char>)
    ensures
        ({
            let after = fs_option(d, argument::written("label"@, value));
            match argument::label(value, fs_words()) {
                Ok(l) => after matches Ok(a) && a.common.label == l && a.common.mmio
                    == d.common.mmio && a.common.config_space == d.common.config_space
                        && a.tag == d.tag && a.socket == d.socket,
                Err(e) => after == Err::<Fs, argument::Refusal>(e),
            }
        }),
        ({
            let after = fs_option(d, argument::written("tag"@, value));
            after matches Ok(a) && a.tag == value && a.common == d.common && a.socket == d.socket
        }),
{
    lemma_kinds();
    argument::lemma_option_reads_back("label"@, value, fs_words().form@);
    argument::lemma_option_reads_back("tag"@, value, fs_words().form@);
}

/// An option of another kind, or one without a value, is refused.
pub proof fn lemma_other_options_are_refused(d: Fs, kind: Seq<char>, value: Seq<char>)
    requires
        !kind.contains('='),
    ensures
        kind != "label"@
            && kind != "tag"@ ==> (fs_option(d, argument::written(kind, value)) matches Err(e)
            && e.value == kind
            && e.expected == "vhost-user-fs only supports label"@),
        fs_option(d, kind) matches Err(e) && e.value == kind
            && e.expected == "vhost-user-fs options must be of the form `kind=value`"@,
{
    argument::lemma_option_reads_back(kind, value, fs_words().form@);
    argument::lemma_option_reads_back(kind, kind, fs_words().form@);
}

/// A device is asked for by its socket alone or with options behind it, each
/// of which acts on what stands before it. Without the socket there is none.
pub proof fn lemma_options_act_in_turn(param: Seq<char>, opt: Seq<char>)
    requires
        !opt.contains(','),
    ensures
        asked(argument::longer(param, opt), true) == match asked(param, true) {
            Ok(d) => fs_option(d, opt),
            Err(e) => Err(e),
        },
        asked(opt, true) matches Ok(d) && d.socket == opt && d.tag.len() == 0
            && d.common.label == 0 && d.common.mmio is None
            && d.common.config_space == Some(Seq::<u32>::empty()),
        asked(param, false) matches Err(e) && e.value == param && e.expected
            == "vhost-user-fs socket path must an existing path"@,
{
    argument::lemma_longer_argument(param, opt);
    argument::lemma_single_part(opt);
    argument::lemma_one_more_option::<VuVirtioFs>(
        default_fs(Seq::empty(), argument::head(param)),
        argument::options(param),
        opt,
    );
    assert(argument::options(opt) =~= Seq::empty());
    argument::lemma_one_more_option::<VuVirtioFs>(
        default_fs(Seq::empty(), opt),
        argument::options(opt),
        opt,
    );
}

fn words() -> (r: Words)
    ensures
        r == fs_words(),
{
    Words {
        form: "vhost-user-fs options must be of the form `kind=value`",
        number: "`label` must be an unsigned integer",
        zero: "`label` must be a non zero integer",
        unknown: "vhost-user-fs only supports label",
    }
}

impl VirtioDevice for VuVirtioFs {
    open spec fn common(&self) -> Common {
        self.common
    }

    open spec fn with_common(&self, c: Common) -> Self {
        VuVirtioFs { common: c, ..*self }
    }

    fn common_ref(&self) -> (r: &Common) {
        &self.common
    }

    fn common_mut(&mut self) -> (r: &mut Common) {
        &mut self.common
    }
}

impl Optioned for VuVirtioFs {
    open spec fn option_effect(d: Fs, opt: Seq<char>) -> Result<Fs, argument::Refusal> {
        fs_option(d, opt)
    }

    fn take_option(&mut self, opt: &str) -> (r: Result<(), Error>) {
        let (kind, value) = match argument::read_option(opt, words().form) {
            Ok(kv) => kv,
            Err(e) => {
                return Err(e);
            },
        };
        if text::same(kind, "label") {
            match argument::read_label(value, words()) {
                Ok(label) => {
                    self.common.label = label;
                    Ok(())
                },
                Err(e) => Err(e),
            }
        } else if text::same(kind, "tag") {
            self.tag = value.to_owned();
            Ok(())
        } else {
            Err(argument::invalid(kind, words().unknown))
        }
    }
}

/// A file system is built as it was asked for, under its own label.
pub proof fn lemma_device_is_built_as_asked(d: Fs, version: u8)
    ensures
        VuVirtioFs::task(d, version).label == d.common.label,
        VuVirtioFs::task(d, version).order matches Some(creation::Order::VhostUserFs {
            socket,
            tag,
        }) && socket == d.socket && tag == d.tag,
{
}

impl Buildable for VuVirtioFs {
    open spec fn task(d: Fs, version: u8) -> creation::Task {
        creation::Task {
            label: d.common.label,
            order: Some(creation::Order::VhostUserFs { socket: d.socket, tag: d.tag }),
        }
    }

    fn job(&self, version: u8) -> (r: Job) {
        Job {
            label: self.common.label,
            build: Some(
                Build::VhostUserFs {
                    socket: self.vhost_user_fs.socket.clone(),
                    tag: self.tag.clone(),
                },
            ),
        }
    }
}

impl VuVirtioFs {
    /// A file system with this tag, without a label or a socket.
    pub fn new(tag: String) -> (r: Self)
        ensures
            r@ == default_fs(tag@, Seq::empty()),
    {
        VuVirtioFs {
            common: Common::new(0),
            tag,
            vhost_user_fs: VhostUserOption { socket: String::new() },
        }
    }
}

/// The file systems of the virtual machine.
#[derive(Debug)]
pub struct VuVirtioFsDevices {
    pub vufs_devices: Vec<VuVirtioFs>,
}

impl View for VuVirtioFsDevices {
    type V = Seq<Fs>;

    open spec fn view(&self) -> Seq<Fs> {
        creation::views(self.vufs_devices@)
    }
}

impl VuVirtioFsDevices {
    /// None of these devices.
    pub fn new() -> (r: Self)
        ensures
            r@ == Seq::<Fs>::empty(),
    {
        let r = VuVirtioFsDevices { vufs_devices: Vec::new() };
        assert(r@ =~= Seq::empty());
        r
    }

    /// Takes the device that the argument asks for. `exists` says
    /// whether the socket exists.
    pub fn set_argument(&mut self, value: Option<&str>, exists: bool) -> (r: Result<(), Error>)
        requires
            value is Some,
        ensures
            argument::listed(r, final(self)@, asked(value->0@, exists), old(self)@),
    {
        let param = match value {
            Some(param) => param,
            None => "",
        };
        let mut device = VuVirtioFs::new(String::new());
        let parts = argument::components(param);
        device.vhost_user_fs = VhostUserOption { socket: parts[0].to_owned() };
        if !exists {
            return Err(
                argument::invalid(param, "vhost-user-fs socket path must an existing path"),
            );
        }
        match argument::take_options(&mut device, &parts, 1) {
            Ok(_) => {},
            Err(e) => {
                return Err(e);
            },
        }
        let ghost taken = device@;
        self.vufs_devices.push(device);
        assert(self@ =~= old(self)@.push(taken));
        Ok(())
    }

    /// Starts to create the devices.
    pub fn create_vufs_devices(&self, cfg: &BackendConfig) -> (r: Creation)
        requires
            self@.len() > 0 ==> creation::ready(cfg@),
        ensures
            r.wf(),
            r.plan() == creation::plan_for(
                creation::tasks_for::<VuVirtioFs>(self@, cfg@.driver_variant),
                cfg@,
            ),
            r.making() == creation::reach(r.plan(), 0, Seq::empty()),
    {
        creation::create_all(&self.vufs_devices, cfg)
    }
}

} // verus!
