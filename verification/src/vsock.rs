//! Sockets between the virtual machine and its host.
use vstd::prelude::*;

use crate::argument::{Error, Optioned, Words};
use crate::argument;
use crate::config::BackendConfig;
use crate::creation::{Build, Buildable, Creation, Job};
use crate::creation;
use crate::device::{Common, VirtioDevice};
use crate::device;
use crate::number;
use crate::text;

verus! {

/// A socket to the host.
#[derive(Debug)]
pub struct VirtioSock {
    pub common: Common,
    pub context_id: u64,
    pub vhost_vsock_path: String,
}

/// `VirtioSock` with its texts and lists as sequences.
pub struct Sock {
    pub common: device::Part,
    pub context_id: u64,
    pub path: Seq<char>,
}

impl View for VirtioSock {
    type V = Sock;

    open spec fn view(&self) -> Sock {
        Sock {
            common: self.common@,
            context_id: self.context_id,
            path: self.vhost_vsock_path@,
        }
    }
}

/// A socket before any option was read.
pub open spec fn default_sock() -> Sock {
    Sock { common: device::fresh(0), context_id: 0, path: "/dev/vhost-vsock"@ }
}

/// What the options of a socket to the host are told when they are refused.
pub open spec fn vsock_words() -> Words {
    Words {
        form: "vsock cid must be of the form `cid=value`",
        number: "`label must be an unsigned integer`",
        zero: "`label` must be a non-zero integer",
        unknown: "supported vsock options are cid and label",
    }
}

/// What the option `opt` does to a socket.
pub open spec fn vsock_option(d: Sock, opt: Seq<char>) -> Result<Sock, argument::Refusal> {
    match argument::kind_value(opt, vsock_words().form@) {
        Err(e) => Err(e),
        Ok((kind, value)) => if kind == "cid"@ {
            match number::unsigned(value, 10, u64::MAX as nat) {
                Some(n) => Ok(Sock { context_id: n as u64, ..d }),
                None => Err(
                    argument::Refusal { value, expected: "context id must be an integer"@ },
                ),
            }
        } else if kind == "label"@ {
            match argument::label(value, vsock_words()) {
                Ok(label) => Ok(Sock { common: device::Part { label, ..d.common }, ..d }),
                Err(e) => Err(e),
            }
        } else {
            Err(argument::Refusal { value: kind, expected: vsock_words().unknown@ })
        },
    }
}

/// The socket that the argument `param` asks for. All its parts are options.
pub open spec fn asked(param: Seq<char>) -> Result<Sock, argument::Refusal> {
    argument::with_options::<VirtioSock>(default_sock(), text::pieces(param, ','))
}

proof fn lemma_options_have_values(d: Sock, opts: Seq<Seq<char>>)
    requires
        argument::with_options::<VirtioSock>(d, opts) is Ok,
    ensures
        forall|i: int| 0 <= i < opts.len() ==> text::pair(#[trigger] opts[i], '=') is Some,
    decreases opts.len(),
{
    if opts.len() > 0 {
        lemma_options_have_values(d, opts.drop_last());
        assert forall|i: int| 0 <= i < opts.len() implies text::pair(
            #[trigger] opts[i],
            '=',
        ) is Some by {
            if i < opts.len() - 1 {
                assert(opts[i] == opts.drop_last()[i]);
            }
        }
    }
}

/// A socket is only accepted if every part of its argument, the first one
/// included, has a value.
pub proof fn lemma_every_part_has_a_value(param: Seq<char>)
    requires
        asked(param) is Ok,
    ensures
        forall|i: int|
            0 <= i < text::pieces(param, ',').len() ==> text::pair(
                #[trigger] text::pieces(param, ',')[i],
                '=',
            ) is Some,
{
    lemma_options_have_values(default_sock(), text::pieces(param, ','));
}

/// An accepted argument gives a label if and only if it has an option for it,
/// and then the label is not zero.
pub proof fn lemma_label_is_given(param: Seq<char>)
    requires
        asked(param) is Ok,
    ensures
        asked(param)->Ok_0.common.label == 0 <==> !argument::has_kind(
            text::pieces(param, ','),
            "label"@,
        ),
{
    reveal_strlit("cid");
    reveal_strlit("label");
    assert("cid"@.len() == 3 && "label"@.len() == 5);
    argument::lemma_label_follows_options::<VirtioSock>(
        default_sock(),
        text::pieces(param, ','),
        |d: Sock| d.common.label,
    );
}

/// The kinds of options are different words without the characters that cut an
/// argument.
proof fn lemma_kinds()
    ensures
        !"label"@.contains('='),
        !"label"@.contains(','),
        !"cid"@.contains('='),
        !"cid"@.contains(','),
        "label"@ != "cid"@,
{
    reveal_strlit("label");
    reveal_strlit("cid");
    assert("label"@ =~= seq!['l', 'a', 'b', 'e', 'l']);
    assert("cid"@ =~= seq!['c', 'i', 'd']);
    assert("label"@.len() != "cid"@.len());
}

/// What each option sets, and that it leaves everything else as it is.
pub proof fn lemma_each_option_sets_its_field(d: Sock, value: Seq<char>)
    ensures
        ({
            let after = vsock_option(d, argument::written("label"@, value));
            match argument::label(value, vsock_words()) {
                Ok(l) => after matches Ok(a) && a.common.label == l && a.common.mmio
                    == d.common.mmio && a.common.config_space == d.common.config_space
                        && a.context_id == d.context_id && a.path == d.path,
                Err(e) => after == Err::<Sock, argument::Refusal>(e),
            }
        }),
        ({
            let after = vsock_option(d, argument::written("cid"@, value));
            match number::unsigned(value, 10, 0xffff_ffff_ffff_ffff) {
                Some(n) => after matches Ok(a) && a.context_id == n && a.common == d.common
                    && a.path == d.path,
                None => after matches Err(e) && e.value == value && e.expected
                    == "context id must be an integer"@,
            }
        }),
{
    lemma_kinds();
    argument::lemma_option_reads_back("label"@, value, vsock_words().form@);
    argument::lemma_option_reads_back("cid"@, value, vsock_words().form@);
}

/// An option of another kind, or one without a value, is refused.
pub proof fn lemma_other_options_are_refused(d: Sock, kind: Seq<char>, value: Seq<char>)
    requires
        !kind.contains('='),
    ensures
        kind != "label"@
            && kind != "cid"@
            ==> (vsock_option(d, argument::written(kind, value)) matches Err(e) && e.value == kind
            && e.expected == "supported vsock options are cid and label"@),
        vsock_option(d, kind) matches Err(e) && e.value == kind
            && e.expected == "vsock cid must be of the form `cid=value`"@,
{
    argument::lemma_option_reads_back(kind, value, vsock_words().form@);
    argument::lemma_option_reads_back(kind, kind, vsock_words().form@);
}

/// All parts of the argument for a socket are options, the first one included:
/// each acts on what stands before it, and the first on a socket without a
/// label or a number at the one place where the host has them.
pub proof fn lemma_options_act_in_turn(param: Seq<char>, opt: Seq<char>, plain: Sock)
    requires
        !opt.contains(','),
        plain.common.label == 0,
        plain.common.mmio is None,
        plain.common.config_space == Some(Seq::<u32>::empty()),
        plain.context_id == 0,
        plain.path == "/dev/vhost-vsock"@,
    ensures
        asked(argument::longer(param, opt)) == match asked(param) {
            Ok(d) => vsock_option(d, opt),
            Err(e) => Err(e),
        },
        asked(opt) == vsock_option(plain, opt),
{
    argument::lemma_longer_argument(param, opt);
    argument::lemma_single_part(opt);
    argument::lemma_one_more_option::<VirtioSock>(default_sock(), text::pieces(param, ','), opt);
    assert(seq![opt] =~= Seq::<Seq<char>>::empty().push(opt));
    argument::lemma_one_more_option::<VirtioSock>(default_sock(), Seq::empty(), opt);
    assert(plain == default_sock());
}

fn words() -> (r: Words)
    ensures
        r == vsock_words(),
{
    Words {
        form: "vsock cid must be of the form `cid=value`",
        number: "`label must be an unsigned integer`",
        zero: "`label` must be a non-zero integer",
        unknown: "supported vsock options are cid and label",
    }
}

impl VirtioDevice for VirtioSock {
    open spec fn common(&self) -> Common {
        self.common
    }

    open spec fn with_common(&self, c: Common) -> Self {
        VirtioSock { common: c, ..*self }
    }

    fn common_ref(&self) -> (r: &Common) {
        &self.common
    }

    fn common_mut(&mut self) -> (r: &mut Common) {
        &mut self.common
    }
}

impl Optioned for VirtioSock {
    open spec fn option_effect(d: Sock, opt: Seq<char>) -> Result<Sock, argument::Refusal> {
        vsock_option(d, opt)
    }

    fn take_option(&mut self, opt: &str) -> (r: Result<(), Error>) {
        let (kind, value) = match argument::read_option(opt, words().form) {
            Ok(kv) => kv,
            Err(e) => {
                return Err(e);
            },
        };
        if text::same(kind, "cid") {
            match number::parse_unsigned(value, 10, u64::MAX) {
                Some(n) => {
                    self.context_id = n;
                    Ok(())
                },
                None => Err(argument::invalid(value, "context id must be an integer")),
            }
        } else if text::same(kind, "label") {
            match argument::read_label(value, words()) {
                Ok(label) => {
                    self.common.label = label;
                    Ok(())
                },
                Err(e) => Err(e),
            }
        } else {
            Err(argument::invalid(kind, words().unknown))
        }
    }
}

/// A socket is built as it was asked for, under its own label.
pub proof fn lemma_device_is_built_as_asked(d: Sock, version: u8)
    ensures
        VirtioSock::task(d, version).label == d.common.label,
        VirtioSock::task(d, version).order matches Some(creation::Order::Vsock { path, cid })
            && path == d.path
            && cid == d.context_id,
{
}

impl Buildable for VirtioSock {
    open spec fn task(d: Sock, version: u8) -> creation::Task {
        creation::Task {
            label: d.common.label,
            order: Some(creation::Order::Vsock { path: d.path, cid: d.context_id }),
        }
    }

    fn job(&self, version: u8) -> (r: Job) {
        Job {
            label: self.common.label,
            build: Some(
                Build::Vsock { path: self.vhost_vsock_path.clone(), cid: self.context_id },
            ),
        }
    }
}

impl VirtioSock {
    /// A socket without a label or a context.
    pub fn new() -> (r: Self)
        ensures
            r@ == default_sock(),
    {
        VirtioSock {
            common: Common::new(0),
            context_id: 0,
            vhost_vsock_path: "/dev/vhost-vsock".to_owned(),
        }
    }
}

/// The sockets to the host of the virtual machine.
#[derive(Debug)]
pub struct VirtioSockDevices {
    pub v_sock_devices: Vec<VirtioSock>,
}

impl View for VirtioSockDevices {
    type V = Seq<Sock>;

    open spec fn view(&self) -> Seq<Sock> {
        creation::views(self.v_sock_devices@)
    }
}

impl VirtioSockDevices {
    /// None of these devices.
    pub fn new() -> (r: Self)
        ensures
            r@ == Seq::<Sock>::empty(),
    {
        let r = VirtioSockDevices { v_sock_devices: Vec::new() };
        assert(r@ =~= Seq::empty());
        r
    }

    /// Takes the socket that the argument asks for.
    pub fn set_argument(&mut self, value: Option<&str>) -> (r: Result<(), Error>)
        requires
            value is Some,
        ensures
            argument::listed(r, final(self)@, asked(value->0@), old(self)@),
    {
        let param = match value {
            Some(param) => param,
            None => "",
        };
        let mut vsock = VirtioSock::new();
        let parts = argument::components(param);
        assert(text::texts(parts@).skip(0) =~= text::pieces(param@, ','));
        match argument::take_options(&mut vsock, &parts, 0) {
            Ok(_) => {},
            Err(e) => {
                return Err(e);
            },
        }
        let ghost taken = vsock@;
        self.v_sock_devices.push(vsock);
        assert(self@ =~= old(self)@.push(taken));
        Ok(())
    }

    /// Starts to create the devices.
    pub fn create_vsock_devices(&self, cfg: &BackendConfig) -> (r: Creation)
        requires
            self@.len() > 0 ==> creation::ready(cfg@),
        ensures
            r.wf(),
            r.plan() == creation::plan_for(
                creation::tasks_for::<VirtioSock>(self@, cfg@.driver_variant),
                cfg@,
            ),
            r.making() == creation::reach(r.plan(), 0, Seq::empty()),
    {
        creation::create_all(&self.v_sock_devices, cfg)
    }
}

} // verus!
