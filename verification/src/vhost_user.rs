//! The devices that a process behind a socket implements and that take no
//! option but their label.
use vstd::prelude::*;

use crate::argument;
use crate::argument::{Error, Words};
use crate::config::BackendConfig;
use crate::creation;
use crate::creation::{Build, Creation, Job, VhostUserKind};
use crate::device;
use crate::device::{Common, VirtioDevice};

verus! {

/// The socket behind which a device is implemented.
#[derive(Debug)]
pub struct VhostUserOption {
    pub socket: String,
}

impl VhostUserOption {
    /// A copy of this option.
    pub fn duplicate(&self) -> (r: VhostUserOption)
        ensures
            r.socket@ == self.socket@,
    {
        VhostUserOption { socket: self.socket.clone() }
    }
}

/// A device behind a socket.
pub struct SocketDevice {
    pub common: device::Part,
    pub socket: Seq<char>,
}

/// What is said of a socket that does not exist.
pub open spec fn missing_socket(kind: VhostUserKind) -> Seq<char> {
    match kind {
        VhostUserKind::Gp => "vhost-user-gp socket path must be an existing path"@,
        VhostUserKind::Scmi => "vhost-user-scmi socket path must be an existing path"@,
        VhostUserKind::I2c => "vhost-user-i2c socket path must an existing path"@,
        VhostUserKind::Gpio => "vhost-user-gpio socket path must an existing path"@,
        VhostUserKind::Frpc => "vhost-user-frpc socket path must be an existing path"@,
        VhostUserKind::Ssr => "vhost-user-ssr socket path must an existing path"@,
        VhostUserKind::Eavb => "vhost-user-eavb socket path must be an existing path"@,
    }
}

/// What is said of an option without a `=`.
pub open spec fn bad_form(kind: VhostUserKind) -> &'static str {
    match kind {
        VhostUserKind::Gp => "vhost gp options must be of the form `kind=value`",
        VhostUserKind::Scmi => "vhost-user-scmi options must be of the form `kind=value`",
        VhostUserKind::I2c => "vhost-user-i2c options must be of the form `kind=value`",
        VhostUserKind::Gpio => "vhost-user-gpio options must be of the form `kind=value`",
        VhostUserKind::Frpc => "vhost-user-frpc options must be of the form `kind=value`",
        VhostUserKind::Ssr => "vhost-user-ssr options must be of the form `kind=value`",
        VhostUserKind::Eavb => "vhost-user-eavb options must be of the form `kind=value`",
    }
}

/// What is said of an option that is no label.
pub open spec fn unknown_option(kind: VhostUserKind) -> &'static str {
    match kind {
        VhostUserKind::Gp => "supported vhost gp options only",
        VhostUserKind::Scmi => "vhost-user-scmi only supports label",
        VhostUserKind::I2c => "vhost-user-i2c only supports label",
        VhostUserKind::Gpio => "vhost-user-gpio only supports label",
        VhostUserKind::Frpc => "vhost-user-frpc only supports label",
        VhostUserKind::Ssr => "vhost-user-ssr only supports label",
        VhostUserKind::Eavb => "vhost-user-eavb only supports label",
    }
}

/// What the options of this kind of device are told when they are refused.
pub open spec fn words_of(kind: VhostUserKind) -> Words {
    Words {
        form: bad_form(kind),
        number: "`label` must be an unsigned integer",
        zero: "`label` must be a non zero integer",
        unknown: unknown_option(kind),
    }
}

/// The device that the argument `param` asks for. Its first part is the
/// socket; `exists` says whether there is one.
pub open spec fn asked(kind: VhostUserKind, param: Seq<char>, exists: bool) -> Result<
    SocketDevice,
    argument::Refusal,
> {
    if !exists {
        Err(argument::Refusal { value: param, expected: missing_socket(kind) })
    } else {
        match argument::only_label(param, words_of(kind)) {
            Ok(label) => Ok(
                SocketDevice { common: device::fresh(label), socket: argument::head(param) },
            ),
            Err(e) => Err(e),
        }
    }
}

/// What is to be done for the devices.
pub open spec fn tasks(kind: VhostUserKind, devices: Seq<SocketDevice>) -> Seq<creation::Task> {
    Seq::new(
        devices.len(),
        |i: int|
            creation::Task {
                label: devices[i].common.label,
                order: Some(creation::Order::VhostUser { kind, socket: devices[i].socket }),
            },
    )
}

/// A device is asked for by its socket, with labels behind it, of which the
/// last one counts. Anything else is refused, and so is every argument where
/// the socket does not exist.
pub proof fn lemma_socket_and_label(
    kind: VhostUserKind,
    param: Seq<char>,
    socket: Seq<char>,
    value: Seq<char>,
)
    requires
        !socket.contains(','),
        !socket.contains('='),
        !value.contains(','),
    ensures
        asked(kind, socket, true) matches Ok(d) && d.socket == socket && d.common.label == 0
            && d.common.mmio is None && d.common.config_space == Some(Seq::<u32>::empty()),
        match asked(kind, param, true) {
            Ok(d) => match argument::label(value, words_of(kind)) {
                Ok(l) => asked(
                    kind,
                    argument::longer(param, argument::written("label"@, value)),
                    true,
                ) matches Ok(a) && a.socket == d.socket && a.common.label == l && a.common.mmio
                    is None && a.common.config_space == Some(Seq::<u32>::empty()),
                Err(e) => asked(
                    kind,
                    argument::longer(param, argument::written("label"@, value)),
                    true,
                ) == Err::<SocketDevice, argument::Refusal>(e),
            },
            Err(e) => asked(
                kind,
                argument::longer(param, argument::written("label"@, value)),
                true,
            ) == Err::<SocketDevice, argument::Refusal>(e),
        },
        asked(kind, param, true) is Ok ==> asked(kind, argument::longer(param, socket), true)
            is Err,
        asked(kind, param, false) matches Err(e) && e.value == param,
{
    argument::lemma_label_word();
    argument::lemma_single_part(socket);
    argument::lemma_labels_need_their_form(param, socket, words_of(kind));
    argument::lemma_last_label_counts(param, "label"@, value, words_of(kind));
    argument::lemma_written_part("label"@, value);
    argument::lemma_longer_argument(param, argument::written("label"@, value));
}

/// Every device of a list is built: behind its own socket, under its own label
/// and as what the list is of.
pub proof fn lemma_each_socket_is_built(
    kind: VhostUserKind,
    devices: Seq<SocketDevice>,
    i: int,
)
    requires
        0 <= i < devices.len(),
    ensures
        tasks(kind, devices).len() == devices.len(),
        tasks(kind, devices)[i].label == devices[i].common.label,
        tasks(kind, devices)[i].order matches Some(creation::Order::VhostUser { kind: k, socket })
            && k == kind && socket == devices[i].socket,
{
}

fn missing(kind: VhostUserKind) -> (r: &'static str)
    ensures
        r@ == missing_socket(kind),
{
    match kind {
        VhostUserKind::Gp => "vhost-user-gp socket path must be an existing path",
        VhostUserKind::Scmi => "vhost-user-scmi socket path must be an existing path",
        VhostUserKind::I2c => "vhost-user-i2c socket path must an existing path",
        VhostUserKind::Gpio => "vhost-user-gpio socket path must an existing path",
        VhostUserKind::Frpc => "vhost-user-frpc socket path must be an existing path",
        VhostUserKind::Ssr => "vhost-user-ssr socket path must an existing path",
        VhostUserKind::Eavb => "vhost-user-eavb socket path must be an existing path",
    }
}

fn words(kind: VhostUserKind) -> (r: Words)
    ensures
        r == words_of(kind),
{
    let form = match kind {
        VhostUserKind::Gp => "vhost gp options must be of the form `kind=value`",
        VhostUserKind::Scmi => "vhost-user-scmi options must be of the form `kind=value`",
        VhostUserKind::I2c => "vhost-user-i2c options must be of the form `kind=value`",
        VhostUserKind::Gpio => "vhost-user-gpio options must be of the form `kind=value`",
        VhostUserKind::Frpc => "vhost-user-frpc options must be of the form `kind=value`",
        VhostUserKind::Ssr => "vhost-user-ssr options must be of the form `kind=value`",
        VhostUserKind::Eavb => "vhost-user-eavb options must be of the form `kind=value`",
    };
    let unknown = match kind {
        VhostUserKind::Gp => "supported vhost gp options only",
        VhostUserKind::Scmi => "vhost-user-scmi only supports label",
        VhostUserKind::I2c => "vhost-user-i2c only supports label",
        VhostUserKind::Gpio => "vhost-user-gpio only supports label",
        VhostUserKind::Frpc => "vhost-user-frpc only supports label",
        VhostUserKind::Ssr => "vhost-user-ssr only supports label",
        VhostUserKind::Eavb => "vhost-user-eavb only supports label",
    };
    Words {
        form,
        number: "`label` must be an unsigned integer",
        zero: "`label` must be a non zero integer",
        unknown,
    }
}

/// The socket and the common part of the device that the argument asks for.
fn ask(kind: VhostUserKind, value: Option<&str>, exists: bool) -> (r: Result<
    (VhostUserOption, Common),
    Error,
>)
    requires
        value is Some,
    ensures
        match r {
            Ok((option, common)) => asked(kind, value->0@, exists) == Ok::<_, argument::Refusal>(
                SocketDevice { common: common@, socket: option.socket@ },
            ),
            Err(e) => asked(kind, value->0@, exists) == Err::<SocketDevice, _>(e@),
        },
{
    let param = match value {
        Some(param) => param,
        None => "",
    };
    if !exists {
        return Err(argument::invalid(param, missing(kind)));
    }
    match argument::read_only_label(param, words(kind)) {
        Ok(label) => Ok(
            (
                VhostUserOption { socket: argument::first(param).to_owned() },
                Common::new(label),
            ),
        ),
        Err(e) => Err(e),
    }
}

/// A device behind a socket, of any kind.
pub trait SocketUser: VirtioDevice {
    /// The socket.
    spec fn option(&self) -> VhostUserOption;

    /// The socket.
    fn option_ref(&self) -> (r: &VhostUserOption)
        ensures
            *r == self.option(),
    ;
}

/// What is known of the devices of a list.
pub open spec fn socket_devices<D: SocketUser>(devices: Seq<D>) -> Seq<SocketDevice> {
    Seq::new(
        devices.len(),
        |i: int|
            SocketDevice {
                common: devices[i].common()@,
                socket: devices[i].option().socket@,
            },
    )
}

/// Starts to create the devices of a list.
fn create_socket_devices<D: SocketUser>(
    devices: &Vec<D>,
    kind: VhostUserKind,
    cfg: &BackendConfig,
) -> (r: Creation)
    requires
        devices@.len() > 0 ==> creation::ready(cfg@),
    ensures
        r.wf(),
        r.plan() == creation::plan_for(tasks(kind, socket_devices(devices@)), cfg@),
        r.making() == creation::reach(r.plan(), 0, Seq::empty()),
{
    let mut jobs: Vec<Job> = Vec::new();
    let n: usize = devices.len();
    let mut i: usize = 0;
    while i < n
        invariant
            i <= n,
            n == devices@.len(),
            creation::tasks(jobs@) == tasks(kind, socket_devices(devices@)).take(i as int),
        decreases n - i,
    {
        let device = &devices[i];
        let job = Job {
            label: device.common_ref().label,
            build: Some(
                Build::VhostUser { kind, socket: device.option_ref().duplicate().socket },
            ),
        };
        proof {
            assert(job@ == tasks(kind, socket_devices(devices@))[i as int]);
            assert(creation::tasks(jobs@.push(job)) =~= creation::tasks(jobs@).push(job@));
            assert(tasks(kind, socket_devices(devices@)).take(i + 1) =~= tasks(
                kind,
                socket_devices(devices@),
            ).take(i as int).push(job@));
        }
        jobs.push(job);
        i += 1;
    }
    assert(tasks(kind, socket_devices(devices@)).take(n as int) =~= tasks(
        kind,
        socket_devices(devices@),
    ));
    creation::create(jobs, cfg)
}

/// A glink passthrough device.
#[derive(Debug)]
pub struct VuVirtioGP {
    pub common: Common,
    pub vhost_user_gp: VhostUserOption,
}

impl VirtioDevice for VuVirtioGP {
    open spec fn common(&self) -> Common {
        self.common
    }

    open spec fn with_common(&self, c: Common) -> Self {
        VuVirtioGP { common: c, vhost_user_gp: self.vhost_user_gp }
    }

    fn common_ref(&self) -> (r: &Common) {
        &self.common
    }

    fn common_mut(&mut self) -> (r: &mut Common) {
        &mut self.common
    }
}

impl SocketUser for VuVirtioGP {
    open spec fn option(&self) -> VhostUserOption {
        self.vhost_user_gp
    }

    fn option_ref(&self) -> (r: &VhostUserOption) {
        &self.vhost_user_gp
    }
}

impl VuVirtioGP {
    /// A device without a label or a socket.
    pub fn new() -> (r: Self)
        ensures
            r.common@ == device::fresh(0),
            r.vhost_user_gp.socket@ == Seq::<char>::empty(),
    {
        VuVirtioGP {
            common: Common::new(0),
            vhost_user_gp: VhostUserOption { socket: String::new() },
        }
    }
}

/// The devices of this kind.
#[derive(Debug)]
pub struct VuGPDevices {
    pub vugp_devices: Vec<VuVirtioGP>,
}

impl View for VuGPDevices {
    type V = Seq<SocketDevice>;

    open spec fn view(&self) -> Seq<SocketDevice> {
        socket_devices(self.vugp_devices@)
    }
}

impl VuGPDevices {
    /// No devices.
    pub fn new() -> (r: Self)
        ensures
            r@ == Seq::<SocketDevice>::empty(),
    {
        let r = VuGPDevices { vugp_devices: Vec::new() };
        assert(r@ =~= Seq::empty());
        r
    }

    /// Takes the device that the argument asks for. `exists` says whether the
    /// socket exists.
    pub fn set_argument(&mut self, value: Option<&str>, exists: bool) -> (r: Result<(), Error>)
        requires
            value is Some,
        ensures
            argument::listed(
                r,
                final(self)@,
                asked(VhostUserKind::Gp, value->0@, exists),
                old(self)@,
            ),
    {
        match ask(VhostUserKind::Gp, value, exists) {
            Ok((option, common)) => {
                let mut device = VuVirtioGP::new();
                device.vhost_user_gp = option;
                device.common = common;
                self.vugp_devices.push(device);
                assert(self@ =~= old(self)@.push(
                    SocketDevice { common: common@, socket: option.socket@ },
                ));
                Ok(())
            },
            Err(e) => Err(e),
        }
    }

    /// Starts to create the devices.
    pub fn create_vugp_devices(&self, cfg: &BackendConfig) -> (r: Creation)
        requires
            self@.len() > 0 ==> creation::ready(cfg@),
        ensures
            r.wf(),
            r.plan() == creation::plan_for(tasks(VhostUserKind::Gp, self@), cfg@),
            r.making() == creation::reach(r.plan(), 0, Seq::empty()),
    {
        create_socket_devices(&self.vugp_devices, VhostUserKind::Gp, cfg)
    }
}

/// A system control device.
#[derive(Debug)]
pub struct VuVirtioScmi {
    pub common: Common,
    pub vhost_user_scmi: VhostUserOption,
}

impl VirtioDevice for VuVirtioScmi {
    open spec fn common(&self) -> Common {
        self.common
    }

    open spec fn with_common(&self, c: Common) -> Self {
        VuVirtioScmi { common: c, vhost_user_scmi: self.vhost_user_scmi }
    }

    fn common_ref(&self) -> (r: &Common) {
        &self.common
    }

    fn common_mut(&mut self) -> (r: &mut Common) {
        &mut self.common
    }
}

impl SocketUser for VuVirtioScmi {
    open spec fn option(&self) -> VhostUserOption {
        self.vhost_user_scmi
    }

    fn option_ref(&self) -> (r: &VhostUserOption) {
        &self.vhost_user_scmi
    }
}

impl VuVirtioScmi {
    /// A device without a label or a socket.
    pub fn new() -> (r: Self)
        ensures
            r.common@ == device::fresh(0),
            r.vhost_user_scmi.socket@ == Seq::<char>::empty(),
    {
        VuVirtioScmi {
            common: Common::new(0),
            vhost_user_scmi: VhostUserOption { socket: String::new() },
        }
    }
}

/// The devices of this kind.
#[derive(Debug)]
pub struct VuScmiDevices {
    pub vuscmi_devices: Vec<VuVirtioScmi>,
}

impl View for VuScmiDevices {
    type V = Seq<SocketDevice>;

    open spec fn view(&self) -> Seq<SocketDevice> {
        socket_devices(self.vuscmi_devices@)
    }
}

impl VuScmiDevices {
    /// No devices.
    pub fn new() -> (r: Self)
        ensures
            r@ == Seq::<SocketDevice>::empty(),
    {
        let r = VuScmiDevices { vuscmi_devices: Vec::new() };
        assert(r@ =~= Seq::empty());
        r
    }

    /// Takes the device that the argument asks for. `exists` says whether the
    /// socket exists.
    pub fn set_argument(&mut self, value: Option<&str>, exists: bool) -> (r: Result<(), Error>)
        requires
            value is Some,
        ensures
            argument::listed(
                r,
                final(self)@,
                asked(VhostUserKind::Scmi, value->0@, exists),
                old(self)@,
            ),
    {
        match ask(VhostUserKind::Scmi, value, exists) {
            Ok((option, common)) => {
                let mut device = VuVirtioScmi::new();
                device.vhost_user_scmi = option;
                device.common = common;
                self.vuscmi_devices.push(device);
                assert(self@ =~= old(self)@.push(
                    SocketDevice { common: common@, socket: option.socket@ },
                ));
                Ok(())
            },
            Err(e) => Err(e),
        }
    }

    /// Starts to create the devices.
    pub fn create_vuscmi_devices(&self, cfg: &BackendConfig) -> (r: Creation)
        requires
            self@.len() > 0 ==> creation::ready(cfg@),
        ensures
            r.wf(),
            r.plan() == creation::plan_for(tasks(VhostUserKind::Scmi, self@), cfg@),
            r.making() == creation::reach(r.plan(), 0, Seq::empty()),
    {
        create_socket_devices(&self.vuscmi_devices, VhostUserKind::Scmi, cfg)
    }
}

/// An I2C adapter.
#[derive(Debug)]
pub struct VuVirtioI2c {
    pub common: Common,
    pub vhost_user_i2c: VhostUserOption,
}

impl VirtioDevice for VuVirtioI2c {
    open spec fn common(&self) -> Common {
        self.common
    }

    open spec fn with_common(&self, c: Common) -> Self {
        VuVirtioI2c { common: c, vhost_user_i2c: self.vhost_user_i2c }
    }

    fn common_ref(&self) -> (r: &Common) {
        &self.common
    }

    fn common_mut(&mut self) -> (r: &mut Common) {
        &mut self.common
    }
}

impl SocketUser for VuVirtioI2c {
    open spec fn option(&self) -> VhostUserOption {
        self.vhost_user_i2c
    }

    fn option_ref(&self) -> (r: &VhostUserOption) {
        &self.vhost_user_i2c
    }
}

impl VuVirtioI2c {
    /// A device without a label or a socket.
    pub fn new() -> (r: Self)
        ensures
            r.common@ == device::fresh(0),
            r.vhost_user_i2c.socket@ == Seq::<char>::empty(),
    {
        VuVirtioI2c {
            common: Common::new(0),
            vhost_user_i2c: VhostUserOption { socket: String::new() },
        }
    }
}

/// The devices of this kind.
#[derive(Debug)]
pub struct VuVirtioI2cDevices {
    pub vui2c_devices: Vec<VuVirtioI2c>,
}

impl View for VuVirtioI2cDevices {
    type V = Seq<SocketDevice>;

    open spec fn view(&self) -> Seq<SocketDevice> {
        socket_devices(self.vui2c_devices@)
    }
}

impl VuVirtioI2cDevices {
    /// No devices.
    pub fn new() -> (r: Self)
        ensures
            r@ == Seq::<SocketDevice>::empty(),
    {
        let r = VuVirtioI2cDevices { vui2c_devices: Vec::new() };
        assert(r@ =~= Seq::empty());
        r
    }

    /// Takes the device that the argument asks for. `exists` says whether the
    /// socket exists.
    pub fn set_argument(&mut self, value: Option<&str>, exists: bool) -> (r: Result<(), Error>)
        requires
            value is Some,
        ensures
            argument::listed(
                r,
                final(self)@,
                asked(VhostUserKind::I2c, value->0@, exists),
                old(self)@,
            ),
    {
        match ask(VhostUserKind::I2c, value, exists) {
            Ok((option, common)) => {
                let mut device = VuVirtioI2c::new();
                device.vhost_user_i2c = option;
                device.common = common;
                self.vui2c_devices.push(device);
                assert(self@ =~= old(self)@.push(
                    SocketDevice { common: common@, socket: option.socket@ },
                ));
                Ok(())
            },
            Err(e) => Err(e),
        }
    }

    /// Starts to create the devices.
    pub fn create_vui2c_devices(&self, cfg: &BackendConfig) -> (r: Creation)
        requires
            self@.len() > 0 ==> creation::ready(cfg@),
        ensures
            r.wf(),
            r.plan() == creation::plan_for(tasks(VhostUserKind::I2c, self@), cfg@),
            r.making() == creation::reach(r.plan(), 0, Seq::empty()),
    {
        create_socket_devices(&self.vui2c_devices, VhostUserKind::I2c, cfg)
    }
}

/// A GPIO device.
#[derive(Debug)]
pub struct VuVirtioGpio {
    pub common: Common,
    pub vhost_user_gpio: VhostUserOption,
}

impl VirtioDevice for VuVirtioGpio {
    open spec fn common(&self) -> Common {
        self.common
    }

    open spec fn with_common(&self, c: Common) -> Self {
        VuVirtioGpio { common: c, vhost_user_gpio: self.vhost_user_gpio }
    }

    fn common_ref(&self) -> (r: &Common) {
        &self.common
    }

    fn common_mut(&mut self) -> (r: &mut Common) {
        &mut self.common
    }
}

impl SocketUser for VuVirtioGpio {
    open spec fn option(&self) -> VhostUserOption {
        self.vhost_user_gpio
    }

    fn option_ref(&self) -> (r: &VhostUserOption) {
        &self.vhost_user_gpio
    }
}

/// The devices of this kind.
#[derive(Debug)]
pub struct VuVirtioGpioDevices {
    pub vugpio_devices: Vec<VuVirtioGpio>,
}

impl View for VuVirtioGpioDevices {
    type V = Seq<SocketDevice>;

    open spec fn view(&self) -> Seq<SocketDevice> {
        socket_devices(self.vugpio_devices@)
    }
}

impl VuVirtioGpioDevices {
    /// No devices.
    pub fn new() -> (r: Self)
        ensures
            r@ == Seq::<SocketDevice>::empty(),
    {
        let r = VuVirtioGpioDevices { vugpio_devices: Vec::new() };
        assert(r@ =~= Seq::empty());
        r
    }

    /// Takes the device that the argument asks for. `exists` says whether the
    /// socket exists.
    pub fn set_argument(&mut self, value: Option<&str>, exists: bool) -> (r: Result<(), Error>)
        requires
            value is Some,
        ensures
            argument::listed(
                r,
                final(self)@,
                asked(VhostUserKind::Gpio, value->0@, exists),
                old(self)@,
            ),
    {
        match ask(VhostUserKind::Gpio, value, exists) {
            Ok((option, common)) => {
                let device = VuVirtioGpio { common, vhost_user_gpio: option };
                self.vugpio_devices.push(device);
                assert(self@ =~= old(self)@.push(
                    SocketDevice { common: common@, socket: option.socket@ },
                ));
                Ok(())
            },
            Err(e) => Err(e),
        }
    }

    /// Starts to create the devices.
    pub fn create_vugpio_devices(&self, cfg: &BackendConfig) -> (r: Creation)
        requires
            self@.len() > 0 ==> creation::ready(cfg@),
        ensures
            r.wf(),
            r.plan() == creation::plan_for(tasks(VhostUserKind::Gpio, self@), cfg@),
            r.making() == creation::reach(r.plan(), 0, Seq::empty()),
    {
        create_socket_devices(&self.vugpio_devices, VhostUserKind::Gpio, cfg)
    }
}

/// A remote call device.
#[derive(Debug)]
pub struct VuVirtiofrpc {
    pub common: Common,
    pub vhost_user_frpc: VhostUserOption,
}

impl VirtioDevice for VuVirtiofrpc {
    open spec fn common(&self) -> Common {
        self.common
    }

    open spec fn with_common(&self, c: Common) -> Self {
        VuVirtiofrpc { common: c, vhost_user_frpc: self.vhost_user_frpc }
    }

    fn common_ref(&self) -> (r: &Common) {
        &self.common
    }

    fn common_mut(&mut self) -> (r: &mut Common) {
        &mut self.common
    }
}

impl SocketUser for VuVirtiofrpc {
    open spec fn option(&self) -> VhostUserOption {
        self.vhost_user_frpc
    }

    fn option_ref(&self) -> (r: &VhostUserOption) {
        &self.vhost_user_frpc
    }
}

impl VuVirtiofrpc {
    /// A device without a label or a socket.
    pub fn new() -> (r: Self)
        ensures
            r.common@ == device::fresh(0),
            r.vhost_user_frpc.socket@ == Seq::<char>::empty(),
    {
        VuVirtiofrpc {
            common: Common::new(0),
            vhost_user_frpc: VhostUserOption { socket: String::new() },
        }
    }
}

/// The devices of this kind.
#[derive(Debug)]
pub struct VuVirtiofrpcDevices {
    pub vu_frpc_devices: Vec<VuVirtiofrpc>,
}

impl View for VuVirtiofrpcDevices {
    type V = Seq<SocketDevice>;

    open spec fn view(&self) -> Seq<SocketDevice> {
        socket_devices(self.vu_frpc_devices@)
    }
}

impl VuVirtiofrpcDevices {
    /// No devices.
    pub fn new() -> (r: Self)
        ensures
            r@ == Seq::<SocketDevice>::empty(),
    {
        let r = VuVirtiofrpcDevices { vu_frpc_devices: Vec::new() };
        assert(r@ =~= Seq::empty());
        r
    }

    /// Takes the device that the argument asks for. `exists` says whether the
    /// socket exists.
    pub fn set_argument(&mut self, value: Option<&str>, exists: bool) -> (r: Result<(), Error>)
        requires
            value is Some,
        ensures
            argument::listed(
                r,
                final(self)@,
                asked(VhostUserKind::Frpc, value->0@, exists),
                old(self)@,
            ),
    {
        match ask(VhostUserKind::Frpc, value, exists) {
            Ok((option, common)) => {
                let mut device = VuVirtiofrpc::new();
                device.vhost_user_frpc = option;
                device.common = common;
                self.vu_frpc_devices.push(device);
                assert(self@ =~= old(self)@.push(
                    SocketDevice { common: common@, socket: option.socket@ },
                ));
                Ok(())
            },
            Err(e) => Err(e),
        }
    }

    /// Starts to create the devices.
    pub fn create_vufrpc_devices(&self, cfg: &BackendConfig) -> (r: Creation)
        requires
            self@.len() > 0 ==> creation::ready(cfg@),
        ensures
            r.wf(),
            r.plan() == creation::plan_for(tasks(VhostUserKind::Frpc, self@), cfg@),
            r.making() == creation::reach(r.plan(), 0, Seq::empty()),
    {
        create_socket_devices(&self.vu_frpc_devices, VhostUserKind::Frpc, cfg)
    }
}

/// A subsystem restart device.
#[derive(Debug)]
pub struct VuVirtioSsr {
    pub common: Common,
    pub vhost_user_ssr: VhostUserOption,
}

impl VirtioDevice for VuVirtioSsr {
    open spec fn common(&self) -> Common {
        self.common
    }

    open spec fn with_common(&self, c: Common) -> Self {
        VuVirtioSsr { common: c, vhost_user_ssr: self.vhost_user_ssr }
    }

    fn common_ref(&self) -> (r: &Common) {
        &self.common
    }

    fn common_mut(&mut self) -> (r: &mut Common) {
        &mut self.common
    }
}

impl SocketUser for VuVirtioSsr {
    open spec fn option(&self) -> VhostUserOption {
        self.vhost_user_ssr
    }

    fn option_ref(&self) -> (r: &VhostUserOption) {
        &self.vhost_user_ssr
    }
}

/// The devices of this kind.
#[derive(Debug)]
pub struct VuVirtioSsrDevices {
    pub vussr_devices: Vec<VuVirtioSsr>,
}

impl View for VuVirtioSsrDevices {
    type V = Seq<SocketDevice>;

    open spec fn view(&self) -> Seq<SocketDevice> {
        socket_devices(self.vussr_devices@)
    }
}

impl VuVirtioSsrDevices {
    /// No devices.
    pub fn new() -> (r: Self)
        ensures
            r@ == Seq::<SocketDevice>::empty(),
    {
        let r = VuVirtioSsrDevices { vussr_devices: Vec::new() };
        assert(r@ =~= Seq::empty());
        r
    }

    /// Takes the device that the argument asks for. `exists` says whether the
    /// socket exists.
    pub fn set_argument(&mut self, value: Option<&str>, exists: bool) -> (r: Result<(), Error>)
        requires
            value is Some,
        ensures
            argument::listed(
                r,
                final(self)@,
                asked(VhostUserKind::Ssr, value->0@, exists),
                old(self)@,
            ),
    {
        match ask(VhostUserKind::Ssr, value, exists) {
            Ok((option, common)) => {
                let device = VuVirtioSsr { common, vhost_user_ssr: option };
                self.vussr_devices.push(device);
                assert(self@ =~= old(self)@.push(
                    SocketDevice { common: common@, socket: option.socket@ },
                ));
                Ok(())
            },
            Err(e) => Err(e),
        }
    }

    /// Starts to create the devices.
    pub fn create_vussr_devices(&self, cfg: &BackendConfig) -> (r: Creation)
        requires
            self@.len() > 0 ==> creation::ready(cfg@),
        ensures
            r.wf(),
            r.plan() == creation::plan_for(tasks(VhostUserKind::Ssr, self@), cfg@),
            r.making() == creation::reach(r.plan(), 0, Seq::empty()),
    {
        create_socket_devices(&self.vussr_devices, VhostUserKind::Ssr, cfg)
    }
}

/// An audio video bridging device.
#[derive(Debug)]
pub struct VirtioEAVB {
    pub common: Common,
    pub vhost_user_eavb: VhostUserOption,
}

impl VirtioDevice for VirtioEAVB {
    open spec fn common(&self) -> Common {
        self.common
    }

    open spec fn with_common(&self, c: Common) -> Self {
        VirtioEAVB { common: c, vhost_user_eavb: self.vhost_user_eavb }
    }

    fn common_ref(&self) -> (r: &Common) {
        &self.common
    }

    fn common_mut(&mut self) -> (r: &mut Common) {
        &mut self.common
    }
}

impl SocketUser for VirtioEAVB {
    open spec fn option(&self) -> VhostUserOption {
        self.vhost_user_eavb
    }

    fn option_ref(&self) -> (r: &VhostUserOption) {
        &self.vhost_user_eavb
    }
}

impl VirtioEAVB {
    /// A device without a label or a socket.
    pub fn new() -> (r: Self)
        ensures
            r.common@ == device::fresh(0),
            r.vhost_user_eavb.socket@ == Seq::<char>::empty(),
    {
        VirtioEAVB {
            common: Common::new(0),
            vhost_user_eavb: VhostUserOption { socket: String::new() },
        }
    }
}

/// The devices of this kind.
#[derive(Debug)]
pub struct VirtioEAVBDevices {
    pub virtio_eavb_devices: Vec<VirtioEAVB>,
}

impl View for VirtioEAVBDevices {
    type V = Seq<SocketDevice>;

    open spec fn view(&self) -> Seq<SocketDevice> {
        socket_devices(self.virtio_eavb_devices@)
    }
}

impl VirtioEAVBDevices {
    /// No devices.
    pub fn new() -> (r: Self)
        ensures
            r@ == Seq::<SocketDevice>::empty(),
    {
        let r = VirtioEAVBDevices { virtio_eavb_devices: Vec::new() };
        assert(r@ =~= Seq::empty());
        r
    }

    /// Takes the device that the argument asks for. `exists` says whether the
    /// socket exists.
    pub fn set_argument(&mut self, value: Option<&str>, exists: bool) -> (r: Result<(), Error>)
        requires
            value is Some,
        ensures
            argument::listed(
                r,
                final(self)@,
                asked(VhostUserKind::Eavb, value->0@, exists),
                old(self)@,
            ),
    {
        match ask(VhostUserKind::Eavb, value, exists) {
            Ok((option, common)) => {
                let mut device = VirtioEAVB::new();
                device.vhost_user_eavb = option;
                device.common = common;
                self.virtio_eavb_devices.push(device);
                assert(self@ =~= old(self)@.push(
                    SocketDevice { common: common@, socket: option.socket@ },
                ));
                Ok(())
            },
            Err(e) => Err(e),
        }
    }

    /// Starts to create the devices.
    pub fn create_veavb_devices(&self, cfg: &BackendConfig) -> (r: Creation)
        requires
            self@.len() > 0 ==> creation::ready(cfg@),
        ensures
            r.wf(),
            r.plan() == creation::plan_for(tasks(VhostUserKind::Eavb, self@), cfg@),
            r.making() == creation::reach(r.plan(), 0, Seq::empty()),
    {
        create_socket_devices(&self.virtio_eavb_devices, VhostUserKind::Eavb, cfg)
    }
}

} // verus!
