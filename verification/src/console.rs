//! Consoles.
use vstd::prelude::*;

use crate::argument::{Error, Words};
use crate::argument;
use crate::config::BackendConfig;
use crate::creation::{
    Build, Buildable, Creation, Job, SerialHardware, SerialParameters, SerialType,
};
use crate::creation;
use crate::device::{Common, VirtioDevice};
use crate::device;
use crate::text;

verus! {

/// A console.
#[derive(Debug)]
pub struct VirtioConsole {
    pub common: Common,
    pub serial_params: SerialParameters,
}

/// `VirtioConsole` with its texts and lists as sequences.
pub struct Console {
    pub common: device::Part,
    pub params: creation::Serial,
}

impl View for VirtioConsole {
    type V = Console;

    open spec fn view(&self) -> Console {
        Console { common: self.common@, params: self.serial_params@ }
    }
}

/// The parameters of a console that was not asked for yet.
pub open spec fn default_params() -> creation::Serial {
    creation::Serial {
        type_: SerialType::Stdout,
        hardware: SerialHardware::VirtioConsole,
        path: None,
        input: None,
        num: 1,
        console: false,
        earlycon: false,
        stdin: false,
        out_timestamp: false,
    }
}

/// Whether a console with this file uses the terminal instead: a path that
/// ends in `stdio` and the word `stdout` stand for it.
pub open spec fn on_terminal(file: Seq<char>) -> bool {
    let names = text::segments(file);
    names.len() > 0 && names.last() == "stdio"@ || file == "stdout"@
}

/// The file that is wanted for the console: a path that does not start at the
/// root starts in the current directory.
pub open spec fn wanted_file(file: Seq<char>, current_dir: Seq<char>) -> Seq<char> {
    if text::has_root(file) {
        file
    } else {
        text::below(current_dir, file)
    }
}

/// The parameters of the console that has this file. `writable` says whether
/// the file that is wanted can be written; if not, another file is used.
pub open spec fn console_params(
    file: Seq<char>,
    current_dir: Seq<char>,
    writable: bool,
) -> creation::Serial {
    if on_terminal(file) {
        creation::Serial { console: true, stdin: true, ..default_params() }
    } else {
        creation::Serial {
            type_: SerialType::File,
            path: Some(
                if writable {
                    wanted_file(file, current_dir)
                } else {
                    "/tmp/la_gvm.txt"@
                },
            ),
            console: true,
            ..default_params()
        }
    }
}

/// What the options of a console are told when they are refused.
pub open spec fn console_words() -> Words {
    Words {
        form: "console options must be of the form `kind=value`",
        number: "`label` must be an unsigned integer",
        zero: "`label` must be a non zero integer",
        unknown: "supported console options only",
    }
}

/// The console that the argument `param` asks for. Its first part is the file.
pub open spec fn asked(param: Seq<char>, current_dir: Seq<char>, writable: bool) -> Result<
    Console,
    argument::Refusal,
> {
    match argument::only_label(param, console_words()) {
        Ok(label) => Ok(
            Console {
                common: device::fresh(label),
                params: console_params(argument::head(param), current_dir, writable),
            },
        ),
        Err(e) => Err(e),
    }
}

/// A console reads from the terminal or writes to a file, and never both.
pub proof fn lemma_terminal_or_file(param: Seq<char>, current_dir: Seq<char>, writable: bool)
    requires
        asked(param, current_dir, writable) is Ok,
    ensures
        ({
            let params = asked(param, current_dir, writable)->Ok_0.params;
            &&& params.stdin == (params.type_ is Stdout)
            &&& params.stdin == (params.path is None)
            &&& params.console
        }),
{
}

/// A console is asked for by its file, with labels behind it, of which the
/// last one counts. Anything else is refused.
pub proof fn lemma_file_and_label(
    param: Seq<char>,
    file: Seq<char>,
    value: Seq<char>,
    current_dir: Seq<char>,
    writable: bool,
)
    requires
        !file.contains(','),
        !file.contains('='),
        !value.contains(','),
    ensures
        asked(file, current_dir, writable) matches Ok(d) && d.params == console_params(
            file,
            current_dir,
            writable,
        ) && d.common.label == 0 && d.common.mmio is None && d.common.config_space == Some(
            Seq::<u32>::empty(),
        ),
        ({
            let after = asked(
                argument::longer(param, argument::written("label"@, value)),
                current_dir,
                writable,
            );
            match asked(param, current_dir, writable) {
                Ok(d) => match argument::label(value, console_words()) {
                    Ok(l) => after matches Ok(a) && a.params == d.params && a.common.label == l
                        && a.common.mmio is None && a.common.config_space == Some(
                        Seq::<u32>::empty(),
                    ),
                    Err(e) => after == Err::<Console, argument::Refusal>(e),
                },
                Err(e) => after == Err::<Console, argument::Refusal>(e),
            }
        }),
        asked(param, current_dir, writable) is Ok ==> asked(
            argument::longer(param, file),
            current_dir,
            writable,
        ) is Err,
{
    argument::lemma_label_word();
    argument::lemma_single_part(file);
    argument::lemma_labels_need_their_form(param, file, console_words());
    argument::lemma_last_label_counts(param, "label"@, value, console_words());
    argument::lemma_written_part("label"@, value);
    argument::lemma_longer_argument(param, argument::written("label"@, value));
}

/// Where a console writes: to the terminal if it is called `stdout`, or its
/// path ends in `stdio`, and to its file otherwise. A path that does not start
/// at the root starts in the current directory, and a file that cannot be
/// written is replaced by one that can. Only a console on the terminal reads.
pub proof fn lemma_console_writes_where_it_says(
    file: Seq<char>,
    dir: Seq<char>,
    current_dir: Seq<char>,
    writable: bool,
)
    ensures
        on_terminal("stdout"@),
        on_terminal("stdio"@),
        on_terminal(dir + seq!['/'] + "stdio"@),
        !file.contains('/') && file != "stdout"@ && file != "stdio"@ ==> !on_terminal(file)
            && !on_terminal(dir + seq!['/'] + file) || file.len() == 0 || file == "."@,
        text::segments(file).len() == 0 && file != "stdout"@ ==> !on_terminal(file),
        ({
            let p = console_params(file, current_dir, writable);
            &&& p.hardware is VirtioConsole
            &&& p.num == 1
            &&& p.console
            &&& !p.earlycon
            &&& !p.out_timestamp
            &&& p.input is None
            &&& on_terminal(file) ==> p.type_ is Stdout && p.stdin && p.path is None
            &&& !on_terminal(file) ==> p.type_ is File && !p.stdin
            &&& !on_terminal(file) && !writable ==> p.path == Some("/tmp/la_gvm.txt"@)
            &&& !on_terminal(file) && writable && file.len() > 0 && file[0] == '/' ==> p.path
                == Some(file)
            &&& !on_terminal(file) && writable && !(file.len() > 0 && file[0] == '/') ==> p.path
                == Some(text::below(current_dir, file))
        }),
{
    reveal_strlit("stdio");
    reveal_strlit("stdout");
    reveal_strlit(".");
    assert("."@.len() == 1);
    assert("stdio"@ =~= seq!['s', 't', 'd', 'i', 'o']);
    assert("stdout"@.len() == 6);
    text::lemma_segments_of_two_paths("stdio"@, "stdio"@);
    text::lemma_segments_of_two_paths(dir, "stdio"@);
    text::lemma_segments_of_two_paths(file, file);
    text::lemma_segments_of_two_paths(dir, file);
    let all = dir + seq!['/'] + file;
    if all == "stdout"@ {
        assert("stdout"@ =~= seq!['s', 't', 'd', 'o', 'u', 't']);
        assert(all[dir.len() as int] == '/');
    }
}

fn words() -> (r: Words)
    ensures
        r == console_words(),
{
    Words {
        form: "console options must be of the form `kind=value`",
        number: "`label` must be an unsigned integer",
        zero: "`label` must be a non zero integer",
        unknown: "supported console options only",
    }
}

impl VirtioDevice for VirtioConsole {
    open spec fn common(&self) -> Common {
        self.common
    }

    open spec fn with_common(&self, c: Common) -> Self {
        VirtioConsole { common: c, ..*self }
    }

    fn common_ref(&self) -> (r: &Common) {
        &self.common
    }

    fn common_mut(&mut self) -> (r: &mut Common) {
        &mut self.common
    }
}

/// The file that has to be opened to learn whether it can be written, for the
/// console that the argument `param` asks for. There is none if the console
/// uses the terminal.
pub fn file_to_try(param: &str, current_dir: &str) -> (r: Option<String>)
    ensures
        match r {
            Some(path) => !on_terminal(argument::head(param@)) && path@ == wanted_file(
                argument::head(param@),
                current_dir@,
            ),
            None => on_terminal(argument::head(param@)),
        },
{
    let file = argument::first(param);
    if text::path_ends_with(file, "stdio") || text::same(file, "stdout") {
        None
    } else if text::path_has_root(file) {
        Some(file.to_owned())
    } else {
        Some(text::path_below(current_dir, file))
    }
}

/// The parameters of the console that the argument `param` asks for.
pub fn serial_parameters(param: &str, current_dir: &str, writable: bool) -> (r: SerialParameters)
    ensures
        r@ == console_params(argument::head(param@), current_dir@, writable),
{
    match file_to_try(param, current_dir) {
        None => SerialParameters {
            type_: SerialType::Stdout,
            hardware: SerialHardware::VirtioConsole,
            path: None,
            input: None,
            num: 1,
            console: true,
            earlycon: false,
            stdin: true,
            out_timestamp: false,
        },
        Some(file) => SerialParameters {
            type_: SerialType::File,
            hardware: SerialHardware::VirtioConsole,
            path: Some(
                if writable {
                    file
                } else {
                    "/tmp/la_gvm.txt".to_owned()
                },
            ),
            input: None,
            num: 1,
            console: true,
            earlycon: false,
            stdin: false,
            out_timestamp: false,
        },
    }
}

/// The file that the console that the argument `param` asks for will write, if
/// it writes one. What an earlier run left there, and nothing else, is removed.
pub fn old_log(param: &str, current_dir: &str, writable: bool) -> (r: Option<String>)
    ensures
        crate::config::optional_text(r) == console_params(
            argument::head(param@),
            current_dir@,
            writable,
        ).path,
{
    serial_parameters(param, current_dir, writable).path
}

/// A console is built as it was asked for, under its own label.
pub proof fn lemma_device_is_built_as_asked(d: Console, version: u8)
    ensures
        VirtioConsole::task(d, version).label == d.common.label,
        VirtioConsole::task(d, version).order matches Some(creation::Order::Console { params })
            && params == d.params,
{
}

impl Buildable for VirtioConsole {
    open spec fn task(d: Console, version: u8) -> creation::Task {
        creation::Task {
            label: d.common.label,
            order: Some(creation::Order::Console { params: d.params }),
        }
    }

    fn job(&self, version: u8) -> (r: Job) {
        Job {
            label: self.common.label,
            build: Some(Build::Console { params: self.serial_params.duplicate() }),
        }
    }
}

impl VirtioConsole {
    /// A console without a label or a file.
    pub fn new() -> (r: Self)
        ensures
            r@ == (Console { common: device::fresh(0), params: default_params() }),
    {
        VirtioConsole {
            common: Common::new(0),
            serial_params: SerialParameters {
                type_: SerialType::Stdout,
                hardware: SerialHardware::VirtioConsole,
                path: None,
                input: None,
                num: 1,
                console: false,
                earlycon: false,
                stdin: false,
                out_timestamp: false,
            },
        }
    }
}

/// The consoles of the virtual machine.
#[derive(Debug)]
pub struct VirtioConsoleDevices {
    pub v_consoles: Vec<VirtioConsole>,
}

impl View for VirtioConsoleDevices {
    type V = Seq<Console>;

    open spec fn view(&self) -> Seq<Console> {
        creation::views(self.v_consoles@)
    }
}

impl VirtioConsoleDevices {
    /// None of these devices.
    pub fn new() -> (r: Self)
        ensures
            r@ == Seq::<Console>::empty(),
    {
        let r = VirtioConsoleDevices { v_consoles: Vec::new() };
        assert(r@ =~= Seq::empty());
        r
    }

    /// Takes the console that the argument asks for. `writable` says whether
    /// the file that `file_to_try` gives can be written.
    pub fn set_argument(
        &mut self,
        value: Option<&str>,
        current_dir: &str,
        writable: bool,
    ) -> (r: Result<(), Error>)
        requires
            value is Some,
        ensures
            argument::listed(
                r,
                final(self)@,
                asked(value->0@, current_dir@, writable),
                old(self)@,
            ),
    {
        let param = match value {
            Some(param) => param,
            None => "",
        };
        let mut vconsole = VirtioConsole::new();
        vconsole.serial_params = serial_parameters(param, current_dir, writable);
        match argument::read_only_label(param, words()) {
            Ok(label) => {
                vconsole.common.label = label;
            },
            Err(e) => {
                return Err(e);
            },
        }
        let ghost taken = vconsole@;
        self.v_consoles.push(vconsole);
        assert(self@ =~= old(self)@.push(taken));
        Ok(())
    }

    /// Starts to create the devices.
    pub fn create_console_devices(&self, cfg: &BackendConfig) -> (r: Creation)
        requires
            self@.len() > 0 ==> creation::ready(cfg@),
        ensures
            r.wf(),
            r.plan() == creation::plan_for(
                creation::tasks_for::<VirtioConsole>(self@, cfg@.driver_variant),
                cfg@,
            ),
            r.making() == creation::reach(r.plan(), 0, Seq::empty()),
    {
        creation::create_all(&self.v_consoles, cfg)
    }
}

} // verus!
