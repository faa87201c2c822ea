//! The options of the backend as a whole.
use vstd::prelude::*;

use crate::argument;
use crate::argument::Error;
use crate::memory::MemoryRegion;
use crate::text;

verus! {

/// How important a message of the log is.
#[derive(Clone, Copy, Debug, PartialEq, Eq, Structural)]
pub enum Level {
    Error,
    Warn,
    Info,
    Debug,
    Trace,
}

/// Which messages the log takes.
#[derive(Clone, Copy, Debug, PartialEq, Eq, Structural)]
pub enum LevelFilter {
    Off,
    Error,
    Warn,
    Info,
    Debug,
    Trace,
}

/// `c` as a capital letter, if it is one of the letters from a to z.
pub open spec fn capital(c: char) -> char {
    if 'a' <= c && c <= 'z' {
        (c as int - 0x20) as char
    } else {
        c
    }
}

/// Whether `a` and `b` differ at most in capital letters.
pub open spec fn same_letters(a: Seq<char>, b: Seq<char>) -> bool {
    &&& a.len() == b.len()
    &&& forall|i: int| 0 <= i < a.len() ==> capital(#[trigger] a[i]) == capital(b[i])
}

/// The level that has this name, in capital letters or not.
pub open spec fn level_named(s: Seq<char>) -> Option<Level> {
    if same_letters("ERROR"@, s) {
        Some(Level::Error)
    } else if same_letters("WARN"@, s) {
        Some(Level::Warn)
    } else if same_letters("INFO"@, s) {
        Some(Level::Info)
    } else if same_letters("DEBUG"@, s) {
        Some(Level::Debug)
    } else if same_letters("TRACE"@, s) {
        Some(Level::Trace)
    } else {
        None
    }
}

/// The case of the letters of a level does not matter.
pub proof fn lemma_level_ignores_case(a: Seq<char>, b: Seq<char>)
    requires
        same_letters(a, b),
    ensures
        level_named(a) == level_named(b),
{
    lemma_same_letters("ERROR"@, a, b);
    lemma_same_letters("WARN"@, a, b);
    lemma_same_letters("INFO"@, a, b);
    lemma_same_letters("DEBUG"@, a, b);
    lemma_same_letters("TRACE"@, a, b);
}

proof fn lemma_same_letters(name: Seq<char>, a: Seq<char>, b: Seq<char>)
    requires
        same_letters(a, b),
    ensures
        same_letters(name, a) == same_letters(name, b),
{
    if same_letters(name, a) {
        assert forall|i: int| 0 <= i < name.len() implies capital(#[trigger] name[i]) == capital(
            b[i],
        ) by {
            assert(capital(a[i]) == capital(b[i]));
        }
    }
    if same_letters(name, b) {
        assert forall|i: int| 0 <= i < name.len() implies capital(#[trigger] name[i]) == capital(
            a[i],
        ) by {
            assert(capital(a[i]) == capital(b[i]));
        }
    }
}

/// The filter that takes the messages of this level and the more important
/// ones.
pub open spec fn filter_of(level: Level) -> LevelFilter {
    match level {
        Level::Error => LevelFilter::Error,
        Level::Warn => LevelFilter::Warn,
        Level::Info => LevelFilter::Info,
        Level::Debug => LevelFilter::Debug,
        Level::Trace => LevelFilter::Trace,
    }
}

/// Reads the name of a level with `<log::Level as FromStr>::from_str`.
///
/// That function compares the text with the names ERROR, WARN, INFO, DEBUG and
/// TRACE, without regard to the case of ASCII letters, and gives the level of
/// the one that matches, or an error where none does.
#[verifier::external_body]
fn level_from_str(s: &str) -> (r: Option<Level>)
    ensures
        r == level_named(s@),
{
    match s.parse::<log::Level>() {
        Ok(log::Level::Error) => Some(Level::Error),
        Ok(log::Level::Warn) => Some(Level::Warn),
        Ok(log::Level::Info) => Some(Level::Info),
        Ok(log::Level::Debug) => Some(Level::Debug),
        Ok(log::Level::Trace) => Some(Level::Trace),
        Err(_) => None,
    }
}

impl Level {
    /// The filter that takes the messages of this level and the more important
    /// ones.
    pub fn to_level_filter(&self) -> (r: LevelFilter)
        ensures
            r == filter_of(*self),
    {
        match self {
            Level::Error => LevelFilter::Error,
            Level::Warn => LevelFilter::Warn,
            Level::Info => LevelFilter::Info,
            Level::Debug => LevelFilter::Debug,
            Level::Trace => LevelFilter::Trace,
        }
    }
}

/// The options of the backend as a whole.
#[derive(Debug)]
pub struct BackendConfig {
    /// The descriptor of the hypervisor.
    pub sfd: Option<i32>,
    /// The descriptor of the virtual machine.
    pub vm_sfd: Option<i32>,
    /// The name of the virtual machine.
    pub vm: Option<String>,
    pub mem: Option<Vec<MemoryRegion>>,
    /// The version of the driver.
    pub driver_variant: u8,
    pub sandbox: bool,
    pub non_protected_virtio: bool,
    pub log_level: LevelFilter,
    pub log_type: Option<String>,
    /// Whether a device was asked for.
    pub bkend_dev_exist: bool,
}

/// `BackendConfig` with its texts and lists as sequences.
pub struct Config {
    pub sfd: Option<i32>,
    pub vm_sfd: Option<i32>,
    pub vm: Option<Seq<char>>,
    pub mem: Option<Seq<MemoryRegion>>,
    pub driver_variant: u8,
    pub sandbox: bool,
    pub non_protected_virtio: bool,
    pub log_level: LevelFilter,
    pub log_type: Option<Seq<char>>,
    pub bkend_dev_exist: bool,
}

/// The text of an optional string.
pub open spec fn optional_text(s: Option<String>) -> Option<Seq<char>> {
    match s {
        Some(s) => Some(s@),
        None => None,
    }
}

impl View for BackendConfig {
    type V = Config;

    open spec fn view(&self) -> Config {
        Config {
            sfd: self.sfd,
            vm_sfd: self.vm_sfd,
            vm: optional_text(self.vm),
            mem: match self.mem {
                Some(m) => Some(m@),
                None => None,
            },
            driver_variant: self.driver_variant,
            sandbox: self.sandbox,
            non_protected_virtio: self.non_protected_virtio,
            log_level: self.log_level,
            log_type: optional_text(self.log_type),
            bkend_dev_exist: self.bkend_dev_exist,
        }
    }
}

/// The options before any argument was read.
pub open spec fn default_config() -> Config {
    Config {
        sfd: None,
        vm_sfd: None,
        vm: None,
        mem: None,
        driver_variant: 2,
        sandbox: false,
        non_protected_virtio: false,
        log_level: LevelFilter::Info,
        log_type: Some("ftrace"@),
        bkend_dev_exist: false,
    }
}

/// Whether a log of this type exists.
pub open spec fn log_type_known(s: Seq<char>) -> bool {
    s == "logcat"@ || s == "term"@ || s == "ftrace"@
}

/// What one option of the log argument does to the options: it sets the level
/// or the type.
pub open spec fn log_option(c: Config, opt: Seq<char>) -> Result<Config, argument::Refusal> {
    match argument::kind_value(opt, "log options must be of the form `kind=value`"@) {
        Err(e) => Err(e),
        Ok((kind, value)) => if kind == "level"@ {
            match level_named(value) {
                Some(level) => Ok(Config { log_level: filter_of(level), ..c }),
                None => Err(
                    argument::Refusal { value, expected: "trace | debug | info | warn | error"@ },
                ),
            }
        } else if kind == "type"@ {
            if log_type_known(value) {
                Ok(Config { log_type: Some(value), ..c })
            } else {
                Err(
                    argument::Refusal {
                        value,
                        expected: "supported logger options. 'type=logcat|term|ftrace"@,
                    },
                )
            }
        } else {
            Err(
                argument::Refusal {
                    value: kind,
                    expected: "supported logger options. 'type=logcat | term | ftrace'"@,
                },
            )
        },
    }
}

/// What the parts of the log argument do, one after the other: the options
/// after the parts before the first that is refused, and the refusal.
pub open spec fn log_options(c: Config, opts: Seq<Seq<char>>) -> (
    Config,
    Result<(), argument::Refusal>,
)
    decreases opts.len(),
{
    if opts.len() == 0 {
        (c, Ok(()))
    } else {
        let (before, done) = log_options(c, opts.drop_last());
        if done is Err {
            (before, done)
        } else {
            match log_option(before, opts.last()) {
                Ok(after) => (after, Ok(())),
                Err(e) => (before, Err(e)),
            }
        }
    }
}

proof fn lemma_log_refusal_stands(c: Config, opts: Seq<Seq<char>>, i: int)
    requires
        0 <= i <= opts.len(),
        log_options(c, opts.take(i)).1 is Err,
    ensures
        log_options(c, opts) == log_options(c, opts.take(i)),
    decreases opts.len(),
{
    if i < opts.len() {
        assert(opts.drop_last().take(i) =~= opts.take(i));
        lemma_log_refusal_stands(c, opts.drop_last(), i);
    } else {
        assert(opts.take(i) =~= opts);
    }
}

/// The options of the log touch nothing but its level and its type.
pub proof fn lemma_log_options_touch_the_log(c: Config, opts: Seq<Seq<char>>)
    ensures
        log_options(c, opts).0 == (Config {
            log_level: log_options(c, opts).0.log_level,
            log_type: log_options(c, opts).0.log_type,
            ..c
        }),
    decreases opts.len(),
{
    if opts.len() > 0 {
        lemma_log_options_touch_the_log(c, opts.drop_last());
    }
}

/// The type of the log is always one that exists, if it was before.
pub proof fn lemma_log_options_keep(c: Config, opts: Seq<Seq<char>>)
    requires
        c.log_type is Some,
        log_type_known(c.log_type->0),
    ensures
        log_options(c, opts).0.log_type is Some,
        log_type_known(log_options(c, opts).0.log_type->0),
    decreases opts.len(),
{
    if opts.len() > 0 {
        lemma_log_options_keep(c, opts.drop_last());
    }
}

/// A level has its own name, in capital letters or not, and sets the filter of
/// its own name.
pub proof fn lemma_levels_have_their_names(s: Seq<char>)
    ensures
        s == "error"@ || s == "ERROR"@ ==> level_named(s) == Some(Level::Error),
        s == "warn"@ || s == "WARN"@ ==> level_named(s) == Some(Level::Warn),
        s == "info"@ || s == "INFO"@ ==> level_named(s) == Some(Level::Info),
        s == "debug"@ || s == "DEBUG"@ ==> level_named(s) == Some(Level::Debug),
        s == "trace"@ || s == "TRACE"@ ==> level_named(s) == Some(Level::Trace),
        level_named(s) is Some ==> 4 <= s.len() <= 5,
{
    reveal_strlit("error");
    reveal_strlit("ERROR");
    reveal_strlit("warn");
    reveal_strlit("WARN");
    reveal_strlit("info");
    reveal_strlit("INFO");
    reveal_strlit("debug");
    reveal_strlit("DEBUG");
    reveal_strlit("trace");
    reveal_strlit("TRACE");
    assert("error"@ =~= seq!['e', 'r', 'r', 'o', 'r']);
    assert("ERROR"@ =~= seq!['E', 'R', 'R', 'O', 'R']);
    assert("warn"@ =~= seq!['w', 'a', 'r', 'n']);
    assert("WARN"@ =~= seq!['W', 'A', 'R', 'N']);
    assert("info"@ =~= seq!['i', 'n', 'f', 'o']);
    assert("INFO"@ =~= seq!['I', 'N', 'F', 'O']);
    assert("debug"@ =~= seq!['d', 'e', 'b', 'u', 'g']);
    assert("DEBUG"@ =~= seq!['D', 'E', 'B', 'U', 'G']);
    assert("trace"@ =~= seq!['t', 'r', 'a', 'c', 'e']);
    assert("TRACE"@ =~= seq!['T', 'R', 'A', 'C', 'E']);
    if level_named(s) == Some(Level::Error) {
        assert(capital("ERROR"@[0]) == capital(s[0]));
    }
    if same_letters("ERROR"@, s) {
        assert(capital("ERROR"@[0]) == capital(s[0]));
    }
    if same_letters("WARN"@, s) {
        assert(capital("WARN"@[0]) == capital(s[0]));
    }
    if same_letters("INFO"@, s) {
        assert(capital("INFO"@[0]) == capital(s[0]));
    }
    if same_letters("DEBUG"@, s) {
        assert(capital("DEBUG"@[0]) == capital(s[0]));
    }
}

/// What one option does: the level is set by its name, the type by its word,
/// and nothing else is touched. A level or a type that there is not is refused
/// as it stands, and so is an option of another kind.
pub proof fn lemma_each_log_option_sets_its_field(c: Config, kind: Seq<char>, value: Seq<char>)
    requires
        !kind.contains('='),
    ensures
        ({
            let after = log_option(c, argument::written(kind, value));
            &&& kind == "level"@ && level_named(value) is Some ==> (after matches Ok(a)
                && a.log_level == filter_of(level_named(value)->0) && a.log_type == c.log_type
                && a.vm == c.vm && a.sandbox == c.sandbox && a.mem == c.mem && a.sfd == c.sfd
                && a.vm_sfd == c.vm_sfd && a.driver_variant == c.driver_variant
                && a.non_protected_virtio == c.non_protected_virtio && a.bkend_dev_exist
                == c.bkend_dev_exist)
            &&& kind == "level"@ && level_named(value) is None ==> (after matches Err(e) && e.value
                == value && e.expected == "trace | debug | info | warn | error"@)
            &&& kind == "type"@ && (value == "logcat"@ || value == "term"@ || value == "ftrace"@)
                ==> (after matches Ok(a) && a.log_type == Some(value) && a.log_level
                == c.log_level && a.vm == c.vm && a.sandbox == c.sandbox && a.mem == c.mem && a.sfd
                == c.sfd && a.vm_sfd == c.vm_sfd && a.driver_variant == c.driver_variant
                && a.non_protected_virtio == c.non_protected_virtio && a.bkend_dev_exist
                == c.bkend_dev_exist)
            &&& kind == "type"@ && value != "logcat"@ && value != "term"@
                && value != "ftrace"@ ==> (
            after matches Err(e) && e.value == value && e.expected
                == "supported logger options. 'type=logcat|term|ftrace"@)
            &&& kind != "level"@ && kind != "type"@ ==> (after matches Err(e) && e.value == kind
                && e.expected == "supported logger options. 'type=logcat | term | ftrace'"@)
        }),
{
    argument::lemma_option_reads_back(
        kind,
        value,
        "log options must be of the form `kind=value`"@,
    );
    reveal_strlit("level");
    reveal_strlit("type");
    assert("level"@.len() == 5 && "type"@.len() == 4);
}

/// One more option of the log acts on what the ones before it left. What was
/// set before a refused option stays set.
pub proof fn lemma_log_options_act_in_turn(c: Config, opts: Seq<Seq<char>>, opt: Seq<char>)
    ensures
        ({
            let (before, said) = log_options(c, opts);
            let (after, all) = log_options(c, opts.push(opt));
            &&& said is Err ==> after == before && all == said
            &&& said is Ok ==> match log_option(before, opt) {
                Ok(a) => after == a && all is Ok,
                Err(e) => after == before && all == Err::<(), argument::Refusal>(e),
            }
        }),
        log_options(c, Seq::empty()) == (c, Ok::<(), argument::Refusal>(())),
{
    assert(opts.push(opt).drop_last() =~= opts);
}

/// A filter lets through its own level and the more important ones, so two
/// levels never set the same filter, and none of them stops the log.
pub proof fn lemma_filters_follow_levels(a: Level, b: Level)
    ensures
        filter_of(a) == filter_of(b) ==> a == b,
        filter_of(a) != LevelFilter::Off,
        filter_of(Level::Error) == LevelFilter::Error,
        filter_of(Level::Warn) == LevelFilter::Warn,
        filter_of(Level::Info) == LevelFilter::Info,
        filter_of(Level::Debug) == LevelFilter::Debug,
        filter_of(Level::Trace) == LevelFilter::Trace,
{
}

/// Before any argument was read nothing is known of the virtual machine, no
/// switch is set, the driver is the current one, and the log goes to the trace
/// of the kernel.
pub proof fn lemma_nothing_is_set_at_first()
    ensures
        ({
            let c = default_config();
            &&& c.sfd is None && c.vm_sfd is None && c.vm is None && c.mem is None
            &&& !c.sandbox && !c.non_protected_virtio && !c.bkend_dev_exist
            &&& c.driver_variant == 2
            &&& c.log_level == LevelFilter::Info
            &&& c.log_type == Some("ftrace"@)
        }),
{
}

impl Default for BackendConfig {
    fn default() -> (r: BackendConfig)
        ensures
            r@ == default_config(),
    {
        BackendConfig {
            vm: None,
            mem: None,
            sfd: None,
            vm_sfd: None,
            driver_variant: 2,
            sandbox: false,
            non_protected_virtio: false,
            log_level: LevelFilter::Info,
            log_type: Some("ftrace".to_owned()),
            bkend_dev_exist: false,
        }
    }
}

impl BackendConfig {
    /// The options before any argument was read.
    pub fn new() -> (r: Self)
        ensures
            r@ == default_config(),
    {
        BackendConfig::default()
    }

    /// Reads the log argument.
    pub fn set_log(&mut self, param: &str) -> (r: Result<(), Error>)
        ensures
            final(self)@ == log_options(old(self)@, text::pieces(param@, ',')).0,
            argument::agrees(r, log_options(old(self)@, text::pieces(param@, ',')).1),
    {
        let parts = argument::components(param);
        let ghost opts = text::pieces(param@, ',');
        let ghost start = self@;
        let n: usize = parts.len();
        let mut i: usize = 0;
        assert(opts.take(0) =~= Seq::empty());
        while i < n
            invariant
                i <= n,
                n == parts@.len(),
                text::texts(parts@) == opts,
                opts == text::pieces(param@, ','),
                start == old(self)@,
                log_options(start, opts.take(i as int)) == (self@, Ok::<(), argument::Refusal>(())),
            decreases n - i,
        {
            let opt = parts[i];
            proof {
                assert(text::texts(parts@)[i as int] == opt@);
                assert(opts.take(i + 1).drop_last() =~= opts.take(i as int));
                assert(opts.take(i + 1).last() == opt@);
                if log_options(start, opts.take(i + 1)).1 is Err {
                    lemma_log_refusal_stands(start, opts, i + 1);
                }
            }
            let (kind, value) = match argument::read_option(
                opt,
                "log options must be of the form `kind=value`",
            ) {
                Ok(kv) => kv,
                Err(e) => {
                    return Err(e);
                },
            };
            if text::same(kind, "level") {
                match level_from_str(value) {
                    Some(level) => {
                        self.log_level = level.to_level_filter();
                    },
                    None => {
                        return Err(argument::invalid(value, "trace | debug | info | warn | error"));
                    },
                }
            } else if text::same(kind, "type") {
                if text::same(value, "logcat") || text::same(value, "term") || text::same(
                    value,
                    "ftrace",
                ) {
                    self.log_type = Some(value.to_owned());
                } else {
                    return Err(
                        argument::invalid(
                            value,
                            "supported logger options. 'type=logcat|term|ftrace",
                        ),
                    );
                }
            } else {
                return Err(
                    argument::invalid(
                        kind,
                        "supported logger options. 'type=logcat | term | ftrace'",
                    ),
                );
            }
            i += 1;
        }
        assert(opts.take(n as int) =~= opts);
        Ok(())
    }
}

} // verus!
