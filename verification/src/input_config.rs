//! Describing an input device to the driver: the device is asked for its
//! names, its properties and what it can report, and the driver gets a summary
//! and every answer that is not empty.
use vstd::prelude::*;

use crate::config_space;
use crate::ioctl;
use crate::ioctl::{IoctlArg, VirtioInputDeviceConfig, VirtioInputDeviceData, VmIoctl};
use crate::mmio;
use crate::mmio::{Action, Reply, VIRTIO_MMIO_DEVICE_CONFIG, VIRTIO_MMIO_INPUT_SEL};

verus! {

/// The numbers by which an input device is asked, and how many kinds of events
/// and axes there are to ask for.
#[derive(Clone, Copy, Debug)]
pub struct InputSelectors {
    pub id_name: u8,
    pub id_serial: u8,
    pub id_devids: u8,
    pub prop_bits: u8,
    pub ev_bits: u8,
    pub abs_info: u8,
    pub ev_count: u8,
    pub abs_count: u8,
}

/// Which device is described.
pub struct InputPlan {
    pub label: u32,
    pub version: u8,
    pub selectors: InputSelectors,
}

/// How many questions the device is asked.
pub open spec fn questions(s: InputSelectors) -> int {
    4 + s.ev_count + s.abs_count
}

/// The question with index `i`, as the two bytes that select it: the name, the
/// serial number, the identity, the properties, then each kind of event and
/// each axis.
pub open spec fn question(s: InputSelectors, i: int) -> (u8, u8) {
    if i == 0 {
        (s.id_name, 0)
    } else if i == 1 {
        (s.id_serial, 0)
    } else if i == 2 {
        (s.id_devids, 0)
    } else if i == 3 {
        (s.prop_bits, 0)
    } else if i < 4 + s.ev_count {
        (s.ev_bits, (i - 4) as u8)
    } else {
        (s.abs_info, (i - 4 - s.ev_count) as u8)
    }
}

/// The answer to the question with index `i`: the selecting bytes, the size,
/// five bytes without meaning, and 128 bytes of content.
pub open spec fn answer(h: Seq<mmio::Answer>, i: int) -> Seq<u8> {
    config_space::bytes_of(h[2 * i + 1])
}

/// Whether `bytes` is an answer to the question with index `i`: it repeats the
/// question and has a size that fits. An identity has eight bytes, properties
/// at most four.
pub open spec fn answers(s: InputSelectors, i: int, bytes: Seq<u8>) -> bool {
    &&& bytes[0] == question(s, i).0
    &&& bytes[1] == question(s, i).1
    &&& bytes[2] <= 128
    &&& i == 2 ==> bytes[2] == 8
    &&& i == 3 ==> bytes[2] <= 4
}

/// Whether the answer to the question with index `i` is handed on as a record:
/// it is not empty, and not part of the summary.
pub open spec fn handed_on(h: Seq<mmio::Answer>, i: int) -> bool {
    i != 2 && i != 3 && answer(h, i)[2] != 0
}

/// The questions among the first `m` whose answers are handed on.
pub open spec fn records(h: Seq<mmio::Answer>, m: int) -> Seq<int>
    decreases m,
{
    if m <= 0 {
        Seq::empty()
    } else if handed_on(h, m - 1) {
        records(h, m - 1).push(m - 1)
    } else {
        records(h, m - 1)
    }
}

/// How many answers to the questions from `from` up to `to` are not empty.
pub open spec fn present(h: Seq<mmio::Answer>, from: int, to: int) -> int
    decreases to - from,
{
    if to <= from {
        0
    } else {
        present(h, from, to - 1) + if answer(h, to - 1)[2] != 0 {
            1int
        } else {
            0int
        }
    }
}

/// The summary of the device.
pub open spec fn summary(plan: InputPlan, h: Seq<mmio::Answer>) -> VirtioInputDeviceConfig {
    let ev = plan.selectors.ev_count as int;
    VirtioInputDeviceConfig {
        label: plan.label,
        device_id: (mmio::le_word(answer(h, 2), 8) + mmio::le_word(answer(h, 2), 12)
            * 0x1_0000_0000) as u64,
        prop_bits: mmio::le_word(answer(h, 3), 8),
        num_ev_types: present(h, 4, 4 + ev) as u8,
        num_abs_axes: present(h, 4 + ev, questions(plan.selectors)) as u8,
        reserved: 0,
    }
}

/// The record that hands on `bytes`.
pub open spec fn record(label: u32, bytes: Seq<u8>) -> ioctl::Arg {
    ioctl::Arg::InputData {
        label,
        sel: bytes[0],
        subsel: bytes[1],
        size: bytes[2],
        reserved: mmio::zeros(5),
        payload: bytes.subrange(8, 136),
    }
}

/// The step after the replies `h`.
///
/// Each question is written and its answer read. The driver gets the summary,
/// and then the records in the order of the questions. The backend cannot go
/// on if an answer does not fit its question or a request returns anything but
/// zero.
pub open spec fn describe_step(plan: InputPlan, h: Seq<mmio::Answer>) -> mmio::Act {
    let n = h.len() as int;
    let s = plan.selectors;
    let asked = 2 * questions(s);
    if n > 0 && mmio::refused(h.last()) {
        mmio::Act::Panic
    } else if 0 < n <= asked && n % 2 == 0 && !answers(s, n / 2 - 1, answer(h, n / 2 - 1)) {
        mmio::Act::Panic
    } else if n < asked && n % 2 == 0 {
        mmio::Act::MmioWrite {
            offset: VIRTIO_MMIO_INPUT_SEL,
            data: seq![question(s, n / 2).0, question(s, n / 2).1],
        }
    } else if n < asked {
        mmio::Act::MmioRead { offset: VIRTIO_MMIO_DEVICE_CONFIG, data: mmio::zeros(136) }
    } else if n == asked {
        mmio::request(
            VmIoctl::SetInputDeviceConfig,
            plan.version,
            ioctl::Arg::InputConfig(summary(plan, h)),
        )
    } else if n - asked - 1 < records(h, questions(s)).len() {
        mmio::request(
            VmIoctl::SetInputDeviceData,
            plan.version,
            record(plan.label, answer(h, records(h, questions(s))[n - asked - 1])),
        )
    } else {
        mmio::Act::Return(Ok(()))
    }
}

proof fn lemma_records_keep(h: Seq<mmio::Answer>, reply: mmio::Answer, m: int)
    requires
        2 * m <= h.len(),
    ensures
        records(h.push(reply), m) == records(h, m),
    decreases m,
{
    if m > 0 {
        lemma_records_keep(h, reply, m - 1);
        assert(answer(h.push(reply), m - 1) == answer(h, m - 1));
    }
}

proof fn lemma_present_keep(h: Seq<mmio::Answer>, reply: mmio::Answer, from: int, to: int)
    requires
        0 <= from,
        2 * to <= h.len(),
    ensures
        present(h.push(reply), from, to) == present(h, from, to),
    decreases to - from,
{
    if from < to {
        lemma_present_keep(h, reply, from, to - 1);
        assert(answer(h.push(reply), to - 1) == answer(h, to - 1));
    }
}

proof fn lemma_present_bounds(h: Seq<mmio::Answer>, from: int, to: int)
    ensures
        0 <= present(h, from, to),
        from <= to ==> present(h, from, to) <= to - from,
    decreases to - from,
{
    if from < to {
        lemma_present_bounds(h, from, to - 1);
    }
}

proof fn lemma_records_bounds(h: Seq<mmio::Answer>, m: int)
    requires
        m >= 0,
    ensures
        records(h, m).len() <= m,
        forall|j: int| 0 <= j < records(h, m).len() ==> 0 <= #[trigger] records(h, m)[j] < m,
    decreases m,
{
    if m > 0 {
        lemma_records_bounds(h, m - 1);
    }
}

/// The driver gets exactly the answers that are handed on: each record answers
/// a question, every such answer is among them, and they keep the order of the
/// questions.
pub proof fn lemma_records_are_complete(h: Seq<mmio::Answer>, m: int)
    requires
        m >= 0,
    ensures
        forall|j: int|
            0 <= j < records(h, m).len() ==> 0 <= #[trigger] records(h, m)[j] < m && handed_on(
                h,
                records(h, m)[j],
            ),
        forall|i: int| 0 <= i < m && handed_on(h, i) ==> records(h, m).contains(i),
        forall|j: int, k: int|
            0 <= j < k < records(h, m).len() ==> records(h, m)[j] < records(h, m)[k],
    decreases m,
{
    if m > 0 {
        lemma_records_are_complete(h, m - 1);
        let shorter = records(h, m - 1);
        assert forall|i: int| 0 <= i < m && handed_on(h, i) implies records(h, m).contains(i) by {
            if i < m - 1 {
                let j = choose|j: int| 0 <= j < shorter.len() && shorter[j] == i;
                assert(records(h, m)[j] == i);
            } else {
                assert(records(h, m).last() == i);
            }
        }
    }
}

/// The questions come in a fixed order: the name, the serial number, the
/// identity, the properties, then every kind of event and every axis by its
/// number. Each is written to the selecting bytes, and its answer is read from
/// the same place into 136 empty bytes.
pub proof fn lemma_questions_come_in_order(plan: InputPlan, h: Seq<mmio::Answer>, i: int)
    requires
        0 <= i < 4 + plan.selectors.ev_count + plan.selectors.abs_count,
        h.len() == 2 * i || h.len() == 2 * i + 1,
        !(describe_step(plan, h) is Panic),
    ensures
        ({
            let s = plan.selectors;
            let step = describe_step(plan, h);
            &&& h.len() == 2 * i ==> (step matches mmio::Act::MmioWrite { offset, data } && {
                &&& offset == 0x100
                &&& data.len() == 2
                &&& i == 0 ==> data[0] == s.id_name && data[1] == 0
                &&& i == 1 ==> data[0] == s.id_serial && data[1] == 0
                &&& i == 2 ==> data[0] == s.id_devids && data[1] == 0
                &&& i == 3 ==> data[0] == s.prop_bits && data[1] == 0
                &&& 4 <= i < 4 + s.ev_count ==> data[0] == s.ev_bits && data[1] == i - 4
                &&& 4 + s.ev_count <= i ==> data[0] == s.abs_info && data[1] == i - 4 - s.ev_count
            })
            &&& h.len() == 2 * i + 1 ==> (step matches mmio::Act::MmioRead { offset, data } && {
                &&& offset == 0x100
                &&& data.len() == 136
                &&& forall|j: int| 0 <= j < 136 ==> #[trigger] data[j] == 0
            })
        }),
{
    assert((2 * i) / 2 == i && (2 * i) % 2 == 0 && (2 * i + 1) % 2 == 1);
}

/// An answer is taken exactly if it repeats the bytes that were written for
/// its question and has a size that fits: at most 128, for the identity eight,
/// for the properties at most four.
pub proof fn lemma_answers_repeat_their_question(
    plan: InputPlan,
    h: Seq<mmio::Answer>,
    i: int,
    bytes: Seq<u8>,
)
    requires
        0 <= i < 4 + plan.selectors.ev_count + plan.selectors.abs_count,
        h.len() == 2 * i + 1,
        !(describe_step(plan, h.take(2 * i)) is Panic),
    ensures
        describe_step(plan, h.take(2 * i)) matches mmio::Act::MmioWrite { data, .. } && (
        describe_step(plan, h.push(mmio::Answer::Read(bytes))) is Panic <==> !(bytes[0] == data[0]
            && bytes[1] == data[1] && bytes[2] <= 128 && (i == 2 ==> bytes[2] == 8) && (i == 3
            ==> bytes[2] <= 4))),
{
    assert((2 * i) / 2 == i && (2 * i) % 2 == 0);
    let all = h.push(mmio::Answer::Read(bytes));
    assert(all.len() == 2 * (i + 1) && (2 * (i + 1)) / 2 == i + 1 && (2 * (i + 1)) % 2 == 0);
    assert(all[2 * i + 1] == mmio::Answer::Read(bytes));
}

/// A description begins with a question whatever happens, and where no answer
/// is due it ends the backend exactly if a request returns anything but zero.
pub proof fn lemma_refused_description_ends_the_backend(plan: InputPlan, h: Seq<mmio::Answer>)
    requires
        h.len() == 0 || h.len() % 2 == 1 || h.len() > 2 * (4 + plan.selectors.ev_count
            + plan.selectors.abs_count),
    ensures
        describe_step(plan, h) is Panic <==> h.len() > 0 && (h.last() matches mmio::Answer::Ioctl {
            ret,
            ..
        } && ret != 0),
{
}

proof fn lemma_present_counts(h: Seq<mmio::Answer>, from: int, to: int)
    requires
        from <= to,
    ensures
        present(h, from, to) == Seq::new(
            (to - from) as nat,
            |e: int| h[2 * (from + e) + 1]->Read_0[2],
        ).filter(|size: u8| size != 0).len(),
    decreases to - from,
{
    let given = |size: u8| size != 0;
    let all = Seq::new((to - from) as nat, |e: int| h[2 * (from + e) + 1]->Read_0[2]);
    reveal(Seq::filter);
    if from < to {
        lemma_present_counts(h, from, to - 1);
        let shorter = Seq::new((to - 1 - from) as nat, |e: int| h[2 * (from + e) + 1]->Read_0[2]);
        assert(all.drop_last() =~= shorter);
        assert(all.last() == answer(h, to - 1)[2]);
    }
}

/// The summary holds what the device said of itself: the eight bytes of its
/// identity and the four of its properties, the lowest first, and how many
/// kinds of events and how many axes were answered with anything at all.
pub proof fn lemma_summary_holds_what_was_answered(plan: InputPlan, h: Seq<mmio::Answer>)
    requires
        h.len() == 2 * (4 + plan.selectors.ev_count + plan.selectors.abs_count),
        !(describe_step(plan, h) is Panic),
    ensures
        describe_step(plan, h) matches mmio::Act::Ioctl {
            cmd,
            arg: ioctl::Arg::InputConfig(c),
        } && {
            let id = h[5]->Read_0;
            let props = h[7]->Read_0;
            let ev = plan.selectors.ev_count as nat;
            &&& cmd == ioctl::command(VmIoctl::SetInputDeviceConfig, plan.version)
            &&& c.label == plan.label
            &&& c.reserved == 0
            &&& c.device_id == id[8] + id[9] * 0x100 + id[10] * 0x1_0000 + id[11] * 0x100_0000
                + id[12] * 0x1_0000_0000 + id[13] * 0x100_0000_0000 + id[14] * 0x1_0000_0000_0000
                + id[15] * 0x100_0000_0000_0000
            &&& c.prop_bits == props[8] + props[9] * 0x100 + props[10] * 0x1_0000 + props[11]
                * 0x100_0000
            &&& c.num_ev_types == Seq::new(ev, |e: int| h[2 * (4 + e) + 1]->Read_0[2]).filter(
                |size: u8| size != 0,
            ).len()
            &&& c.num_abs_axes == Seq::new(
                plan.selectors.abs_count as nat,
                |e: int| h[2 * (4 + ev + e) + 1]->Read_0[2],
            ).filter(|size: u8| size != 0).len()
        },
{
    let ev = plan.selectors.ev_count as int;
    let all = questions(plan.selectors);
    lemma_present_counts(h, 4, 4 + ev);
    lemma_present_counts(h, 4 + ev, all);
    lemma_present_bounds(h, 4, 4 + ev);
    lemma_present_bounds(h, 4 + ev, all);
    assert(Seq::new(ev as nat, |e: int| h[2 * (4 + e) + 1]->Read_0[2]) =~= Seq::new(
        (4 + ev - 4) as nat,
        |e: int| h[2 * (4 + e) + 1]->Read_0[2],
    ));
    assert(Seq::new(
        plan.selectors.abs_count as nat,
        |e: int| h[2 * (4 + ev as nat + e) + 1]->Read_0[2],
    ) =~= Seq::new((all - (4 + ev)) as nat, |e: int| h[2 * (4 + ev + e) + 1]->Read_0[2]));
    assert(answer(h, 2) == h[5]->Read_0 && answer(h, 3) == h[7]->Read_0);
}

proof fn lemma_records_filter(h: Seq<mmio::Answer>, m: int)
    requires
        0 <= m,
    ensures
        records(h, m) == Seq::new(m as nat, |i: int| i).filter(
            |i: int| i != 2 && i != 3 && h[2 * i + 1]->Read_0[2] != 0,
        ),
    decreases m,
{
    reveal(Seq::filter);
    if m > 0 {
        lemma_records_filter(h, m - 1);
        let all = Seq::new(m as nat, |i: int| i);
        assert(all.drop_last() =~= Seq::new((m - 1) as nat, |i: int| i));
    }
}

/// Behind the summary the driver gets, in the order of the questions, one
/// record for every answer that is not empty, but for the identity and the
/// properties: with the label of the device, the bytes that repeat the
/// question, the size, and all 128 bytes that the device gave from offset 8
/// on. Then the description is over.
pub proof fn lemma_records_hold_what_was_answered(plan: InputPlan, h: Seq<mmio::Answer>, j: int)
    requires
        0 <= j,
        h.len() == 2 * (4 + plan.selectors.ev_count + plan.selectors.abs_count) + 1 + j,
        !(h.last() matches mmio::Answer::Ioctl { ret, .. } && ret != 0),
        forall|i: int|
            0 <= i < 4 + plan.selectors.ev_count + plan.selectors.abs_count ==> (#[trigger] h[2 * i
                + 1] matches mmio::Answer::Read(b) && b.len() == 136),
    ensures
        ({
            let kept = Seq::new(
                (4 + plan.selectors.ev_count + plan.selectors.abs_count) as nat,
                |i: int| i,
            ).filter(|i: int| i != 2 && i != 3 && h[2 * i + 1]->Read_0[2] != 0);
            let step = describe_step(plan, h);
            &&& j < kept.len() ==> (step matches mmio::Act::Ioctl {
                cmd,
                arg: ioctl::Arg::InputData { label, sel, subsel, size, reserved, payload },
            } && {
                let bytes = h[2 * kept[j] + 1]->Read_0;
                &&& cmd == ioctl::command(VmIoctl::SetInputDeviceData, plan.version)
                &&& label == plan.label
                &&& sel == bytes[0]
                &&& subsel == bytes[1]
                &&& size == bytes[2]
                &&& reserved == seq![0u8, 0u8, 0u8, 0u8, 0u8]
                &&& payload.len() == 128
                &&& forall|x: int| 0 <= x < 128 ==> #[trigger] payload[x] == bytes[8 + x]
            })
            &&& j >= kept.len() ==> step == mmio::Act::Return(Ok(()))
        }),
{
    let all = questions(plan.selectors);
    lemma_records_filter(h, all);
    lemma_records_bounds(h, all);
    assert(mmio::zeros(5) =~= seq![0u8, 0u8, 0u8, 0u8, 0u8]);
    if j < records(h, all).len() {
        let i = records(h, all)[j];
        assert(h[2 * i + 1] is Read);
        assert(answer(h, i).len() == 136);
    }
}

/// Where the description stands.
#[derive(Clone, Copy)]
enum Stage {
    Ask { query: u16 },
    Hear { query: u16 },
    SendSummary,
    SendRecord { at: usize },
    Failed,
}

/// The description of one input device.
pub struct Describe {
    label: u32,
    version: u8,
    selectors: InputSelectors,
    device_id: u64,
    prop_bits: u32,
    num_ev: u8,
    num_abs: u8,
    records: Vec<VirtioInputDeviceData>,
    stage: Stage,
    history: Ghost<Seq<mmio::Answer>>,
}

fn read_payload(data: &Vec<u8>) -> (r: [u8; 128])
    requires
        data@.len() == 136,
    ensures
        r@ == data@.subrange(8, 136),
{
    let mut payload = [0u8; 128];
    let mut i: usize = 0;
    while i < 128
        invariant
            i <= 128,
            data@.len() == 136,
            payload@.len() == 128,
            forall|j: int| 0 <= j < i ==> payload@[j] == data@[8 + j],
        decreases 128 - i,
    {
        payload[i] = data[8 + i];
        i += 1;
    }
    assert(payload@ =~= data@.subrange(8, 136));
    payload
}

fn count(s: InputSelectors) -> (r: u16)
    ensures
        r == questions(s),
{
    4 + s.ev_count as u16 + s.abs_count as u16
}

fn query_bytes(s: InputSelectors, i: u16) -> (r: (u8, u8))
    requires
        i < questions(s),
    ensures
        r == question(s, i as int),
{
    if i == 0 {
        (s.id_name, 0)
    } else if i == 1 {
        (s.id_serial, 0)
    } else if i == 2 {
        (s.id_devids, 0)
    } else if i == 3 {
        (s.prop_bits, 0)
    } else if i < 4 + s.ev_count as u16 {
        (s.ev_bits, (i - 4) as u8)
    } else {
        (s.abs_info, (i - 4 - s.ev_count as u16) as u8)
    }
}

impl Describe {
    /// What is described.
    pub closed spec fn plan(self) -> InputPlan {
        InputPlan { label: self.label, version: self.version, selectors: self.selectors }
    }

    /// The replies so far.
    pub closed spec fn history(self) -> Seq<mmio::Answer> {
        self.history@
    }

    /// The fields that hold what was heard of the first `m` questions.
    spec fn heard(self, m: int) -> bool {
        let h = self.history@;
        let ev = self.selectors.ev_count as int;
        let sent = records(h, m);
        &&& self.records@.len() == sent.len()
        &&& forall|j: int|
            0 <= j < sent.len() ==> (#[trigger] IoctlArg::InputData(self.records@[j])@) == record(
                self.label,
                answer(h, sent[j]),
            )
        &&& m > 2 ==> self.device_id == (mmio::le_word(answer(h, 2), 8) + mmio::le_word(
            answer(h, 2),
            12,
        ) * 0x1_0000_0000) as u64
        &&& m > 3 ==> self.prop_bits == mmio::le_word(answer(h, 3), 8)
        &&& self.num_ev == present(h, 4, if m < 4 + ev { m } else { 4 + ev })
        &&& self.num_abs == present(h, 4 + ev, m)
    }

    pub closed spec fn wf(self) -> bool {
        let h = self.history@;
        let s = self.selectors;
        let n = h.len() as int;
        &&& self.version == 2
        &&& !(self.stage is Failed) ==> (n > 0 ==> !mmio::refused(h.last()))
        &&& match self.stage {
            Stage::Ask { query } => {
                &&& n == 2 * query
                &&& query < questions(s)
                &&& query > 0 ==> answers(s, query - 1, answer(h, query - 1))
                &&& self.heard(query as int)
            },
            Stage::Hear { query } => {
                &&& n == 2 * query + 1
                &&& query < questions(s)
                &&& self.heard(query as int)
            },
            Stage::SendSummary => {
                &&& n == 2 * questions(s)
                &&& answers(s, questions(s) - 1, answer(h, questions(s) - 1))
                &&& self.heard(questions(s))
            },
            Stage::SendRecord { at } => {
                &&& n == 2 * questions(s) + 1 + at
                &&& at <= self.records@.len()
                &&& self.heard(questions(s))
            },
            Stage::Failed => describe_step(self.plan(), h) is Panic,
        }
    }

    /// The next step.
    pub open spec fn next(self) -> mmio::Act {
        describe_step(self.plan(), self.history())
    }

    /// The next step.
    pub fn action(&self) -> (r: Action)
        requires
            self.wf(),
        ensures
            r@ == self.next(),
    {
        let ghost h = self.history@;
        match self.stage {
            Stage::Ask { query } => {
                let (sel, subsel) = query_bytes(self.selectors, query);
                let mut data: Vec<u8> = Vec::new();
                data.push(sel);
                data.push(subsel);
                assert(data@ =~= seq![sel, subsel]);
                assert((2 * query) / 2 == query as int && (2 * query) % 2 == 0);
                Action::MmioWrite { offset: VIRTIO_MMIO_INPUT_SEL, data }
            },
            Stage::Hear { query } => {
                let data: Vec<u8> = vec![0u8; 136];
                assert(data@ =~= mmio::zeros(136));
                assert((2 * query + 1) % 2 == 1);
                Action::MmioRead { offset: VIRTIO_MMIO_DEVICE_CONFIG, data }
            },
            Stage::SendSummary => {
                proof {
                    let m = questions(self.selectors);
                    assert((2 * m) / 2 == m && (2 * m) % 2 == 0);
                }
                mmio::ask(
                    VmIoctl::SetInputDeviceConfig,
                    self.version,
                    IoctlArg::InputConfig(
                        VirtioInputDeviceConfig {
                            label: self.label,
                            device_id: self.device_id,
                            prop_bits: self.prop_bits,
                            num_ev_types: self.num_ev,
                            num_abs_axes: self.num_abs,
                            reserved: 0,
                        },
                    ),
                )
            },
            Stage::SendRecord { at } => {
                if at < self.records.len() {
                    let arg = IoctlArg::InputData(self.records[at]);
                    assert(arg@ == IoctlArg::InputData(self.records@[at as int])@);
                    mmio::ask(VmIoctl::SetInputDeviceData, self.version, arg)
                } else {
                    Action::Return(Ok(()))
                }
            },
            Stage::Failed => Action::Panic,
        }
    }

    /// Takes the answer to the question with index `query`.
    fn hear(&mut self, query: u16, data: Vec<u8>)
        requires
            old(self).wf(),
            old(self).stage == (Stage::Hear { query }),
            data@.len() == 136,
        ensures
            final(self).wf(),
            final(self).plan() == old(self).plan(),
            final(self).history() == old(self).history().push(mmio::Answer::Read(data@)),
    {
        let ghost h = self.history@;
        let ghost after = h.push(mmio::Answer::Read(data@));
        let ghost s = self.selectors;
        let ghost ev = s.ev_count as int;
        let ghost q = query as int;
        let (sel, subsel) = query_bytes(self.selectors, query);
        proof {
            assert(after.last() == mmio::Answer::Read(data@));
            assert(answer(after, q) == data@);
            assert((2 * q + 2) / 2 - 1 == q && (2 * q + 2) % 2 == 0);
            lemma_records_keep(h, mmio::Answer::Read(data@), q);
            lemma_records_bounds(h, q);
            let top = if q < 4 + ev { q } else { 4 + ev };
            lemma_present_keep(h, mmio::Answer::Read(data@), 4, top);
            lemma_present_keep(h, mmio::Answer::Read(data@), 4 + ev, q);
            lemma_present_bounds(after, 4, top + 1);
            lemma_present_bounds(after, 4 + ev, q + 1);
            if q > 2 {
                assert(answer(after, 2) == answer(h, 2));
            }
            if q > 3 {
                assert(answer(after, 3) == answer(h, 3));
            }
            assert forall|j: int| 0 <= j < records(h, q).len() implies answer(
                after,
                #[trigger] records(h, q)[j],
            ) == answer(h, records(h, q)[j]) by {}
        }
        self.history = Ghost(after);
        let size: u8 = data[2];
        if data[0] != sel || data[1] != subsel || size > 128 || (query == 2 && size != 8) || (query
            == 3 && size > 4) {
            self.stage = Stage::Failed;
            return ;
        }
        if query == 2 {
            let low: u32 = mmio::from_le_bytes(&data, 8);
            let high: u32 = mmio::from_le_bytes(&data, 12);
            self.device_id = low as u64 + high as u64 * 0x1_0000_0000;
        } else if query == 3 {
            self.prop_bits = mmio::from_le_bytes(&data, 8);
        } else if size != 0 {
            let record = VirtioInputDeviceData {
                label: self.label,
                sel: data[0],
                subsel: data[1],
                size,
                reserved: [0u8; 5],
                payload: read_payload(&data),
            };
            assert(record.reserved@ =~= mmio::zeros(5));
            self.records.push(record);
            if query >= 4 {
                if query < 4 + self.selectors.ev_count as u16 {
                    self.num_ev = self.num_ev + 1;
                } else {
                    self.num_abs = self.num_abs + 1;
                }
            }
        }
        proof {
            assert forall|j: int| 0 <= j < records(after, q + 1).len() implies (
            #[trigger] IoctlArg::InputData(self.records@[j])@) == record(
                self.label,
                answer(after, records(after, q + 1)[j]),
            ) by {
                if j < records(h, q).len() {
                    assert(IoctlArg::InputData(old(self).records@[j])@ == record(
                        self.label,
                        answer(h, records(h, q)[j]),
                    ));
                }
            }
        }
        if query + 1 < count(self.selectors) {
            self.stage = Stage::Ask { query: query + 1 };
        } else {
            self.stage = Stage::SendSummary;
        }
    }

    /// Takes the reply to the step that `action` gave.
    pub fn advance(&mut self, reply: Reply)
        requires
            old(self).wf(),
            mmio::fits(old(self).next(), reply@),
        ensures
            final(self).wf(),
            final(self).plan() == old(self).plan(),
            final(self).history() == old(self).history().push(reply@),
    {
        let ghost h = self.history@;
        let ghost answered = reply@;
        let ghost after = h.push(answered);
        proof {
            let m = questions(self.selectors);
            assert(after.last() == answered);
            assert((2 * m) / 2 == m && (2 * m) % 2 == 0);
            if let Stage::Ask { query } = self.stage {
                assert((2 * query) / 2 == query as int && (2 * query) % 2 == 0);
                assert((2 * query + 1) % 2 == 1);
            }
            if let Stage::Hear { query } = self.stage {
                assert((2 * query + 1) % 2 == 1);
            }
            let seen = match self.stage {
                Stage::Ask { query } => query as int,
                Stage::Hear { query } => query as int,
                _ => m,
            };
            if !(self.stage is Failed) {
                let ev = self.selectors.ev_count as int;
                lemma_records_keep(h, answered, seen);
                lemma_records_bounds(h, seen);
                lemma_present_keep(h, answered, 4, if seen < 4 + ev { seen } else { 4 + ev });
                lemma_present_keep(h, answered, 4 + ev, seen);
                if seen > 2 {
                    assert(answer(after, 2) == answer(h, 2));
                }
                if seen > 3 {
                    assert(answer(after, 3) == answer(h, 3));
                }
            }
        }
        match reply {
            Reply::Written => {
                self.history = Ghost(after);
                if let Stage::Ask { query } = self.stage {
                    self.stage = Stage::Hear { query };
                }
            },
            Reply::Read(data) => {
                if let Stage::Hear { query } = self.stage {
                    self.hear(query, data);
                }
            },
            Reply::Ioctl { ret, .. } => {
                self.history = Ghost(after);
                if ret != 0 {
                    self.stage = Stage::Failed;
                } else if let Stage::SendRecord { at } = self.stage {
                    self.stage = Stage::SendRecord { at: at + 1 };
                } else {
                    self.stage = Stage::SendRecord { at: 0 };
                }
            },
        }
    }
}

/// Starts to describe the input device with this label.
pub fn init_input_config(label: u32, selectors: InputSelectors, driver_variant: u8) -> (r: Describe)
    requires
        driver_variant == 2,
    ensures
        r.wf(),
        r.plan() == (InputPlan { label, version: driver_variant, selectors }),
        r.history() == Seq::<mmio::Answer>::empty(),
{
    Describe {
        label,
        version: driver_variant,
        selectors,
        device_id: 0,
        prop_bits: 0,
        num_ev: 0,
        num_abs: 0,
        records: Vec::new(),
        stage: Stage::Ask { query: 0 },
        history: Ghost(Seq::empty()),
    }
}

} // verus!
