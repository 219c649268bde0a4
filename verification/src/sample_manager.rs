//! The sample managers of the delay effect.
//!
//! A sample manager records the incoming samples and plays them back in the
//! delay windows of its window pattern. It first fills a pre-delay of
//! `PREDELAY_BUFFER_SIZE` samples, then records until its buffer holds
//! `sample_buffer_size - num_predelay_samples` samples. In every window
//! sample it plays the recorded sample at its read position, counting the
//! windows it has entered; in intervals it plays silence. At the end of its
//! pattern it starts over. Samples are carried as the bits of their `f32`
//! value (`f32::to_bits`); silence is `0`, the bits of `0.0`.
use vstd::prelude::*;
use std::collections::HashMap;
use crate::text::{decimal_digits, decimal_string};

verus! {

/// The number of samples of the pre-delay.
pub const PREDELAY_BUFFER_SIZE: usize = 20;

/// The sample manager ids from which no more sample managers are added.
pub const MAX_NUM_ACTIVE_SAMPLE_MANAGERS: usize = 4;

/// A sample manager of a delay.
pub struct SampleManager {
    id: usize,
    sample_buffer_size: usize,
    sample_buffer: Vec<u32>,
    delay_windows: Vec<bool>,
    num_delay_windows: usize,
    num_predelay_samples: usize,
    sample_buffer_read_index: usize,
    sample_buffer_write_index: usize,
    init_buffer_index: usize,
    cur_delay_window: usize,
    delay_windows_index: usize,
    is_full: bool,
    is_active: bool,
    is_pre_delay: bool,
    is_in_delay_window: bool,
    is_in_interval: bool,
    has_spawned: bool,
}

pub struct SampleManagerModel {
    pub id: usize,
    pub sample_buffer_size: usize,
    pub sample_buffer: Seq<u32>,
    pub delay_windows: Seq<bool>,
    pub num_delay_windows: usize,
    pub num_predelay_samples: usize,
    pub sample_buffer_read_index: usize,
    pub sample_buffer_write_index: usize,
    pub init_buffer_index: usize,
    pub cur_delay_window: usize,
    pub delay_windows_index: usize,
    pub is_full: bool,
    pub is_active: bool,
    pub is_pre_delay: bool,
    pub is_in_delay_window: bool,
    pub is_in_interval: bool,
    pub has_spawned: bool,
}

impl View for SampleManager {
    type V = SampleManagerModel;

    closed spec fn view(&self) -> SampleManagerModel {
        SampleManagerModel {
            id: self.id,
            sample_buffer_size: self.sample_buffer_size,
            sample_buffer: self.sample_buffer@,
            delay_windows: self.delay_windows@,
            num_delay_windows: self.num_delay_windows,
            num_predelay_samples: self.num_predelay_samples,
            sample_buffer_read_index: self.sample_buffer_read_index,
            sample_buffer_write_index: self.sample_buffer_write_index,
            init_buffer_index: self.init_buffer_index,
            cur_delay_window: self.cur_delay_window,
            delay_windows_index: self.delay_windows_index,
            is_full: self.is_full,
            is_active: self.is_active,
            is_pre_delay: self.is_pre_delay,
            is_in_delay_window: self.is_in_delay_window,
            is_in_interval: self.is_in_interval,
            has_spawned: self.has_spawned,
        }
    }
}

/// A new sample manager: active, in its pre-delay, with an empty buffer.
pub open spec fn fresh_manager(
    id: usize,
    sample_buffer_size: usize,
    delay_windows: Seq<bool>,
    num_delay_windows: usize,
    num_predelay_samples: usize,
    sample_buffer_read_index: usize,
    sample_buffer_write_index: usize,
    init_buffer_index: usize,
    cur_delay_window: usize,
    delay_windows_index: usize,
) -> SampleManagerModel {
    SampleManagerModel {
        id,
        sample_buffer_size,
        sample_buffer: Seq::empty(),
        delay_windows,
        num_delay_windows,
        num_predelay_samples,
        sample_buffer_read_index,
        sample_buffer_write_index,
        init_buffer_index,
        cur_delay_window,
        delay_windows_index,
        is_full: false,
        is_active: true,
        is_pre_delay: true,
        is_in_delay_window: true,
        is_in_interval: false,
        has_spawned: false,
    }
}

/// The manager started over: positions and counters at zero, the buffer
/// empty, back in the pre-delay. Its configuration and whether it has
/// spawned stay.
pub open spec fn reset_manager(m: SampleManagerModel) -> SampleManagerModel {
    SampleManagerModel {
        sample_buffer: Seq::empty(),
        sample_buffer_read_index: 0,
        sample_buffer_write_index: 0,
        init_buffer_index: 0,
        cur_delay_window: 0,
        delay_windows_index: 0,
        is_full: false,
        is_active: true,
        is_pre_delay: true,
        is_in_delay_window: true,
        is_in_interval: false,
        ..m
    }
}

/// The length of the recording that the manager plays back.
pub open spec fn record_len(m: SampleManagerModel) -> int {
    m.sample_buffer_size - m.num_predelay_samples
}

/// The pattern position at which the manager starts over.
pub open spec fn pattern_end(m: SampleManagerModel) -> int {
    m.delay_windows.len() - m.num_predelay_samples
}

/// When taking a sample does not fail: after the pre-delay, the recording
/// length must not be negative while the buffer fills, the pattern position
/// must lie in the pattern, and a window sample needs a non-empty buffer
/// size to read from.
pub open spec fn can_take_sample(m: SampleManagerModel) -> bool {
    !m.is_pre_delay ==> {
        &&& !m.is_full ==> m.num_predelay_samples <= m.sample_buffer_size
        &&& m.delay_windows_index < m.delay_windows.len()
        &&& m.delay_windows[m.delay_windows_index as int] ==> m.sample_buffer_size > 0
        &&& m.num_predelay_samples <= m.delay_windows.len()
    }
}

/// The manager after recording a sample past the pre-delay: while the
/// buffer is not full the sample is appended, and the buffer is full once
/// the recording length is reached.
pub open spec fn record_step(m: SampleManagerModel, sample: u32) -> SampleManagerModel {
    if !m.is_full {
        let w = m.sample_buffer_write_index.wrapping_add(1);
        SampleManagerModel {
            sample_buffer: m.sample_buffer.push(sample),
            sample_buffer_write_index: w,
            is_full: w == record_len(m),
            ..m
        }
    } else {
        m
    }
}

/// The sample a manager plays at its read position: the recorded sample at
/// the read position modulo the buffer size, or silence where nothing is
/// recorded there.
pub open spec fn recorded_sample(m: SampleManagerModel) -> u32 {
    let k = m.sample_buffer_read_index % m.sample_buffer_size;
    if k < m.sample_buffer.len() {
        m.sample_buffer[k as int]
    } else {
        0
    }
}

/// Taking one sample: the new manager and the sample it plays.
///
/// In the pre-delay the sample is recorded and silence played; the pre-delay
/// ends when `PREDELAY_BUFFER_SIZE` samples are written. After it, the
/// sample is recorded (see `record_step`); in a window the recorded sample
/// is played (see `recorded_sample`), the window count goes up when the read
/// position is 0 and the read position moves on; in an interval silence is
/// played. Then the pattern position moves on, and at the end of the
/// pattern the manager starts over.
pub open spec fn next_sample_step(m: SampleManagerModel, sample: u32) -> (SampleManagerModel, u32) {
    if m.is_pre_delay {
        let w = m.sample_buffer_write_index.wrapping_add(1);
        (
            SampleManagerModel {
                sample_buffer: m.sample_buffer.push(sample),
                sample_buffer_write_index: w,
                is_pre_delay: w != PREDELAY_BUFFER_SIZE,
                ..m
            },
            0,
        )
    } else {
        let m1 = record_step(m, sample);
        let in_window = m1.delay_windows[m1.delay_windows_index as int];
        let out = if in_window {
            recorded_sample(m1)
        } else {
            0
        };
        let m2 = if in_window {
            SampleManagerModel {
                cur_delay_window: if m1.sample_buffer_read_index == 0 {
                    m1.cur_delay_window.wrapping_add(1)
                } else {
                    m1.cur_delay_window
                },
                sample_buffer_read_index: m1.sample_buffer_read_index.wrapping_add(1),
                ..m1
            }
        } else {
            m1
        };
        let idx = m2.delay_windows_index.wrapping_add(1);
        let m3 = SampleManagerModel { delay_windows_index: idx, ..m2 };
        if idx == pattern_end(m3) {
            (reset_manager(m3), out)
        } else {
            (m3, out)
        }
    }
}

/// `true` or `false`.
pub open spec fn bool_text(b: bool) -> Seq<char> {
    if b {
        "true"@
    } else {
        "false"@
    }
}

/// A field as `name: value`.
pub open spec fn field_text(name: Seq<char>, value: Seq<char>) -> Seq<char> {
    name + ": "@ + value
}

pub open spec fn rule_line() -> Seq<char> {
    "--------------------------------"@
}

/// The lines that describe an active manager: a rule, each field as
/// `name: value`, and a rule. An inactive manager gives none.
pub open spec fn dump_lines(m: SampleManagerModel) -> Seq<Seq<char>> {
    if m.is_active {
        seq![
        rule_line(),
        field_text("id"@, decimal_digits(m.id as nat)),
        field_text("sample_buffer_size"@, decimal_digits(m.sample_buffer_size as nat)),
        field_text("sample_buffer_read_index"@, decimal_digits(m.sample_buffer_read_index as nat)),
        field_text("sample_buffer_write_index"@, decimal_digits(m.sample_buffer_write_index as nat)),
        field_text("num_delay_windows"@, decimal_digits(m.num_delay_windows as nat)),
        field_text("num_predelay_samples"@, decimal_digits(m.num_predelay_samples as nat)),
        field_text("init_buffer_index"@, decimal_digits(m.init_buffer_index as nat)),
        field_text("cur_delay_window"@, decimal_digits(m.cur_delay_window as nat)),
        field_text("delay_windows_index"@, decimal_digits(m.delay_windows_index as nat)),
        field_text("is_full"@, bool_text(m.is_full)),
        field_text("is_active"@, bool_text(m.is_active)),
        field_text("is_pre_delay"@, bool_text(m.is_pre_delay)),
        field_text("is_in_delay_window"@, bool_text(m.is_in_delay_window)),
        field_text("is_in_interval"@, bool_text(m.is_in_interval)),
        field_text("has_spawned"@, bool_text(m.has_spawned)),
        rule_line(),
    ]
    } else {
        Seq::empty()
    }
}

fn bool_string(b: bool) -> (r: String)
    ensures
        r@ == bool_text(b),
{
    if b {
        "true".to_owned()
    } else {
        "false".to_owned()
    }
}

fn field_line(name: &str, value: String) -> (r: String)
    ensures
        r@ == field_text(name@, value@),
{
    let mut line = name.to_owned();
    line.append(": ");
    line.append(value.as_str());
    line
}

impl SampleManager {
    /// A new manager (see `fresh_manager`).
    pub fn new(
        id: usize,
        sample_buffer_size: usize,
        delay_windows: Vec<bool>,
        num_delay_windows: usize,
        num_predelay_samples: usize,
        sample_buffer_read_index: usize,
        sample_buffer_write_index: usize,
        init_buffer_index: usize,
        cur_delay_window: usize,
        delay_windows_index: usize,
    ) -> (r: Self)
        ensures
            r@ == fresh_manager(
                id,
                sample_buffer_size,
                delay_windows@,
                num_delay_windows,
                num_predelay_samples,
                sample_buffer_read_index,
                sample_buffer_write_index,
                init_buffer_index,
                cur_delay_window,
                delay_windows_index,
            ),
    {
        SampleManager {
            id,
            sample_buffer_size,
            sample_buffer: Vec::with_capacity(sample_buffer_size),
            delay_windows,
            num_delay_windows,
            num_predelay_samples,
            sample_buffer_read_index,
            sample_buffer_write_index,
            init_buffer_index,
            cur_delay_window,
            delay_windows_index,
            is_full: false,
            is_active: true,
            is_pre_delay: true,
            is_in_delay_window: true,
            is_in_interval: false,
            has_spawned: false,
        }
    }

    /// Takes one sample and gives the sample to play (see
    /// `next_sample_step`).
    pub fn next_sample(&mut self, sample: u32) -> (r: u32)
        requires
            can_take_sample(old(self)@),
        ensures
            (final(self)@, r) == next_sample_step(old(self)@, sample),
    {
        if self.is_pre_delay {
            self.sample_buffer.push(sample);
            self.sample_buffer_write_index = self.sample_buffer_write_index.wrapping_add(1);
            if self.sample_buffer_write_index == PREDELAY_BUFFER_SIZE {
                self.is_pre_delay = false;
            }
            return 0;
        }
        if !self.is_full {
            self.sample_buffer.push(sample);
            self.sample_buffer_write_index = self.sample_buffer_write_index.wrapping_add(1);
            if self.sample_buffer_write_index == self.sample_buffer_size
                - self.num_predelay_samples {
                self.is_full = true;
            }
        }
        let mut delay_sample: u32 = 0;
        if self.delay_windows[self.delay_windows_index] {
            let k = self.sample_buffer_read_index % self.sample_buffer_size;
            if k < self.sample_buffer.len() {
                delay_sample = self.sample_buffer[k];
            }
            if self.sample_buffer_read_index == 0 {
                self.cur_delay_window = self.cur_delay_window.wrapping_add(1);
            }
            self.sample_buffer_read_index = self.sample_buffer_read_index.wrapping_add(1);
        }
        self.delay_windows_index = self.delay_windows_index.wrapping_add(1);
        if self.delay_windows_index == self.delay_windows.len() - self.num_predelay_samples {
            self.reset();
        }
        delay_sample
    }

    /// The lines that describe the manager (see `dump_lines`).
    pub fn dump_print_lines(&self) -> (r: Vec<String>)
        ensures
            r@.map_values(|l: String| l@) == dump_lines(self@),
    {
        let mut lines: Vec<String> = Vec::new();
        if self.is_active {
            lines.push("--------------------------------".to_owned());
            lines.push(field_line("id", decimal_string(self.id as u64)));
            lines.push(field_line("sample_buffer_size", decimal_string(self.sample_buffer_size as u64)));
            lines.push(field_line("sample_buffer_read_index", decimal_string(self.sample_buffer_read_index as u64)));
            lines.push(field_line("sample_buffer_write_index", decimal_string(self.sample_buffer_write_index as u64)));
            lines.push(field_line("num_delay_windows", decimal_string(self.num_delay_windows as u64)));
            lines.push(field_line("num_predelay_samples", decimal_string(self.num_predelay_samples as u64)));
            lines.push(field_line("init_buffer_index", decimal_string(self.init_buffer_index as u64)));
            lines.push(field_line("cur_delay_window", decimal_string(self.cur_delay_window as u64)));
            lines.push(field_line("delay_windows_index", decimal_string(self.delay_windows_index as u64)));
            lines.push(field_line("is_full", bool_string(self.is_full)));
            lines.push(field_line("is_active", bool_string(self.is_active)));
            lines.push(field_line("is_pre_delay", bool_string(self.is_pre_delay)));
            lines.push(field_line("is_in_delay_window", bool_string(self.is_in_delay_window)));
            lines.push(field_line("is_in_interval", bool_string(self.is_in_interval)));
            lines.push(field_line("has_spawned", bool_string(self.has_spawned)));
            lines.push("--------------------------------".to_owned());
        }
        assert(lines@.map_values(|l: String| l@) =~= dump_lines(self@));
        lines
    }

    /// Whether `next_sample` may be called (see `can_take_sample`).
    pub fn can_take_sample(&self) -> (r: bool)
        ensures
            r == can_take_sample(self@),
    {
        if self.is_pre_delay {
            return true;
        }
        if !self.is_full && self.num_predelay_samples > self.sample_buffer_size {
            return false;
        }
        if self.delay_windows_index >= self.delay_windows.len() {
            return false;
        }
        if self.delay_windows[self.delay_windows_index] && self.sample_buffer_size == 0 {
            return false;
        }
        self.num_predelay_samples <= self.delay_windows.len()
    }

    /// Starts over (see `reset_manager`).
    pub fn reset(&mut self)
        ensures
            final(self)@ == reset_manager(old(self)@),
    {
        self.sample_buffer_read_index = 0;
        self.sample_buffer_write_index = 0;
        self.init_buffer_index = 0;
        self.cur_delay_window = 0;
        self.delay_windows_index = 0;
        self.is_full = false;
        self.is_active = true;
        self.is_pre_delay = true;
        self.is_in_delay_window = true;
        self.is_in_interval = false;
        self.sample_buffer.clear();
    }
}

/// The active sample managers of all delays, by delay id, and the counter
/// that hands out sample manager ids.
pub struct SampleManagerRegistry {
    managers: HashMap<usize, Vec<SampleManager>>,
    id_counter: usize,
}

pub struct RegistryModel {
    pub managers: Map<usize, Seq<SampleManagerModel>>,
    pub id_counter: usize,
}

pub open spec fn managers_view(v: Seq<SampleManager>) -> Seq<SampleManagerModel> {
    v.map_values(|m: SampleManager| m@)
}

impl View for SampleManagerRegistry {
    type V = RegistryModel;

    closed spec fn view(&self) -> RegistryModel {
        RegistryModel {
            managers: self.managers@.map_values(|v: Vec<SampleManager>| managers_view(v@)),
            id_counter: self.id_counter,
        }
    }
}

/// The managers of a delay: none where it has no entry.
pub open spec fn managers_of(r: RegistryModel, id: usize) -> Seq<SampleManagerModel> {
    if r.managers.contains_key(id) {
        r.managers[id]
    } else {
        Seq::empty()
    }
}

/// The registry after adding a manager to a delay: the manager joins the
/// delay's list unless the id counter has reached
/// `MAX_NUM_ACTIVE_SAMPLE_MANAGERS`.
pub open spec fn registry_add(r: RegistryModel, id: usize, m: SampleManagerModel) -> RegistryModel {
    if r.id_counter >= MAX_NUM_ACTIVE_SAMPLE_MANAGERS {
        r
    } else {
        RegistryModel { managers: r.managers.insert(id, managers_of(r, id).push(m)), ..r }
    }
}

/// One manager taking a sample in a delay step: the new manager, what it
/// plays with the window count it has then, and whether it spawns a new
/// manager (once, when it first finds its buffer full).
pub open spec fn manager_step(m: SampleManagerModel, sample: u32) -> (
    SampleManagerModel,
    (u32, usize),
    bool,
) {
    let (m1, out) = next_sample_step(m, sample);
    let spawn = !m1.has_spawned && m1.is_full;
    (
        if spawn {
            SampleManagerModel { has_spawned: true, ..m1 }
        } else {
            m1
        },
        (out, m1.cur_delay_window),
        spawn,
    )
}

pub open spec fn stepped_managers(ms: Seq<SampleManagerModel>, sample: u32) -> Seq<SampleManagerModel> {
    ms.map_values(|m: SampleManagerModel| manager_step(m, sample).0)
}

pub open spec fn step_outputs(ms: Seq<SampleManagerModel>, sample: u32) -> Seq<(u32, usize)> {
    ms.map_values(|m: SampleManagerModel| manager_step(m, sample).1)
}

pub open spec fn step_spawns(ms: Seq<SampleManagerModel>, sample: u32) -> bool {
    exists|i: int| 0 <= i < ms.len() && #[trigger] manager_step(ms[i], sample).2
}

/// The registry after a delay step (see `delay_step`).
pub open spec fn delay_step_result(
    r: RegistryModel,
    id: usize,
    sample: u32,
    duration_num_samples: usize,
    delay_windows: Seq<bool>,
    num_repeats: usize,
    num_predelay_samples: usize,
) -> RegistryModel {
    let ms = managers_of(r, id);
    let stepped = if r.managers.contains_key(id) {
        RegistryModel { managers: r.managers.insert(id, stepped_managers(ms, sample)), ..r }
    } else {
        r
    };
    if step_spawns(ms, sample) {
        registry_add(
            RegistryModel { id_counter: (r.id_counter + 1) as usize, ..stepped },
            id,
            fresh_manager(
                r.id_counter,
                duration_num_samples,
                delay_windows,
                num_repeats,
                num_predelay_samples,
                0,
                0,
                0,
                0,
                0,
            ),
        )
    } else {
        stepped
    }
}

impl SampleManagerRegistry {
    /// An empty registry whose counter starts at 0.
    pub fn new() -> (r: Self)
        ensures
            r@.managers == Map::<usize, Seq<SampleManagerModel>>::empty(),
            r@.id_counter == 0,
    {
        let r = SampleManagerRegistry { managers: HashMap::new(), id_counter: 0 };
        assert(r@.managers =~= Map::<usize, Seq<SampleManagerModel>>::empty());
        r
    }

    /// The number of managers a delay has.
    pub fn num_managers(&self, id: usize) -> (r: usize)
        ensures
            r == managers_of(self@, id).len(),
    {
        broadcast use vstd::std_specs::hash::group_hash_axioms;

        match self.managers.get(&id) {
            Some(v) => v.len(),
            None => 0,
        }
    }

    /// Whether a delay step may be taken for a delay: each of its managers
    /// can take a sample and the id counter is below its limit.
    pub fn can_step(&self, id: usize) -> (r: bool)
        ensures
            r == ((forall|i: int|
                0 <= i < managers_of(self@, id).len() ==> can_take_sample(
                    #[trigger] managers_of(self@, id)[i],
                )) && self@.id_counter < usize::MAX),
    {
        broadcast use vstd::std_specs::hash::group_hash_axioms;

        if self.id_counter == usize::MAX {
            return false;
        }
        match self.managers.get(&id) {
            None => {
                assert(managers_of(self@, id) =~= Seq::<SampleManagerModel>::empty());
                true
            },
            Some(list) => {
                assert(managers_of(self@, id) == managers_view(list@));
                let n = list.len();
                for i in 0..n
                    invariant
                        n == list.len(),
                        managers_of(self@, id) == managers_view(list@),
                        forall|j: int| 0 <= j < i ==> can_take_sample(#[trigger] managers_of(self@, id)[j]),
                {
                    assert(managers_of(self@, id)[i as int] == list@[i as int]@);
                    if !list[i].can_take_sample() {
                        return false;
                    }
                }
                true
            },
        }
    }

    /// The id the counter hands out next.
    pub fn id_counter(&self) -> (r: usize)
        ensures
            r == self@.id_counter,
    {
        self.id_counter
    }

    /// Hands out the next sample manager id: the counter, which then goes
    /// up by one.
    pub fn next_sample_manager_id(&mut self) -> (r: usize)
        requires
            old(self)@.id_counter < usize::MAX,
        ensures
            r == old(self)@.id_counter,
            final(self)@ == (RegistryModel { id_counter: (r + 1) as usize, ..old(self)@ }),
    {
        let id = self.id_counter;
        self.id_counter = id + 1;
        id
    }

    fn take_managers(&mut self, id: usize) -> (r: Vec<SampleManager>)
        ensures
            managers_view(r@) == managers_of(old(self)@, id),
            final(self)@ == (RegistryModel {
                managers: old(self)@.managers.remove(id),
                ..old(self)@
            }),
    {
        broadcast use vstd::std_specs::hash::group_hash_axioms;

        let ghost before = self.managers@;
        let r = match self.managers.remove(&id) {
            Some(v) => v,
            None => Vec::new(),
        };
        assert(self@.managers =~= old(self)@.managers.remove(id));
        assert(managers_view(r@) =~= managers_of(old(self)@, id));
        r
    }

    fn put_managers(&mut self, id: usize, list: Vec<SampleManager>)
        ensures
            final(self)@ == (RegistryModel {
                managers: old(self)@.managers.insert(id, managers_view(list@)),
                ..old(self)@
            }),
    {
        broadcast use vstd::std_specs::hash::group_hash_axioms;

        let ghost l = list@;
        self.managers.insert(id, list);
        assert(self@.managers =~= old(self)@.managers.insert(id, managers_view(l)));
    }

    /// Adds a new manager (see `fresh_manager`) to a delay, unless the id
    /// counter has reached `MAX_NUM_ACTIVE_SAMPLE_MANAGERS`.
    pub fn add_sample_manager(
        &mut self,
        id: usize,
        sm_id: usize,
        sample_buffer_size: usize,
        delay_windows: Vec<bool>,
        num_delay_windows: usize,
        num_predelay_samples: usize,
        sample_buffer_read_index: usize,
        sample_buffer_write_index: usize,
        init_buffer_index: usize,
        cur_delay_window: usize,
        delay_windows_index: usize,
    )
        ensures
            final(self)@ == registry_add(
                old(self)@,
                id,
                fresh_manager(
                    sm_id,
                    sample_buffer_size,
                    delay_windows@,
                    num_delay_windows,
                    num_predelay_samples,
                    sample_buffer_read_index,
                    sample_buffer_write_index,
                    init_buffer_index,
                    cur_delay_window,
                    delay_windows_index,
                ),
            ),
    {
        if self.id_counter >= MAX_NUM_ACTIVE_SAMPLE_MANAGERS {
            return ;
        }
        let mut list = self.take_managers(id);
        let manager = SampleManager::new(
            sm_id,
            sample_buffer_size,
            delay_windows,
            num_delay_windows,
            num_predelay_samples,
            sample_buffer_read_index,
            sample_buffer_write_index,
            init_buffer_index,
            cur_delay_window,
            delay_windows_index,
        );
        let ghost l = managers_view(list@);
        let ghost mm = manager@;
        list.push(manager);
        assert(managers_view(list@) =~= l.push(mm));
        self.put_managers(id, list);
        assert(self@.managers =~= old(self)@.managers.insert(id, l.push(mm)));
    }
    /// One sample through the managers of a delay, in order: each takes the
    /// sample (see `manager_step`); the result lists what each plays with
    /// its window count. If one spawns, a new manager is added to the delay
    /// with the next id, the delay's window pattern and sizes, and its
    /// positions at zero (see `add_sample_manager`).
    pub fn delay_step(
        &mut self,
        id: usize,
        sample: u32,
        duration_num_samples: usize,
        delay_windows: &Vec<bool>,
        num_repeats: usize,
        num_predelay_samples: usize,
    ) -> (r: Vec<(u32, usize)>)
        requires
            forall|i: int|
                0 <= i < managers_of(old(self)@, id).len() ==> can_take_sample(
                    #[trigger] managers_of(old(self)@, id)[i],
                ),
            old(self)@.id_counter < usize::MAX,
        ensures
            r@ == step_outputs(managers_of(old(self)@, id), sample),
            final(self)@ == delay_step_result(
                old(self)@,
                id,
                sample,
                duration_num_samples,
                delay_windows@,
                num_repeats,
                num_predelay_samples,
            ),
    {
        broadcast use vstd::std_specs::hash::group_hash_axioms;

        let ghost ms = managers_of(old(self)@, id);
        let present = self.managers.contains_key(&id);
        assert(present == old(self)@.managers.contains_key(id));
        let mut list = self.take_managers(id);
        let mut outputs: Vec<(u32, usize)> = Vec::new();
        let mut push = false;
        let n = list.len();
        for i in 0..n
            invariant
                n == list.len(),
                n == ms.len(),
                forall|j: int| 0 <= j < n ==> can_take_sample(#[trigger] ms[j]),
                forall|j: int| 0 <= j < i ==> #[trigger] list@[j]@ == manager_step(ms[j], sample).0,
                forall|j: int| i <= j < n ==> #[trigger] list@[j]@ == ms[j],
                outputs@ == step_outputs(ms.take(i as int), sample),
                push == exists|j: int| 0 <= j < i && #[trigger] manager_step(ms[j], sample).2,
        {
            let ghost before = list@;
            let m = &mut list[i];
            let out = m.next_sample(sample);
            let window = m.cur_delay_window;
            let spawn = !m.has_spawned && m.is_full;
            assert(spawn == manager_step(ms[i as int], sample).2);
            if spawn {
                m.has_spawned = true;
                push = true;
            }
            outputs.push((out, window));
            assert(push == exists|j: int| 0 <= j < i + 1 && #[trigger] manager_step(ms[j], sample).2)
                by {
                if spawn {
                    assert(manager_step(ms[i as int], sample).2);
                }
            }
            assert(list@ =~= before.update(i as int, list@[i as int]));
            assert(step_outputs(ms.take(i + 1), sample) =~= step_outputs(ms.take(i as int), sample).push(
                manager_step(ms[i as int], sample).1,
            ));
        }
        assert(ms.take(n as int) =~= ms);
        let ghost l = list@;
        assert(managers_view(l) =~= stepped_managers(ms, sample));
        if present {
            self.put_managers(id, list);
        }
        assert(self@ == (if old(self)@.managers.contains_key(id) {
            RegistryModel {
                managers: old(self)@.managers.insert(id, stepped_managers(ms, sample)),
                ..old(self)@
            }
        } else {
            old(self)@
        })) by {
            if !old(self)@.managers.contains_key(id) {
                assert(old(self)@.managers.remove(id) =~= old(self)@.managers);
            } else {
                assert(old(self)@.managers.remove(id).insert(id, stepped_managers(ms, sample))
                    =~= old(self)@.managers.insert(id, stepped_managers(ms, sample)));
            }
        }
        if push {
            let sm_id = self.next_sample_manager_id();
            self.add_sample_manager(
                id,
                sm_id,
                duration_num_samples,
                delay_windows.clone(),
                num_repeats,
                num_predelay_samples,
                0,
                0,
                0,
                0,
                0,
            );
        }
        outputs
    }
}

/// A manager whose recording is longer than the pre-delay and whose window
/// pattern is longer than its pre-delay samples, in a state it can reach:
/// its buffer holds exactly the samples written; in the pre-delay fewer
/// than `PREDELAY_BUFFER_SIZE`; while filling, fewer than the recording
/// length; once full, exactly the recording length; and its pattern
/// position lies before the end of the pattern.
pub open spec fn manager_valid(m: SampleManagerModel) -> bool {
    &&& PREDELAY_BUFFER_SIZE < record_len(m)
    &&& m.num_predelay_samples < m.delay_windows.len()
    &&& m.sample_buffer.len() == m.sample_buffer_write_index
    &&& m.is_pre_delay ==> !m.is_full && m.sample_buffer_write_index < PREDELAY_BUFFER_SIZE
    &&& !m.is_pre_delay && !m.is_full ==> PREDELAY_BUFFER_SIZE <= m.sample_buffer_write_index
        < record_len(m)
    &&& m.is_full ==> !m.is_pre_delay && m.sample_buffer_write_index == record_len(m)
    &&& m.delay_windows_index < pattern_end(m)
}

/// A manager as the delay adds it, with its positions at zero, is valid
/// whenever its recording is longer than the pre-delay and its window
/// pattern longer than its pre-delay samples.
pub proof fn lemma_new_manager_valid(
    id: usize,
    sample_buffer_size: usize,
    delay_windows: Seq<bool>,
    num_delay_windows: usize,
    num_predelay_samples: usize,
)
    requires
        PREDELAY_BUFFER_SIZE < sample_buffer_size - num_predelay_samples,
        num_predelay_samples < delay_windows.len(),
    ensures
        manager_valid(
            fresh_manager(
                id,
                sample_buffer_size,
                delay_windows,
                num_delay_windows,
                num_predelay_samples,
                0,
                0,
                0,
                0,
                0,
            ),
        ),
{
}

/// A valid manager can always take a sample, stays valid when it does, and
/// so never holds more samples than its recording length.
pub proof fn lemma_next_sample_keeps_valid(m: SampleManagerModel, sample: u32)
    requires
        manager_valid(m),
    ensures
        can_take_sample(m),
        manager_valid(next_sample_step(m, sample).0),
        m.sample_buffer.len() <= record_len(m),
        next_sample_step(m, sample).0.sample_buffer.len() <= record_len(m),
{
    let m1 = record_step(m, sample);
    assert(record_len(m1) == record_len(m));
    assert(pattern_end(m1) == pattern_end(m));
}

/// Starting over keeps a valid manager valid.
pub proof fn lemma_reset_keeps_valid(m: SampleManagerModel)
    requires
        manager_valid(m),
    ensures
        manager_valid(reset_manager(m)),
{
}

/// A manager plays back what it recorded: every sample it plays is silence
/// or one of the samples in its buffer once it has recorded the sample it
/// takes.
pub proof fn lemma_plays_recorded_samples(m: SampleManagerModel, sample: u32)
    requires
        can_take_sample(m),
    ensures
        next_sample_step(m, sample).1 == 0 || (!m.is_pre_delay && record_step(
            m,
            sample,
        ).sample_buffer.contains(next_sample_step(m, sample).1)),
{
    if !m.is_pre_delay {
        let m1 = record_step(m, sample);
        if m1.delay_windows[m1.delay_windows_index as int] {
            let k = m1.sample_buffer_read_index % m1.sample_buffer_size;
            if k < m1.sample_buffer.len() {
                assert(m1.sample_buffer[k as int] == recorded_sample(m1));
            }
        }
    }
}

/// A manager spawns at most once: once it has spawned, taking a sample in
/// a delay step never spawns again, and it stays marked as spawned.
pub proof fn lemma_spawns_once(m: SampleManagerModel, sample: u32)
    requires
        m.has_spawned,
    ensures
        !manager_step(m, sample).2,
        manager_step(m, sample).0.has_spawned,
{
}

/// A delay step touches only its own delay: the managers of every other
/// delay stay as they were.
pub proof fn lemma_delay_step_frame(
    r: RegistryModel,
    id: usize,
    other: usize,
    sample: u32,
    duration_num_samples: usize,
    delay_windows: Seq<bool>,
    num_repeats: usize,
    num_predelay_samples: usize,
)
    requires
        other != id,
    ensures
        managers_of(
            delay_step_result(
                r,
                id,
                sample,
                duration_num_samples,
                delay_windows,
                num_repeats,
                num_predelay_samples,
            ),
            other,
        ) == managers_of(r, other),
{
}

/// The managers of a delay, all valid.
pub open spec fn delay_managers_valid(r: RegistryModel, id: usize) -> bool {
    forall|i: int| 0 <= i < managers_of(r, id).len() ==> manager_valid(#[trigger] managers_of(r, id)[i])
}

/// A delay step keeps the managers of a delay valid, so that the next step
/// can be taken: the stepped managers stay valid, and the manager a spawn
/// adds is valid when the delay's recording is longer than the pre-delay
/// and its window pattern longer than its pre-delay samples.
pub proof fn lemma_delay_step_keeps_valid(
    r: RegistryModel,
    id: usize,
    sample: u32,
    duration_num_samples: usize,
    delay_windows: Seq<bool>,
    num_repeats: usize,
    num_predelay_samples: usize,
)
    requires
        delay_managers_valid(r, id),
        PREDELAY_BUFFER_SIZE < duration_num_samples - num_predelay_samples,
        num_predelay_samples < delay_windows.len(),
    ensures
        delay_managers_valid(
            delay_step_result(
                r,
                id,
                sample,
                duration_num_samples,
                delay_windows,
                num_repeats,
                num_predelay_samples,
            ),
            id,
        ),
{
    let ms = managers_of(r, id);
    let st = stepped_managers(ms, sample);
    assert forall|i: int| 0 <= i < st.len() implies manager_valid(#[trigger] st[i]) by {
        lemma_next_sample_keeps_valid(ms[i], sample);
    }
    let stepped = if r.managers.contains_key(id) {
        RegistryModel { managers: r.managers.insert(id, st), ..r }
    } else {
        r
    };
    if !r.managers.contains_key(id) {
        assert(ms =~= Seq::<SampleManagerModel>::empty());
        assert(st =~= Seq::<SampleManagerModel>::empty());
    }
    assert(managers_of(stepped, id) == st);
    lemma_new_manager_valid(
        r.id_counter,
        duration_num_samples,
        delay_windows,
        num_repeats,
        num_predelay_samples,
    );
    let added = managers_of(stepped, id).push(
        fresh_manager(
            r.id_counter,
            duration_num_samples,
            delay_windows,
            num_repeats,
            num_predelay_samples,
            0,
            0,
            0,
            0,
            0,
        ),
    );
    assert forall|i: int| 0 <= i < added.len() implies manager_valid(#[trigger] added[i]) by {
        if i < st.len() {
            assert(added[i] == st[i]);
        }
    }
}

} // verus!
