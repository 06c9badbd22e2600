use vstd::prelude::*;
use std::collections::VecDeque;
use crate::sample::{Sample, SampleModel, SampleType, strs_view};

verus! {

/// The capacity used where none is given.
pub const DEFAULT_MAX_SAMPLES: usize = 1000000;

/// How a trace is set up when recording is switched on.
#[derive(Clone, Copy, Debug, PartialEq, Eq, Structural)]
pub struct Config {
    /// The most samples the store holds; past it the oldest are evicted.
    pub max_samples: usize,
}

impl Config {
    /// A configuration that keeps at most `limit` samples.
    pub fn with_limit_count(limit: usize) -> (r: Config)
        ensures
            r.max_samples == limit,
    {
        Config { max_samples: limit }
    }
}

impl Default for Config {
    fn default() -> (r: Config)
        ensures
            r.max_samples == DEFAULT_MAX_SAMPLES,
    {
        Config { max_samples: DEFAULT_MAX_SAMPLES }
    }
}

#[verifier::external_type_specification]
#[verifier::external_body]
pub struct ExInstant(std::time::Instant);

/// Relies on std::time::Instant::now: a reading of the monotonic clock.
#[verifier::external_body]
fn clock_now() -> (r: std::time::Instant) {
    std::time::Instant::now()
}

/// Relies on std::time::Instant::elapsed: the time passed since `origin`,
/// in nanoseconds cut to 64 bits.
#[verifier::external_body]
fn nanos_since(origin: &std::time::Instant) -> (r: u64) {
    origin.elapsed().as_nanos() as u64
}

/// The models of a sequence of samples.
pub open spec fn models(s: Seq<Sample>) -> Seq<SampleModel> {
    s.map_values(|x: Sample| x@)
}

/// The last `n` elements of `s`, or all of them where there are fewer.
pub open spec fn keep_last(s: Seq<SampleModel>, n: nat) -> Seq<SampleModel> {
    if s.len() <= n {
        s
    } else {
        s.subrange(s.len() - n, s.len() as int)
    }
}

/// `m` is an instant sample with the given name, categories and payload.
pub open spec fn is_instant(m: SampleModel, name: Seq<char>, categories: Seq<Seq<char>>, payload: Option<Seq<char>>) -> bool {
    &&& m.name == name
    &&& m.categories == categories
    &&& m.sample_type == SampleType::Instant
    &&& m.end_ns is None
    &&& m.payload == payload
}

/// `m` is a finished duration sample with the given name, categories and
/// payload.
pub open spec fn is_duration(m: SampleModel, name: Seq<char>, categories: Seq<Seq<char>>, payload: Option<Seq<char>>) -> bool {
    &&& m.name == name
    &&& m.categories == categories
    &&& m.sample_type == SampleType::Duration
    &&& m.end_ns is Some
    &&& m.end_ns->0 >= m.start_ns
    &&& m.payload == payload
}

/// `m` with its end set to `e`.
pub open spec fn ended_at(m: SampleModel, e: u64) -> SampleModel {
    SampleModel { end_ns: Some(e), ..m }
}

/// The state of a trace: the switch, the capacity and the stored samples,
/// oldest first.
pub struct TraceModel {
    pub enabled: bool,
    pub max_samples: nat,
    pub samples: Seq<SampleModel>,
}

impl TraceModel {
    /// The store never holds more than its capacity, and every sample in it
    /// is well formed.
    pub open spec fn inv(self) -> bool {
        &&& self.samples.len() <= self.max_samples
        &&& forall|i: int| 0 <= i < self.samples.len() ==> #[trigger] self.samples[i].wf()
    }

    /// Recording switched on with the given capacity and an empty store.
    pub open spec fn enabled_with(self, max_samples: nat) -> TraceModel {
        TraceModel { enabled: true, max_samples, samples: Seq::empty() }
    }

    /// Recording switched off, with everything stored discarded.
    pub open spec fn disabled(self) -> TraceModel {
        TraceModel { enabled: false, samples: Seq::empty(), ..self }
    }

    /// A sample committed: appended, with the oldest evicted past capacity;
    /// nothing happens while recording is off.
    pub open spec fn recorded(self, s: SampleModel) -> TraceModel {
        if self.enabled {
            TraceModel { samples: keep_last(self.samples.push(s), self.max_samples), ..self }
        } else {
            self
        }
    }

    /// Each sample of `ss` committed in turn.
    pub open spec fn recorded_all(self, ss: Seq<SampleModel>) -> TraceModel
        decreases ss.len(),
    {
        if ss.len() == 0 {
            self
        } else {
            self.recorded_all(ss.drop_last()).recorded(ss.last())
        }
    }
}

/// Committing keeps the switch and the capacity.
pub proof fn lemma_recorded_all_keeps_config(t: TraceModel, ms: Seq<SampleModel>)
    ensures
        t.recorded_all(ms).enabled == t.enabled,
        t.recorded_all(ms).max_samples == t.max_samples,
    decreases ms.len(),
{
    if ms.len() > 0 {
        lemma_recorded_all_keeps_config(t, ms.drop_last());
    }
}

/// While recording, a freshly started store that is committed no more
/// samples than its capacity holds exactly those samples, in order.
pub proof fn lemma_recorded_all_kept(t: TraceModel, ms: Seq<SampleModel>)
    requires
        t.enabled,
        t.samples.len() == 0,
        ms.len() <= t.max_samples,
    ensures
        t.recorded_all(ms).samples == ms,
    decreases ms.len(),
{
    if ms.len() > 0 {
        lemma_recorded_all_kept(t, ms.drop_last());
        lemma_recorded_all_keeps_config(t, ms.drop_last());
        assert(ms.drop_last().push(ms.last()) =~= ms);
    } else {
        assert(ms =~= Seq::<SampleModel>::empty());
    }
}

/// Committing to a full store evicts the oldest sample and appends the new
/// one; the store never grows past its capacity.
pub proof fn lemma_full_store_evicts_oldest(t: TraceModel, m: SampleModel)
    requires
        t.inv(),
        t.enabled,
        t.max_samples > 0,
        t.samples.len() == t.max_samples,
    ensures
        t.recorded(m).samples == t.samples.subrange(1, t.samples.len() as int).push(m),
        t.recorded(m).samples.len() == t.max_samples,
{
    assert(t.recorded(m).samples =~= t.samples.subrange(1, t.samples.len() as int).push(m));
}

/// Switching recording off discards what was recorded: whatever was
/// committed before, switching it back on starts from an empty store.
pub proof fn lemma_disable_discards(t: TraceModel, ms: Seq<SampleModel>, max_samples: nat)
    ensures
        t.recorded_all(ms).disabled().samples.len() == 0,
        t.recorded_all(ms).disabled().enabled_with(max_samples).samples.len() == 0,
{
}

proof fn lemma_models_push(s: Seq<Sample>, x: Sample)
    ensures
        models(s.push(x)) == models(s).push(x@),
{
    assert(models(s.push(x)) =~= models(s).push(x@));
}

proof fn lemma_models_drop_first(s: Seq<Sample>)
    requires
        s.len() > 0,
    ensures
        models(s.subrange(1, s.len() as int)) == models(s).subrange(1, s.len() as int),
{
    assert(models(s.subrange(1, s.len() as int)) =~= models(s).subrange(1, s.len() as int));
}

/// An open duration sample. Handing it to `Trace::end_block` commits it;
/// one taken while recording was off commits nothing.
pub struct SampleGuard {
    sample: Option<Sample>,
}

impl View for SampleGuard {
    type V = Option<SampleModel>;

    closed spec fn view(&self) -> Option<SampleModel> {
        match self.sample {
            Some(s) => Some(s@),
            None => None,
        }
    }
}

impl SampleGuard {
    /// The guard holds, if anything, a duration sample that has not ended.
    pub open spec fn wf(&self) -> bool {
        match self@ {
            Some(m) => m.sample_type == SampleType::Duration && m.end_ns is None,
            None => true,
        }
    }

    /// A guard that commits nothing.
    pub fn new_disabled() -> (r: SampleGuard)
        ensures
            r@ is None,
            r.wf(),
    {
        SampleGuard { sample: None }
    }
}

/// A trace: a switch, and a bounded store of samples that evicts the oldest
/// when full.
pub struct Trace {
    enabled: bool,
    max_samples: usize,
    samples: VecDeque<Sample>,
    origin: std::time::Instant,
}

impl View for Trace {
    type V = TraceModel;

    closed spec fn view(&self) -> TraceModel {
        TraceModel {
            enabled: self.enabled,
            max_samples: self.max_samples as nat,
            samples: models(self.samples@),
        }
    }
}

impl Trace {
    /// A trace with recording off.
    pub fn disabled() -> (r: Trace)
        ensures
            r@ == (TraceModel { enabled: false, max_samples: DEFAULT_MAX_SAMPLES as nat, samples: Seq::empty() }),
            r@.inv(),
    {
        let r = Trace { enabled: false, max_samples: DEFAULT_MAX_SAMPLES, samples: VecDeque::new(), origin: clock_now() };
        assert(models(r.samples@) =~= Seq::empty());
        r
    }

    /// A trace recording from the start, with the given capacity.
    pub fn enabled(config: Config) -> (r: Trace)
        ensures
            r@ == (TraceModel { enabled: true, max_samples: config.max_samples as nat, samples: Seq::empty() }),
            r@.inv(),
    {
        let r = Trace { enabled: true, max_samples: config.max_samples, samples: VecDeque::new(), origin: clock_now() };
        assert(models(r.samples@) =~= Seq::empty());
        r
    }

    /// Switches recording on with the default capacity, starting an empty
    /// store.
    pub fn enable(&mut self)
        ensures
            final(self)@ == old(self)@.enabled_with(DEFAULT_MAX_SAMPLES as nat),
            final(self)@.inv(),
    {
        self.enable_config(Config { max_samples: DEFAULT_MAX_SAMPLES });
    }

    /// Switches recording on with the given capacity, starting an empty
    /// store.
    pub fn enable_config(&mut self, config: Config)
        ensures
            final(self)@ == old(self)@.enabled_with(config.max_samples as nat),
            final(self)@.inv(),
    {
        self.samples.clear();
        self.max_samples = config.max_samples;
        self.enabled = true;
        assert(models(self.samples@) =~= Seq::empty());
    }

    /// Switches recording off and discards every stored sample.
    pub fn disable(&mut self)
        ensures
            final(self)@ == old(self)@.disabled(),
            final(self)@.inv(),
    {
        self.samples.clear();
        self.enabled = false;
        assert(models(self.samples@) =~= Seq::empty());
    }

    pub fn is_enabled(&self) -> (r: bool)
        ensures
            r == self@.enabled,
    {
        self.enabled
    }

    /// Nanoseconds since this trace was made.
    fn now_ns(&self) -> u64 {
        nanos_since(&self.origin)
    }

    /// Commits a sample: appends it, evicting the oldest past capacity.
    /// Does nothing while recording is off.
    pub fn record(&mut self, sample: Sample)
        requires
            old(self)@.inv(),
            sample@.wf(),
        ensures
            final(self)@ == old(self)@.recorded(sample@),
            final(self)@.inv(),
    {
        if !self.enabled || self.max_samples == 0 {
            if self.enabled {
                assert(keep_last(old(self)@.samples.push(sample@), 0) =~= old(self)@.samples);
            }
            return;
        }
        let ghost before = self.samples@;
        if self.samples.len() == self.max_samples {
            self.samples.pop_front();
            proof {
                lemma_models_drop_first(before);
            }
        }
        let ghost mid = self.samples@;
        self.samples.push_back(sample);
        proof {
            lemma_models_push(mid, sample);
            let pushed = models(before).push(sample@);
            if before.len() == self.max_samples {
                assert(models(self.samples@) =~= pushed.subrange(pushed.len() - self.max_samples, pushed.len() as int));
            }
            assert(models(self.samples@) =~= keep_last(pushed, self.max_samples as nat));
        }
    }

    /// Records an instant sample stamped now.
    pub fn instant(&mut self, name: &str, categories: &[&str])
        requires
            old(self)@.inv(),
        ensures
            final(self)@.inv(),
            !old(self)@.enabled ==> final(self)@ == old(self)@,
            old(self)@.enabled ==> exists|m: SampleModel|
                is_instant(m, name@, strs_view(categories@), None) && final(self)@ == old(self)@.recorded(m),
    {
        if !self.enabled {
            return;
        }
        let sample = Sample::new_instant(name, categories, self.now_ns(), None);
        let ghost m = sample@;
        self.record(sample);
        assert(is_instant(m, name@, strs_view(categories@), None));
    }

    /// Records an instant sample stamped now, carrying `payload`.
    pub fn instant_payload(&mut self, name: &str, categories: &[&str], payload: &str)
        requires
            old(self)@.inv(),
        ensures
            final(self)@.inv(),
            !old(self)@.enabled ==> final(self)@ == old(self)@,
            old(self)@.enabled ==> exists|m: SampleModel|
                is_instant(m, name@, strs_view(categories@), Some(payload@)) && final(self)@ == old(self)@.recorded(m),
    {
        if !self.enabled {
            return;
        }
        let sample = Sample::new_instant(name, categories, self.now_ns(), Some(payload));
        let ghost m = sample@;
        self.record(sample);
        assert(is_instant(m, name@, strs_view(categories@), Some(payload@)));
    }

    /// Records an instant sample stamped now, whose payload `payload`
    /// computes. While recording is off `payload` is not run.
    pub fn instant_payload_with<F: FnOnce() -> String>(&mut self, name: &str, categories: &[&str], payload: F)
        requires
            old(self)@.inv(),
            payload.requires(()),
        ensures
            final(self)@.inv(),
            !old(self)@.enabled ==> final(self)@ == old(self)@,
            old(self)@.enabled ==> exists|m: SampleModel, p: String|
                payload.ensures((), p) && #[trigger] is_instant(m, name@, strs_view(categories@), Some(p@))
                    && final(self)@ == old(self)@.recorded(m),
    {
        if !self.enabled {
            return;
        }
        let p: String = payload();
        let sample = Sample::new_instant(name, categories, self.now_ns(), Some(p.as_str()));
        let ghost m = sample@;
        self.record(sample);
        assert(is_instant(m, name@, strs_view(categories@), Some(p@)));
    }

    /// Opens a duration sample stamped now. While recording is off the guard
    /// commits nothing.
    pub fn block(&self, name: &str, categories: &[&str]) -> (r: SampleGuard)
        ensures
            r.wf(),
            !self@.enabled ==> r@ is None,
            self@.enabled ==> r@ is Some && ({
                let m = r@->0;
                &&& m.name == name@
                &&& m.categories == strs_view(categories@)
                &&& m.payload is None
            }),
    {
        if !self.enabled {
            return SampleGuard::new_disabled();
        }
        let sample = Sample::new(name, categories, SampleType::Duration, self.now_ns(), None);
        SampleGuard { sample: Some(sample) }
    }

    /// Ends the guard's sample now and commits it. A guard that holds
    /// nothing commits nothing.
    pub fn end_block(&mut self, guard: SampleGuard)
        requires
            old(self)@.inv(),
            guard.wf(),
        ensures
            final(self)@.inv(),
            guard@ is None ==> final(self)@ == old(self)@,
            guard@ is Some ==> exists|e: u64|
                e >= guard@->0.start_ns && final(self)@ == old(self)@.recorded(#[trigger] ended_at(guard@->0, e)),
    {
        let ghost g = guard@;
        match guard.sample {
            Some(mut sample) => {
                let now = self.now_ns();
                sample.set_end_ns(now);
                let ghost e = sample.end_ns->0;
                assert(sample@ == ended_at(g->0, e));
                self.record(sample);
            },
            None => {},
        }
    }

    /// Runs `closure` and records a duration sample spanning the run,
    /// carrying `payload`.
    pub fn closure_payload<F: FnOnce()>(&mut self, name: &str, categories: &[&str], closure: F, payload: &str)
        requires
            old(self)@.inv(),
            closure.requires(()),
        ensures
            final(self)@.inv(),
            !old(self)@.enabled ==> final(self)@ == old(self)@,
            old(self)@.enabled ==> exists|m: SampleModel|
                is_duration(m, name@, strs_view(categories@), Some(payload@)) && final(self)@ == old(self)@.recorded(m),
    {
        if !self.enabled {
            closure();
            return;
        }
        let mut sample = Sample::new(name, categories, SampleType::Duration, self.now_ns(), Some(payload));
        closure();
        let now = self.now_ns();
        sample.set_end_ns(now);
        let ghost m = sample@;
        self.record(sample);
        assert(is_duration(m, name@, strs_view(categories@), Some(payload@)));
    }

    /// A copy of every stored sample, oldest first.
    pub fn samples_cloned_unsorted(&self) -> (r: Vec<Sample>)
        ensures
            models(r@) == self@.samples,
    {
        let mut r: Vec<Sample> = Vec::new();
        let mut i: usize = 0;
        while i < self.samples.len()
            invariant
                i <= self.samples@.len(),
                r@.len() == i,
                models(r@) == models(self.samples@.subrange(0, i as int)),
            decreases self.samples@.len() - i,
        {
            let s = self.samples[i].duplicate();
            proof {
                lemma_models_push(r@, s);
                lemma_models_push(self.samples@.subrange(0, i as int), self.samples@[i as int]);
                assert(self.samples@.subrange(0, i + 1) =~= self.samples@.subrange(0, i as int).push(self.samples@[i as int]));
            }
            r.push(s);
            i = i + 1;
        }
        assert(self.samples@.subrange(0, self.samples@.len() as int) =~= self.samples@);
        r
    }
}

} // verus!
