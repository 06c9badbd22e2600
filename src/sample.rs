use vstd::prelude::*;

verus! {

/// Whether a sample marks a single point in time or spans an interval.
#[derive(Clone, Copy, Debug, PartialEq, Eq, Structural)]
pub enum SampleType {
    Instant,
    Duration,
}

/// One recorded event.
#[derive(Debug)]
pub struct Sample {
    pub name: String,
    pub categories: Vec<String>,
    pub sample_type: SampleType,
    pub start_ns: u64,
    /// Set for a duration sample only, when its scope ends.
    pub end_ns: Option<u64>,
    pub payload: Option<String>,
}

/// The mathematical value of a sample: its text as character sequences.
pub struct SampleModel {
    pub name: Seq<char>,
    pub categories: Seq<Seq<char>>,
    pub sample_type: SampleType,
    pub start_ns: u64,
    pub end_ns: Option<u64>,
    pub payload: Option<Seq<char>>,
}

/// The characters of each string, in order.
pub open spec fn strings_view(v: Seq<String>) -> Seq<Seq<char>> {
    v.map_values(|s: String| s@)
}

/// The characters of each string slice, in order.
pub open spec fn strs_view(v: Seq<&str>) -> Seq<Seq<char>> {
    v.map_values(|s: &str| s@)
}

pub open spec fn opt_view(p: Option<String>) -> Option<Seq<char>> {
    match p {
        Some(s) => Some(s@),
        None => None,
    }
}

impl View for Sample {
    type V = SampleModel;

    open spec fn view(&self) -> SampleModel {
        SampleModel {
            name: self.name@,
            categories: strings_view(self.categories@),
            sample_type: self.sample_type,
            start_ns: self.start_ns,
            end_ns: self.end_ns,
            payload: opt_view(self.payload),
        }
    }
}

impl SampleModel {
    /// A duration sample carries an end no earlier than its start; an
    /// instant sample carries none.
    pub open spec fn wf(self) -> bool {
        match self.sample_type {
            SampleType::Instant => self.end_ns is None,
            SampleType::Duration => self.end_ns is Some && self.end_ns->0 >= self.start_ns,
        }
    }
}

proof fn lemma_strings_view_push(v: Seq<String>, s: String)
    ensures
        strings_view(v.push(s)) == strings_view(v).push(s@),
{
    assert(strings_view(v.push(s)) =~= strings_view(v).push(s@));
}

proof fn lemma_strs_view_push(v: Seq<&str>, s: &str)
    ensures
        strs_view(v.push(s)) == strs_view(v).push(s@),
{
    assert(strs_view(v.push(s)) =~= strs_view(v).push(s@));
}

/// An owned copy of each string slice.
pub fn to_strings(v: &[&str]) -> (r: Vec<String>)
    ensures
        strings_view(r@) == strs_view(v@),
{
    let mut r: Vec<String> = Vec::new();
    let mut i: usize = 0;
    while i < v.len()
        invariant
            i <= v@.len(),
            r@.len() == i,
            strings_view(r@) == strs_view(v@.subrange(0, i as int)),
        decreases v@.len() - i,
    {
        let ghost prev = r@;
        let s: String = v[i].to_owned();
        proof {
            lemma_strings_view_push(prev, s);
            lemma_strs_view_push(v@.subrange(0, i as int), v@[i as int]);
            assert(v@.subrange(0, i + 1) =~= v@.subrange(0, i as int).push(v@[i as int]));
        }
        r.push(s);
        i = i + 1;
        assert(strings_view(r@) =~= strs_view(v@.subrange(0, i as int)));
    }
    assert(v@.subrange(0, v@.len() as int) =~= v@);
    r
}

/// A copy of each string.
pub fn clone_strings(v: &Vec<String>) -> (r: Vec<String>)
    ensures
        strings_view(r@) == strings_view(v@),
{
    let mut r: Vec<String> = Vec::new();
    let mut i: usize = 0;
    while i < v.len()
        invariant
            i <= v@.len(),
            r@.len() == i,
            strings_view(r@) == strings_view(v@.subrange(0, i as int)),
        decreases v@.len() - i,
    {
        let ghost prev = r@;
        let s: String = v[i].clone();
        proof {
            lemma_strings_view_push(prev, s);
            lemma_strings_view_push(v@.subrange(0, i as int), v@[i as int]);
            assert(v@.subrange(0, i + 1) =~= v@.subrange(0, i as int).push(v@[i as int]));
        }
        r.push(s);
        i = i + 1;
        assert(strings_view(r@) =~= strings_view(v@.subrange(0, i as int)));
    }
    assert(v@.subrange(0, v@.len() as int) =~= v@);
    r
}

impl Sample {
    /// A sample that starts at `start_ns`: an instant one, or a duration one
    /// that has not ended yet (its end is set once, by `set_end_ns`).
    pub fn new(name: &str, categories: &[&str], sample_type: SampleType, start_ns: u64, payload: Option<&str>) -> (r: Sample)
        ensures
            r@.name == name@,
            r@.categories == strs_view(categories@),
            r@.sample_type == sample_type,
            r@.start_ns == start_ns,
            r@.end_ns is None,
            r@.payload == match payload {
                Some(p) => Some(p@),
                None => None::<Seq<char>>,
            },
            sample_type == SampleType::Instant ==> r@.wf(),
    {
        let payload: Option<String> = match payload {
            Some(p) => Some(p.to_owned()),
            None => None,
        };
        Sample {
            name: name.to_owned(),
            categories: to_strings(categories),
            sample_type,
            start_ns,
            end_ns: None,
            payload,
        }
    }

    /// An instant sample at `start_ns`.
    pub fn new_instant(name: &str, categories: &[&str], start_ns: u64, payload: Option<&str>) -> (r: Sample)
        ensures
            r@.name == name@,
            r@.categories == strs_view(categories@),
            r@.sample_type == SampleType::Instant,
            r@.start_ns == start_ns,
            r@.end_ns is None,
            r@.payload == match payload {
                Some(p) => Some(p@),
                None => None::<Seq<char>>,
            },
            r@.wf(),
    {
        Sample::new(name, categories, SampleType::Instant, start_ns, payload)
    }

    /// Ends a duration sample at `end_ns`, or at its start where the clock
    /// reading lies before it.
    pub fn set_end_ns(&mut self, end_ns: u64)
        requires
            old(self)@.sample_type == SampleType::Duration,
            old(self)@.end_ns is None,
        ensures
            final(self)@ == (SampleModel {
                end_ns: Some(if end_ns >= old(self).start_ns { end_ns } else { old(self).start_ns }),
                ..old(self)@
            }),
            final(self)@.wf(),
    {
        let e: u64 = if end_ns >= self.start_ns { end_ns } else { self.start_ns };
        self.end_ns = Some(e);
    }

    /// An independent copy.
    pub fn duplicate(&self) -> (r: Sample)
        ensures
            r@ == self@,
    {
        let payload: Option<String> = match &self.payload {
            Some(p) => Some(p.clone()),
            None => None,
        };
        Sample {
            name: self.name.clone(),
            categories: clone_strings(&self.categories),
            sample_type: self.sample_type,
            start_ns: self.start_ns,
            end_ns: self.end_ns,
            payload,
        }
    }
}

} // verus!
