use vstd::prelude::*;
use vstd::utf8::{valid_utf8, decode_utf8};
use crate::sample::{strings_view, strs_view};
use crate::trace::{Trace, SampleGuard, TraceModel, is_instant};

verus! {

/// Why a text buffer handed over by a caller could not be read.
#[derive(Clone, Copy, Debug, PartialEq, Eq, Structural)]
pub enum ConversionError {
    NullPointer,
    Encoding,
}

/// What was wrong with the arguments of a call: the name, the categories,
/// or both.
#[derive(Clone, Copy, Debug, PartialEq, Eq, Structural)]
pub struct TraceInputError {
    pub name: Option<ConversionError>,
    pub categories: Option<ConversionError>,
}

/// The bytes of a buffer that may be missing.
pub open spec fn buffer_view(b: Option<&[u8]>) -> Option<Seq<u8>> {
    match b {
        Some(s) => Some(s@),
        None => None,
    }
}

/// The bytes of each buffer of a list that may be missing.
pub open spec fn buffers_view(b: Option<&[&[u8]]>) -> Option<Seq<Seq<u8>>> {
    match b {
        Some(s) => Some(slices_view(s@)),
        None => None,
    }
}

/// The bytes of each buffer.
pub open spec fn slices_view(s: Seq<&[u8]>) -> Seq<Seq<u8>> {
    s.map_values(|x: &[u8]| x@)
}

/// The text a buffer holds, or why it holds none.
pub open spec fn text_of(b: Option<Seq<u8>>) -> Result<Seq<char>, ConversionError> {
    match b {
        None => Err(ConversionError::NullPointer),
        Some(bytes) => if valid_utf8(bytes) {
            Ok(decode_utf8(bytes))
        } else {
            Err(ConversionError::Encoding)
        },
    }
}

/// The texts a list of buffers holds, or why it holds none.
pub open spec fn texts_of(b: Option<Seq<Seq<u8>>>) -> Result<Seq<Seq<char>>, ConversionError> {
    match b {
        None => Err(ConversionError::NullPointer),
        Some(bs) => if forall|i: int| 0 <= i < bs.len() ==> valid_utf8(#[trigger] bs[i]) {
            Ok(bs.map_values(|x: Seq<u8>| decode_utf8(x)))
        } else {
            Err(ConversionError::Encoding)
        },
    }
}

/// The error of a conversion, if any.
pub open spec fn error_of<T>(r: Result<T, ConversionError>) -> Option<ConversionError> {
    match r {
        Ok(_) => None,
        Err(e) => Some(e),
    }
}

/// Relies on std::str::from_utf8: the text the bytes encode, or none where
/// they are not valid UTF-8.
#[verifier::external_body]
fn utf8_text(b: &[u8]) -> (r: Option<String>)
    ensures
        r is Some <==> valid_utf8(b@),
        r matches Some(s) ==> s@ == decode_utf8(b@),
{
    std::str::from_utf8(b).ok().map(|s| s.to_string())
}

/// Reads a caller's text buffer; `None` stands for a null pointer.
pub fn c_from_str(c_str: Option<&[u8]>) -> (r: Result<String, ConversionError>)
    ensures
        match r {
            Ok(s) => text_of(buffer_view(c_str)) == Ok::<Seq<char>, ConversionError>(s@),
            Err(e) => text_of(buffer_view(c_str)) == Err::<Seq<char>, ConversionError>(e),
        },
{
    match c_str {
        None => Err(ConversionError::NullPointer),
        Some(b) => match utf8_text(b) {
            Some(s) => Ok(s),
            None => Err(ConversionError::Encoding),
        },
    }
}

/// Reads a caller's list of text buffers; `None` stands for a null pointer.
pub fn c_from_categories(c_categories: Option<&[&[u8]]>) -> (r: Result<Vec<String>, ConversionError>)
    ensures
        match r {
            Ok(v) => texts_of(buffers_view(c_categories)) == Ok::<Seq<Seq<char>>, ConversionError>(strings_view(v@)),
            Err(e) => texts_of(buffers_view(c_categories)) == Err::<Seq<Seq<char>>, ConversionError>(e),
        },
{
    match c_categories {
        None => Err(ConversionError::NullPointer),
        Some(cs) => texts_from(cs),
    }
}

fn texts_from(cs: &[&[u8]]) -> (r: Result<Vec<String>, ConversionError>)
    ensures
        match r {
            Ok(v) => texts_of(Some(slices_view(cs@))) == Ok::<Seq<Seq<char>>, ConversionError>(strings_view(v@)),
            Err(e) => texts_of(Some(slices_view(cs@))) == Err::<Seq<Seq<char>>, ConversionError>(e),
        },
{
    let ghost bs = slices_view(cs@);
    let mut r: Vec<String> = Vec::new();
    let mut i: usize = 0;
    while i < cs.len()
        invariant
            i <= cs@.len(),
            bs == slices_view(cs@),
            r@.len() == i,
            forall|j: int| 0 <= j < i ==> valid_utf8(#[trigger] bs[j]),
            forall|j: int| 0 <= j < i ==> (#[trigger] r@[j])@ == decode_utf8(bs[j]),
        decreases cs@.len() - i,
    {
        match utf8_text(cs[i]) {
            Some(s) => {
                r.push(s);
            },
            None => {
                assert(bs[i as int] == cs@[i as int]@);
                assert(!valid_utf8(bs[i as int]));
                return Err(ConversionError::Encoding);
            },
        }
        i = i + 1;
    }
    assert(strings_view(r@) =~= bs.map_values(|x: Seq<u8>| decode_utf8(x)));
    Ok(r)
}

/// Category names as string slices.
fn as_strs(v: &Vec<String>) -> (r: Vec<&str>)
    ensures
        strs_view(r@) == strings_view(v@),
{
    let mut r: Vec<&str> = Vec::new();
    let mut i: usize = 0;
    while i < v.len()
        invariant
            i <= v@.len(),
            r@.len() == i,
            forall|j: int| 0 <= j < i ==> (#[trigger] r@[j])@ == v@[j]@,
        decreases v@.len() - i,
    {
        r.push(v[i].as_str());
        i = i + 1;
    }
    assert(strs_view(r@) =~= strings_view(v@));
    r
}

/// Switches recording off and discards every stored sample.
pub fn xi_trace_disable(trace: &mut Trace)
    ensures
        final(trace)@ == old(trace)@.disabled(),
        final(trace)@.inv(),
{
    trace.disable();
}

/// Switches recording on with the default configuration.
pub fn xi_trace_enable(trace: &mut Trace)
    ensures
        final(trace)@ == old(trace)@.enabled_with(crate::trace::DEFAULT_MAX_SAMPLES as nat),
        final(trace)@.inv(),
{
    trace.enable();
}

pub fn xi_trace_is_enabled(trace: &Trace) -> (r: bool)
    ensures
        r == trace@.enabled,
{
    trace.is_enabled()
}

/// The error of a call whose name or categories could not be read.
pub open spec fn input_error(name: Option<Seq<u8>>, categories: Option<Seq<Seq<u8>>>) -> Option<TraceInputError> {
    let n = error_of(text_of(name));
    let c = error_of(texts_of(categories));
    if n is None && c is None {
        None
    } else {
        Some(TraceInputError { name: n, categories: c })
    }
}

/// Reads both arguments, reporting every one that cannot be read.
fn convert_args(name: Option<&[u8]>, categories: Option<&[&[u8]]>) -> (r: Result<(String, Vec<String>), TraceInputError>)
    ensures
        match r {
            Ok((n, c)) => {
                &&& input_error(buffer_view(name), buffers_view(categories)) is None
                &&& text_of(buffer_view(name)) == Ok::<Seq<char>, ConversionError>(n@)
                &&& texts_of(buffers_view(categories)) == Ok::<Seq<Seq<char>>, ConversionError>(strings_view(c@))
            },
            Err(e) => input_error(buffer_view(name), buffers_view(categories)) == Some(e),
        },
{
    let n = c_from_str(name);
    let c = c_from_categories(categories);
    match (n, c) {
        (Ok(n), Ok(c)) => Ok((n, c)),
        (Ok(_), Err(ce)) => Err(TraceInputError { name: None, categories: Some(ce) }),
        (Err(ne), Ok(_)) => Err(TraceInputError { name: Some(ne), categories: None }),
        (Err(ne), Err(ce)) => Err(TraceInputError { name: Some(ne), categories: Some(ce) }),
    }
}

/// Records an instant sample from a caller's buffers. Arguments that cannot
/// be read (a null pointer, text that is not UTF-8) record nothing and are
/// reported in the error.
pub fn xi_trace(trace: &mut Trace, c_name: Option<&[u8]>, c_categories: Option<&[&[u8]]>) -> (r: Result<(), TraceInputError>)
    requires
        old(trace)@.inv(),
    ensures
        final(trace)@.inv(),
        c_name is None ==> final(trace)@ == old(trace)@,
        !old(trace)@.enabled ==> final(trace)@ == old(trace)@ && r is Ok,
        old(trace)@.enabled ==> match input_error(buffer_view(c_name), buffers_view(c_categories)) {
            Some(e) => r == Err::<(), TraceInputError>(e) && final(trace)@ == old(trace)@,
            None => r is Ok && exists|m| #[trigger] is_instant(
                m,
                text_of(buffer_view(c_name))->Ok_0,
                texts_of(buffers_view(c_categories))->Ok_0,
                None,
            ) && final(trace)@ == old(trace)@.recorded(m),
        },
{
    if !trace.is_enabled() {
        return Ok(());
    }
    match convert_args(c_name, c_categories) {
        Ok((name, categories)) => {
            let cats = as_strs(&categories);
            let cs: &[&str] = cats.as_slice();
            assert(cs@ == cats@);
            trace.instant(name.as_str(), cs);
            assert(strs_view(cats@) == texts_of(buffers_view(c_categories))->Ok_0);
            assert(name@ == text_of(buffer_view(c_name))->Ok_0);
            Ok(())
        },
        Err(e) => Err(e),
    }
}

/// The guard holds an open sample with the given name and categories and
/// no payload.
pub open spec fn opened(g: Option<crate::sample::SampleModel>, name: Seq<char>, categories: Seq<Seq<char>>) -> bool {
    &&& g is Some
    &&& g->0.name == name
    &&& g->0.categories == categories
    &&& g->0.payload is None
}

/// Opens a duration sample from a caller's buffers. Returns no guard while
/// recording is off; arguments that cannot be read give an error and no
/// guard.
pub fn xi_trace_block_begin(trace: &Trace, c_name: Option<&[u8]>, c_categories: Option<&[&[u8]]>) -> (r: Result<Option<SampleGuard>, TraceInputError>)
    ensures
        !trace@.enabled ==> r matches Ok(None),
        trace@.enabled ==> match input_error(buffer_view(c_name), buffers_view(c_categories)) {
            Some(e) => r == Err::<Option<SampleGuard>, TraceInputError>(e),
            None => (r matches Ok(Some(g)) && g.wf() && opened(
                g@,
                text_of(buffer_view(c_name))->Ok_0,
                texts_of(buffers_view(c_categories))->Ok_0,
            )),
        },
{
    if !trace.is_enabled() {
        return Ok(None);
    }
    match convert_args(c_name, c_categories) {
        Ok((name, categories)) => {
            let cats = as_strs(&categories);
            Ok(Some(trace.block(name.as_str(), cats.as_slice())))
        },
        Err(e) => Err(e),
    }
}

/// Ends and commits a duration sample opened by `xi_trace_block_begin`; no
/// guard, no effect.
pub fn xi_trace_block_end(trace: &mut Trace, trace_block: Option<SampleGuard>)
    requires
        old(trace)@.inv(),
        trace_block matches Some(g) ==> g.wf(),
    ensures
        final(trace)@.inv(),
        trace_block is None ==> final(trace)@ == old(trace)@,
        trace_block matches Some(g) ==> (g@ is None ==> final(trace)@ == old(trace)@),
        trace_block matches Some(g) ==> (g@ is Some ==> exists|e: u64|
            e >= g@->0.start_ns && final(trace)@ == old(trace)@.recorded(#[trigger] crate::trace::ended_at(g@->0, e))),
{
    match trace_block {
        Some(g) => trace.end_block(g),
        None => {},
    }
}

} // verus!
