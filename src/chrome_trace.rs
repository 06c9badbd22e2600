use vstd::prelude::*;
use crate::sample::{Sample, SampleModel, SampleType, strings_view};
use crate::trace::models;
use vstd::utf8::encode_utf8;

verus! {

/// The envelope around the events.
#[derive(Clone, Copy, Debug, PartialEq, Eq, Structural)]
pub enum OutputFormat {
    /// A bare array of event objects.
    JsonArray,
    /// An object whose `traceEvents` member holds the array.
    JsonObject,
}

/// Why an export failed: a string could not be encoded, or the output
/// could not be written.
#[derive(Clone, Copy, Debug, PartialEq, Eq, Structural)]
pub enum SerializationError {
    Encoding,
    Write,
}

/// The `ph` member of an event.
#[derive(Clone, Copy, Debug, PartialEq, Eq, Structural)]
pub enum Phase {
    Instant,
    Begin,
    End,
}

/// One event of the export, before encoding.
pub struct EventModel {
    pub name: Seq<char>,
    pub cat: Seq<char>,
    pub ph: Phase,
    pub ts: u64,
    pub payload: Option<Seq<char>>,
}

#[verifier::external_type_specification]
#[verifier::external_body]
pub struct ExJsonError(serde_json::Error);

/// The JSON string literal that encodes `s`, quotes included, or `None`
/// where the encoder refuses it.
pub uninterp spec fn json_quoted(s: Seq<char>) -> Option<Seq<char>>;

/// Relies on serde_json::to_string on a `str`: the JSON string literal for
/// `s`, which depends on its characters alone.
#[verifier::external_body]
fn quote(s: &str) -> (r: Result<String, serde_json::Error>)
    ensures
        match r {
            Ok(q) => json_quoted(s@) == Some(q@),
            Err(_) => json_quoted(s@) is None,
        },
{
    serde_json::to_string(s)
}

/// Categories joined with commas, in order.
pub open spec fn joined(cats: Seq<Seq<char>>) -> Seq<char>
    decreases cats.len(),
{
    if cats.len() == 0 {
        Seq::empty()
    } else if cats.len() == 1 {
        cats[0]
    } else {
        joined(cats.drop_last()) + ","@ + cats.last()
    }
}

/// Microseconds in a nanosecond timestamp, truncated.
pub open spec fn micros(ns: u64) -> u64 {
    (ns / 1000) as u64
}

/// The events that one sample exports to: one for an instant sample, a
/// begin and an end for a duration sample.
pub open spec fn events_of(m: SampleModel) -> Seq<EventModel> {
    let cat = joined(m.categories);
    match m.sample_type {
        SampleType::Instant => seq![
            EventModel { name: m.name, cat, ph: Phase::Instant, ts: micros(m.start_ns), payload: m.payload },
        ],
        SampleType::Duration => seq![
            EventModel { name: m.name, cat, ph: Phase::Begin, ts: micros(m.start_ns), payload: m.payload },
            EventModel {
                name: m.name,
                cat,
                ph: Phase::End,
                ts: micros(
                    match m.end_ns {
                        Some(e) => e,
                        None => m.start_ns,
                    },
                ),
                payload: m.payload,
            },
        ],
    }
}

/// The events of all samples, in input order.
pub open spec fn all_events(ms: Seq<SampleModel>) -> Seq<EventModel>
    decreases ms.len(),
{
    if ms.len() == 0 {
        Seq::empty()
    } else {
        all_events(ms.drop_last()) + events_of(ms.last())
    }
}

/// The decimal digit `d`.
pub open spec fn digit_text(d: nat) -> Seq<char> {
    if d == 0 {
        "0"@
    } else if d == 1 {
        "1"@
    } else if d == 2 {
        "2"@
    } else if d == 3 {
        "3"@
    } else if d == 4 {
        "4"@
    } else if d == 5 {
        "5"@
    } else if d == 6 {
        "6"@
    } else if d == 7 {
        "7"@
    } else if d == 8 {
        "8"@
    } else {
        "9"@
    }
}

/// `n` in decimal, without leading zeros.
pub open spec fn decimal(n: nat) -> Seq<char>
    decreases n,
{
    if n < 10 {
        digit_text(n)
    } else {
        decimal(n / 10) + digit_text(n % 10)
    }
}

pub open spec fn phase_text(ph: Phase) -> Seq<char> {
    match ph {
        Phase::Instant => "i"@,
        Phase::Begin => "B"@,
        Phase::End => "E"@,
    }
}

/// One event object, from its already quoted strings, with members in the
/// order name, cat, ph, ts, args.
pub open spec fn event_text(qname: Seq<char>, qcat: Seq<char>, ph: Phase, ts: u64, qpayload: Option<Seq<char>>) -> Seq<char> {
    "{\"name\":"@ + qname + ",\"cat\":"@ + qcat + ",\"ph\":\""@ + phase_text(ph) + "\",\"ts\":"@ + decimal(
        ts as nat,
    ) + match qpayload {
        Some(qp) => ",\"args\":{\"payload\":"@ + qp + "}"@,
        None => Seq::empty(),
    } + "}"@
}

/// The encoder accepts every string of the sample.
pub open spec fn sample_quotable(m: SampleModel) -> bool {
    &&& json_quoted(m.name) is Some
    &&& json_quoted(joined(m.categories)) is Some
    &&& (m.payload matches Some(p) ==> json_quoted(p) is Some)
}

/// The encoded event.
pub open spec fn encoded_event(e: EventModel) -> Seq<char> {
    event_text(
        json_quoted(e.name)->0,
        json_quoted(e.cat)->0,
        e.ph,
        e.ts,
        match e.payload {
            Some(p) => Some(json_quoted(p)->0),
            None => None,
        },
    )
}

/// The encoded events, separated by commas.
pub open spec fn encoded_events(es: Seq<EventModel>) -> Seq<char>
    decreases es.len(),
{
    if es.len() == 0 {
        Seq::empty()
    } else if es.len() == 1 {
        encoded_event(es[0])
    } else {
        encoded_events(es.drop_last()) + ","@ + encoded_event(es.last())
    }
}

pub open spec fn opening(format: OutputFormat) -> Seq<char> {
    match format {
        OutputFormat::JsonArray => "["@,
        OutputFormat::JsonObject => "{\"traceEvents\":["@,
    }
}

pub open spec fn closing(format: OutputFormat) -> Seq<char> {
    match format {
        OutputFormat::JsonArray => "]"@,
        OutputFormat::JsonObject => "]}"@,
    }
}

/// The whole export of `ms` in the given envelope.
pub open spec fn document(ms: Seq<SampleModel>, format: OutputFormat) -> Seq<char> {
    opening(format) + encoded_events(all_events(ms)) + closing(format)
}

fn digit_str(d: u64) -> (r: &'static str)
    requires
        d < 10,
    ensures
        r@ == digit_text(d as nat),
{
    if d == 0 {
        "0"
    } else if d == 1 {
        "1"
    } else if d == 2 {
        "2"
    } else if d == 3 {
        "3"
    } else if d == 4 {
        "4"
    } else if d == 5 {
        "5"
    } else if d == 6 {
        "6"
    } else if d == 7 {
        "7"
    } else if d == 8 {
        "8"
    } else {
        "9"
    }
}

/// Appends `n` in decimal.
pub fn push_decimal(out: &mut String, n: u64)
    ensures
        final(out)@ == old(out)@ + decimal(n as nat),
    decreases n,
{
    if n >= 10 {
        push_decimal(out, n / 10);
    }
    out.append(digit_str(n % 10));
    assert(final(out)@ =~= old(out)@ + decimal(n as nat));
}

/// The categories joined with commas, in order.
pub fn join_categories(categories: &Vec<String>) -> (r: String)
    ensures
        r@ == joined(strings_view(categories@)),
{
    let mut r = String::new();
    let mut i: usize = 0;
    while i < categories.len()
        invariant
            i <= categories@.len(),
            r@ == joined(strings_view(categories@.subrange(0, i as int))),
        decreases categories@.len() - i,
    {
        let ghost before = strings_view(categories@.subrange(0, i as int));
        let ghost after = strings_view(categories@.subrange(0, i + 1));
        assert(after.drop_last() =~= before);
        assert(after.last() == categories@[i as int]@);
        if i > 0 {
            r.append(",");
        }
        r.append(categories[i].as_str());
        i = i + 1;
        assert(r@ =~= joined(after));
    }
    assert(categories@.subrange(0, categories@.len() as int) =~= categories@);
    r
}

fn phase_str(ph: Phase) -> (r: &'static str)
    ensures
        r@ == phase_text(ph),
{
    match ph {
        Phase::Instant => "i",
        Phase::Begin => "B",
        Phase::End => "E",
    }
}

/// Appends one event object, from its already quoted name, categories and
/// payload.
pub fn write_event(out: &mut String, qname: &str, qcat: &str, ph: Phase, ts: u64, qpayload: Option<&str>)
    ensures
        final(out)@ == old(out)@ + event_text(
            qname@,
            qcat@,
            ph,
            ts,
            match qpayload {
                Some(q) => Some(q@),
                None => None,
            },
        ),
{
    out.append("{\"name\":");
    out.append(qname);
    out.append(",\"cat\":");
    out.append(qcat);
    out.append(",\"ph\":\"");
    out.append(phase_str(ph));
    out.append("\",\"ts\":");
    push_decimal(out, ts);
    match qpayload {
        Some(q) => {
            out.append(",\"args\":{\"payload\":");
            out.append(q);
            out.append("}");
        },
        None => {},
    }
    out.append("}");
    assert(final(out)@ =~= old(out)@ + event_text(
        qname@,
        qcat@,
        ph,
        ts,
        match qpayload {
            Some(q) => Some(q@),
            None => None,
        },
    ));
}

proof fn lemma_encoded_events_push(es: Seq<EventModel>, e: EventModel)
    ensures
        encoded_events(es.push(e)) == if es.len() == 0 {
            encoded_event(e)
        } else {
            encoded_events(es) + ","@ + encoded_event(e)
        },
{
    assert(es.push(e).drop_last() =~= es);
    if es.len() == 0 {
        assert(es.push(e)[0] == e);
    }
}

proof fn lemma_all_events_push(ms: Seq<SampleModel>, m: SampleModel)
    ensures
        all_events(ms.push(m)) == all_events(ms) + events_of(m),
{
    assert(ms.push(m).drop_last() =~= ms);
}

/// The text of the export of `samples`: the events of each sample in input
/// order, a duration sample's begin before its end. Fails exactly when the
/// encoder refuses a string of some sample.
pub fn serialize_to_string(samples: &Vec<Sample>, format: OutputFormat) -> (r: Result<String, SerializationError>)
    ensures
        match r {
            Ok(text) => {
                &&& forall|j: int| 0 <= j < samples@.len() ==> #[trigger] sample_quotable(samples@[j]@)
                &&& text@ == document(models(samples@), format)
            },
            Err(e) => {
                &&& e == SerializationError::Encoding
                &&& exists|j: int| 0 <= j < samples@.len() && !#[trigger] sample_quotable(samples@[j]@)
            },
        },
{
    let ghost ms = models(samples@);
    let mut body = String::new();
    let mut i: usize = 0;
    while i < samples.len()
        invariant
            i <= samples@.len(),
            ms == models(samples@),
            forall|j: int| 0 <= j < i ==> #[trigger] sample_quotable(samples@[j]@),
            body@ == encoded_events(all_events(ms.subrange(0, i as int))),
            (all_events(ms.subrange(0, i as int)).len() == 0) == (i == 0),
        decreases samples@.len() - i,
    {
        let s = &samples[i];
        let ghost m = s@;
        assert(ms[i as int] == m);
        let qname = match quote(s.name.as_str()) {
            Ok(q) => q,
            Err(_) => {
                assert(!sample_quotable(samples@[i as int]@));
                return Err(SerializationError::Encoding);
            },
        };
        let cat = join_categories(&s.categories);
        let qcat = match quote(cat.as_str()) {
            Ok(q) => q,
            Err(_) => {
                assert(!sample_quotable(samples@[i as int]@));
                return Err(SerializationError::Encoding);
            },
        };
        let qpayload: Option<String> = match &s.payload {
            Some(p) => match quote(p.as_str()) {
                Ok(q) => Some(q),
                Err(_) => {
                    assert(!sample_quotable(samples@[i as int]@));
                    return Err(SerializationError::Encoding);
                },
            },
            None => None,
        };
        let qp: Option<&str> = match &qpayload {
            Some(q) => Some(q.as_str()),
            None => None,
        };
        let ghost prev = all_events(ms.subrange(0, i as int));
        let ghost evs = events_of(m);
        proof {
            assert(ms.subrange(0, i + 1) =~= ms.subrange(0, i as int).push(m));
            lemma_all_events_push(ms.subrange(0, i as int), m);
        }
        if i > 0 {
            body.append(",");
        }
        match s.sample_type {
            SampleType::Instant => {
                write_event(&mut body, qname.as_str(), qcat.as_str(), Phase::Instant, s.start_ns / 1000, qp);
                proof {
                    lemma_encoded_events_push(prev, evs[0]);
                    assert(prev + evs =~= prev.push(evs[0]));
                }
            },
            SampleType::Duration => {
                write_event(&mut body, qname.as_str(), qcat.as_str(), Phase::Begin, s.start_ns / 1000, qp);
                body.append(",");
                let end_ns: u64 = match s.end_ns {
                    Some(e) => e,
                    None => s.start_ns,
                };
                write_event(&mut body, qname.as_str(), qcat.as_str(), Phase::End, end_ns / 1000, qp);
                proof {
                    lemma_encoded_events_push(prev, evs[0]);
                    lemma_encoded_events_push(prev.push(evs[0]), evs[1]);
                    assert(prev + evs =~= prev.push(evs[0]).push(evs[1]));
                }
            },
        }
        i = i + 1;
        assert(body@ =~= encoded_events(all_events(ms.subrange(0, i as int))));
    }
    assert(ms.subrange(0, samples@.len() as int) =~= ms);
    let mut text = String::new();
    match format {
        OutputFormat::JsonArray => text.append("["),
        OutputFormat::JsonObject => text.append("{\"traceEvents\":["),
    }
    text.append(body.as_str());
    match format {
        OutputFormat::JsonArray => text.append("]"),
        OutputFormat::JsonObject => text.append("]}"),
    }
    assert(text@ =~= document(ms, format));
    Ok(text)
}

/// Appends the export of `samples`, UTF-8 encoded, to `output`. On failure
/// nothing is written.
pub fn serialize(samples: &Vec<Sample>, format: OutputFormat, output: &mut Vec<u8>) -> (r: Result<(), SerializationError>)
    ensures
        match r {
            Ok(()) => {
                &&& forall|j: int| 0 <= j < samples@.len() ==> #[trigger] sample_quotable(samples@[j]@)
                &&& final(output)@ == old(output)@ + encode_utf8(document(models(samples@), format))
            },
            Err(e) => {
                &&& e == SerializationError::Encoding
                &&& exists|j: int| 0 <= j < samples@.len() && !#[trigger] sample_quotable(samples@[j]@)
                &&& final(output)@ == old(output)@
            },
        },
{
    let text = match serialize_to_string(samples, format) {
        Ok(t) => t,
        Err(e) => {
            return Err(e);
        },
    };
    let bytes: &[u8] = text.as_str().as_bytes();
    let mut i: usize = 0;
    while i < bytes.len()
        invariant
            i <= bytes@.len(),
            output@ == old(output)@ + bytes@.subrange(0, i as int),
        decreases bytes@.len() - i,
    {
        output.push(bytes[i]);
        i = i + 1;
        assert(output@ =~= old(output)@ + bytes@.subrange(0, i as int));
    }
    assert(bytes@.subrange(0, bytes@.len() as int) =~= bytes@);
    Ok(())
}

proof fn lemma_all_events_single(m: SampleModel)
    ensures
        all_events(seq![m]) == events_of(m),
{
    let e = Seq::<SampleModel>::empty();
    assert(seq![m] =~= e.push(m));
    lemma_all_events_push(e, m);
    assert(all_events(e) == Seq::<EventModel>::empty());
    assert(all_events(e) + events_of(m) =~= events_of(m));
}

/// An instant sample exports to exactly one event, of phase `i`, stamped
/// with its start in whole microseconds.
pub proof fn lemma_instant_exports_one_event(m: SampleModel)
    requires
        m.wf(),
        m.sample_type == SampleType::Instant,
    ensures
        all_events(seq![m]).len() == 1,
        all_events(seq![m])[0] == (EventModel {
            name: m.name,
            cat: joined(m.categories),
            ph: Phase::Instant,
            ts: micros(m.start_ns),
            payload: m.payload,
        }),
        micros(m.start_ns) == m.start_ns / 1000,
{
    lemma_all_events_single(m);
}

/// A duration sample exports to exactly two events, a begin then an end,
/// with the same name and categories, the end stamped no earlier than the
/// begin.
pub proof fn lemma_duration_exports_two_events(m: SampleModel)
    requires
        m.wf(),
        m.sample_type == SampleType::Duration,
    ensures
        all_events(seq![m]).len() == 2,
        all_events(seq![m])[0].ph == Phase::Begin,
        all_events(seq![m])[1].ph == Phase::End,
        all_events(seq![m])[0].name == m.name,
        all_events(seq![m])[1].name == m.name,
        all_events(seq![m])[0].cat == joined(m.categories),
        all_events(seq![m])[1].cat == joined(m.categories),
        all_events(seq![m])[0].ts == m.start_ns / 1000,
        all_events(seq![m])[1].ts == m.end_ns->0 / 1000,
        all_events(seq![m])[1].ts >= all_events(seq![m])[0].ts,
{
    lemma_all_events_single(m);
    vstd::arithmetic::div_mod::lemma_div_is_ordered(m.start_ns as int, m.end_ns->0 as int, 1000);
}

/// Categories are joined in the order given: the last one follows the
/// others after a comma.
pub proof fn lemma_join_keeps_order(cats: Seq<Seq<char>>, c: Seq<char>)
    requires
        cats.len() > 0,
    ensures
        joined(cats.push(c)) == joined(cats) + ","@ + c,
{
    assert(cats.push(c).drop_last() =~= cats);
}

} // verus!
