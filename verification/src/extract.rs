//! From the events of one file to its features.

use crate::context::{
    after_end, after_start, after_text, initial, route_of, ContextView, ParseContext, TextRoute,
};
use crate::error::ExtractError;
use crate::feature::{Feature, FeatureView};
use crate::tags::{classify, is_named, needs_name, tag_of};
use crate::xml::{
    find_name_attribute, lossy_string, lossy_text, name_attribute, open_reader, pending_events,
    read_event, xml_events, XmlEvent, XmlEventView,
};
use vstd::prelude::*;

verus! {

/// A file of an archive: its path and its bytes.
#[derive(Debug, PartialEq, Eq)]
pub struct FileToProcess {
    pub name: String,
    pub data: Vec<u8>,
}

/// What one event does: the state after it and the feature it completes, or the
/// reason for which the extraction stops at it.
///
/// A start tag of a generic attribute or of a set of them must carry a `name`
/// attribute, whose value is decoded leniently. Character data counts only where a
/// route is open, and must then be decodable. Any other markup changes nothing.
pub open spec fn step(s: ContextView, event: XmlEventView) -> Result<
    (ContextView, Option<FeatureView>),
    ExtractError,
> {
    match event {
        XmlEventView::Start { name, attributes } => if is_named(tag_of(name)) {
            match name_attribute(attributes) {
                Ok(value) => Ok((after_start(s, tag_of(name), lossy_text(value)), None)),
                Err(e) => Err(e),
            }
        } else {
            Ok((after_start(s, tag_of(name), Seq::empty()), None))
        },
        XmlEventView::End { name } => Ok(after_end(s, tag_of(name))),
        XmlEventView::Text { content } => if route_of(s) == TextRoute::Ignored {
            Ok((s, None))
        } else {
            match content {
                Some(text) => match after_text(s, text) {
                    Ok(next) => Ok((next, None)),
                    Err(e) => Err(e),
                },
                None => Err(ExtractError::MalformedXml),
            }
        },
        XmlEventView::Other => Ok((s, None)),
        XmlEventView::Invalid => Err(ExtractError::MalformedXml),
    }
}

/// The features that `events` complete from the state `s` on, in the order of their
/// end tags, or the reason for which the first failing event stops the extraction.
pub open spec fn run(s: ContextView, events: Seq<XmlEventView>) -> Result<
    Seq<FeatureView>,
    ExtractError,
>
    decreases events.len(),
{
    if events.len() == 0 {
        Ok(Seq::empty())
    } else {
        match step(s, events[0]) {
            Err(e) => Err(e),
            Ok((next, completed)) => match run(next, events.skip(1)) {
                Err(e) => Err(e),
                Ok(later) => Ok(
                    match completed {
                        Some(f) => seq![f] + later,
                        None => later,
                    },
                ),
            },
        }
    }
}

/// The features of a file with the events `events`. What a building has gathered
/// when the events end before its end tag is dropped.
pub open spec fn extract(events: Seq<XmlEventView>) -> Result<Seq<FeatureView>, ExtractError> {
    run(initial(), events)
}

/// The features `done`, then those of `events` from the state `s` on.
spec fn resume(done: Seq<FeatureView>, s: ContextView, events: Seq<XmlEventView>) -> Result<
    Seq<FeatureView>,
    ExtractError,
> {
    match run(s, events) {
        Ok(later) => Ok(done + later),
        Err(e) => Err(e),
    }
}

impl ParseContext {
    /// Takes one event and hands out the feature that it completes. After an error
    /// the state is of no use.
    pub fn handle_event(&mut self, event: &XmlEvent) -> (r: Result<Option<Feature>, ExtractError>)
        ensures
            match r {
                Ok(completed) => step(old(self)@, event@) == Ok::<
                    (ContextView, Option<FeatureView>),
                    ExtractError,
                >((final(self)@, completed.deep_view())),
                Err(e) => step(old(self)@, event@) == Err::<
                    (ContextView, Option<FeatureView>),
                    ExtractError,
                >(e),
            },
    {
        match event {
            XmlEvent::Start(name, attributes) => {
                let tag = classify(name.as_slice());
                if needs_name(tag) {
                    match find_name_attribute(attributes) {
                        Ok(value) => {
                            let value = lossy_string(value.as_slice());
                            self.start_element(tag, value.as_str());
                        },
                        Err(e) => {
                            return Err(e);
                        },
                    }
                } else {
                    self.start_element(tag, "");
                }
                Ok(None)
            },
            XmlEvent::End(name) => Ok(self.end_element(classify(name.as_slice()))),
            XmlEvent::Text(content) => {
                match self.text_route() {
                    TextRoute::Ignored => Ok(None),
                    _ => match content {
                        Some(text) => match self.text(text.as_str()) {
                            Ok(()) => Ok(None),
                            Err(e) => Err(e),
                        },
                        None => Err(ExtractError::MalformedXml),
                    },
                }
            },
            XmlEvent::Other => Ok(None),
            XmlEvent::Invalid => Err(ExtractError::MalformedXml),
        }
    }
}

/// One step of an extraction: the features done so far and the state, before and
/// after the first of the events that are left.
proof fn lemma_resume_step(
    done: Seq<FeatureView>,
    s: ContextView,
    events: Seq<XmlEventView>,
    next: ContextView,
    completed: Option<FeatureView>,
)
    requires
        events.len() > 0,
        step(s, events[0]) == Ok::<(ContextView, Option<FeatureView>), ExtractError>(
            (next, completed),
        ),
    ensures
        resume(done, s, events) == resume(
            match completed {
                Some(f) => done.push(f),
                None => done,
            },
            next,
            events.skip(1),
        ),
{
    match run(next, events.skip(1)) {
        Ok(later) => {
            match completed {
                Some(f) => {
                    assert(done + (seq![f] + later) =~= done.push(f) + later);
                },
                None => {},
            }
        },
        Err(_) => {},
    }
}

/// The features of a file whose events are `events`.
pub fn extract_features(events: &Vec<XmlEvent>) -> (r: Result<Vec<Feature>, ExtractError>)
    ensures
        match r {
            Ok(features) => extract(events.deep_view()) == Ok::<Seq<FeatureView>, ExtractError>(
                features.deep_view(),
            ),
            Err(e) => extract(events.deep_view()) == Err::<Seq<FeatureView>, ExtractError>(e),
        },
{
    let ghost all = events.deep_view();
    let mut context = ParseContext::new();
    let mut features: Vec<Feature> = Vec::new();
    let mut i: usize = 0;
    assert(all.skip(0) == all);
    assert(resume(Seq::empty(), initial(), all) == extract(all));
    while i < events.len()
        invariant
            i <= events.len(),
            all == events.deep_view(),
            extract(all) == resume(features.deep_view(), context@, all.skip(i as int)),
        decreases events.len() - i,
    {
        let ghost done = features.deep_view();
        let ghost before = context@;
        let ghost rest = all.skip(i as int);
        assert(rest.skip(1) == all.skip(i as int + 1));
        match context.handle_event(&events[i]) {
            Ok(completed) => {
                proof {
                    lemma_resume_step(done, before, rest, context@, completed.deep_view());
                }
                match completed {
                    Some(f) => {
                        features.push(f);
                        assert(features.deep_view() =~= done.push(f@));
                    },
                    None => {},
                }
            },
            Err(e) => {
                return Err(e);
            },
        }
        i += 1;
    }
    Ok(features)
}

/// The features of the file `file`: those that the events of its bytes complete.
pub fn process_one_file(file: &FileToProcess) -> (r: Result<Vec<Feature>, ExtractError>)
    ensures
        match r {
            Ok(features) => extract(xml_events(file.data@)) == Ok::<
                Seq<FeatureView>,
                ExtractError,
            >(features.deep_view()),
            Err(e) => extract(xml_events(file.data@)) == Err::<Seq<FeatureView>, ExtractError>(e),
        },
{
    let ghost all = xml_events(file.data@);
    let mut reader = open_reader(file.data.as_slice());
    let mut buf: Vec<u8> = Vec::new();
    let mut context = ParseContext::new();
    let mut features: Vec<Feature> = Vec::new();
    assert(resume(Seq::empty(), initial(), all) == extract(all));
    loop
        invariant
            all == xml_events(file.data@),
            extract(all) == resume(features.deep_view(), context@, pending_events(&reader)),
        decreases pending_events(&reader).len(),
    {
        let ghost done = features.deep_view();
        let ghost before = context@;
        let ghost rest = pending_events(&reader);
        match read_event(&mut reader, &mut buf) {
            Ok(Some(event)) => {
                match context.handle_event(&event) {
                    Ok(completed) => {
                        proof {
                            lemma_resume_step(done, before, rest, context@, completed.deep_view());
                        }
                        match completed {
                            Some(f) => {
                                features.push(f);
                                assert(features.deep_view() =~= done.push(f@));
                            },
                            None => {},
                        }
                    },
                    Err(e) => {
                        return Err(e);
                    },
                }
            },
            Ok(None) => {
                return Ok(features);
            },
            Err(_) => {
                return Err(ExtractError::MalformedXml);
            },
        }
        buf.clear();
    }
}

} // verus!
