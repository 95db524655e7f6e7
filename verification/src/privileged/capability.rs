//! Finding out what this CPU allows as a temperature ceiling.
//!
//! Errors are for what might work next time. A machine that has no such control is no error,
//! so that a caller can remember that answer.

use vstd::prelude::*;

use crate::privileged::temp_ceiling::Offsets;
use crate::protocol::temp_limit::Capability;
use crate::text::outcome;

verus! {

/// How far the search has come. `T` is what text is kept as: `String` when it runs, a
/// sequence of characters when contracts speak of it.
#[derive(Debug)]
pub enum CapabilityStage<T> {
    /// The cooling device is to be found.
    Device,
    /// The device is here; the temperature that its offset counts from is to be found.
    Tjmax(T),
    /// Nothing gave that temperature: the driver that does is to be loaded, and the
    /// temperature looked for again.
    TjmaxAfterLoading(T),
    /// The device's offsets are to be read.
    Offsets(T, u8),
    /// The offset that this boot started with is to be found.
    Factory(u8, Offsets),
    Finished(Result<Option<Capability>, T>),
}

/// What was found.
#[derive(Debug)]
pub enum CapabilityEvent<T> {
    Device(Result<Option<T>, T>),
    Tjmax(Result<Option<u8>, T>),
    Offsets(Result<Offsets, T>),
    Factory(Result<u8, T>),
}

/// A stage as contracts speak of it.
pub open spec fn stage_view(stage: CapabilityStage<String>) -> CapabilityStage<Seq<char>> {
    match stage {
        CapabilityStage::Device => CapabilityStage::Device,
        CapabilityStage::Tjmax(device) => CapabilityStage::Tjmax(device@),
        CapabilityStage::TjmaxAfterLoading(device) => CapabilityStage::TjmaxAfterLoading(device@),
        CapabilityStage::Offsets(device, tjmax_c) => CapabilityStage::Offsets(device@, tjmax_c),
        CapabilityStage::Factory(tjmax_c, offsets) => CapabilityStage::Factory(tjmax_c, offsets),
        CapabilityStage::Finished(result) => CapabilityStage::Finished(outcome(result)),
    }
}

/// An event as contracts speak of it.
pub open spec fn event_view(event: CapabilityEvent<String>) -> CapabilityEvent<Seq<char>> {
    match event {
        CapabilityEvent::Device(found) => CapabilityEvent::Device(
            match found {
                Ok(Some(device)) => Ok(Some(device@)),
                Ok(None) => Ok(None),
                Err(error) => Err(error@),
            },
        ),
        CapabilityEvent::Tjmax(found) => CapabilityEvent::Tjmax(outcome(found)),
        CapabilityEvent::Offsets(found) => CapabilityEvent::Offsets(outcome(found)),
        CapabilityEvent::Factory(found) => CapabilityEvent::Factory(outcome(found)),
    }
}

/// The stage that follows. An event that is not the one waited for changes nothing.
pub open spec fn stage_after(
    stage: CapabilityStage<Seq<char>>,
    event: CapabilityEvent<Seq<char>>,
) -> CapabilityStage<Seq<char>> {
    match (stage, event) {
        (CapabilityStage::Device, CapabilityEvent::Device(found)) => match found {
            Ok(Some(device)) => CapabilityStage::Tjmax(device),
            Ok(None) => CapabilityStage::Finished(Ok(None)),
            Err(error) => CapabilityStage::Finished(Err(error)),
        },
        (CapabilityStage::Tjmax(device), CapabilityEvent::Tjmax(found)) => match found {
            Ok(Some(tjmax_c)) => CapabilityStage::Offsets(device, tjmax_c),
            Ok(None) => CapabilityStage::TjmaxAfterLoading(device),
            Err(error) => CapabilityStage::Finished(Err(error)),
        },
        (CapabilityStage::TjmaxAfterLoading(device), CapabilityEvent::Tjmax(found)) => match found {
            Ok(Some(tjmax_c)) => CapabilityStage::Offsets(device, tjmax_c),
            Ok(None) => CapabilityStage::Finished(Ok(None)),
            Err(error) => CapabilityStage::Finished(Err(error)),
        },
        (CapabilityStage::Offsets(_, tjmax_c), CapabilityEvent::Offsets(found)) => match found {
            Ok(offsets) => CapabilityStage::Factory(tjmax_c, offsets),
            Err(error) => CapabilityStage::Finished(Err(error)),
        },
        (CapabilityStage::Factory(tjmax_c, offsets), CapabilityEvent::Factory(found)) => match found {
            Ok(factory) => CapabilityStage::Finished(
                Ok(Some(Capability::made(tjmax_c, offsets.max, offsets.current, factory))),
            ),
            Err(error) => CapabilityStage::Finished(Err(error)),
        },
        _ => stage,
    }
}

/// Takes the search for the capability one step on.
pub fn temp_limit_capability(
    stage: CapabilityStage<String>,
    event: CapabilityEvent<String>,
) -> (r: CapabilityStage<String>)
    ensures
        stage_view(r) == stage_after(stage_view(stage), event_view(event)),
{
    match (stage, event) {
        (CapabilityStage::Device, CapabilityEvent::Device(found)) => match found {
            Ok(Some(device)) => CapabilityStage::Tjmax(device),
            Ok(None) => CapabilityStage::Finished(Ok(None)),
            Err(error) => CapabilityStage::Finished(Err(error)),
        },
        (CapabilityStage::Tjmax(device), CapabilityEvent::Tjmax(found)) => match found {
            Ok(Some(tjmax_c)) => CapabilityStage::Offsets(device, tjmax_c),
            Ok(None) => CapabilityStage::TjmaxAfterLoading(device),
            Err(error) => CapabilityStage::Finished(Err(error)),
        },
        (CapabilityStage::TjmaxAfterLoading(device), CapabilityEvent::Tjmax(found)) => match found {
            Ok(Some(tjmax_c)) => CapabilityStage::Offsets(device, tjmax_c),
            Ok(None) => CapabilityStage::Finished(Ok(None)),
            Err(error) => CapabilityStage::Finished(Err(error)),
        },
        (CapabilityStage::Offsets(_, tjmax_c), CapabilityEvent::Offsets(found)) => match found {
            Ok(offsets) => CapabilityStage::Factory(tjmax_c, offsets),
            Err(error) => CapabilityStage::Finished(Err(error)),
        },
        (CapabilityStage::Factory(tjmax_c, offsets), CapabilityEvent::Factory(found)) => match found {
            Ok(factory) => CapabilityStage::Finished(
                Ok(Some(Capability::new(tjmax_c, offsets.max, offsets.current, factory))),
            ),
            Err(error) => CapabilityStage::Finished(Err(error)),
        },
        (stage, _) => stage,
    }
}

/// A machine on which everything is found has exactly the capability that was read: `Tjmax`
/// from the monitor, the range and the value of the offset from the device, and the offset
/// this boot started with. The driver may have to be loaded in between.
pub proof fn law_found_readings_make_the_capability(
    device: Seq<char>,
    tjmax_c: u8,
    max: u8,
    current: u8,
    factory_offset: u8,
)
    requires
        current <= max <= tjmax_c,
        factory_offset <= max,
    ensures
        ({
            let s1 = stage_after(
                CapabilityStage::Device,
                CapabilityEvent::Device(Ok(Some(device))),
            );
            let late = stage_after(s1, CapabilityEvent::Tjmax(Ok(None)));
            let s2 = stage_after(s1, CapabilityEvent::Tjmax(Ok(Some(tjmax_c))));
            let s3 = stage_after(s2, CapabilityEvent::Offsets(Ok(Offsets { max, current })));
            let s4 = stage_after(s3, CapabilityEvent::Factory(Ok(factory_offset)));
            &&& s1 == CapabilityStage::Tjmax(device)
            &&& late == CapabilityStage::TjmaxAfterLoading(device)
            &&& s2 == CapabilityStage::Offsets(device, tjmax_c)
            &&& stage_after(late, CapabilityEvent::Tjmax(Ok(Some(tjmax_c)))) == s2
            &&& s4 == CapabilityStage::<Seq<char>>::Finished(
                Ok(
                    Some(
                        Capability {
                            tjmax_c,
                            max_offset: max,
                            current_c: (tjmax_c - current) as u8,
                            factory_offset,
                        },
                    ),
                ),
            )
        }),
{
}

/// A machine on which the device is missing, or `Tjmax` even after loading its driver, has no
/// such control, and that is no error; whatever fails on the way is the error that comes out.
pub proof fn law_missing_is_no_error(device: Seq<char>, tjmax_c: u8, offsets: Offsets, e: Seq<char>)
    ensures
        stage_after(CapabilityStage::Device, CapabilityEvent::Device(Ok(None)))
            == CapabilityStage::<Seq<char>>::Finished(Ok(None)),
        stage_after(CapabilityStage::TjmaxAfterLoading(device), CapabilityEvent::Tjmax(Ok(None)))
            == CapabilityStage::<Seq<char>>::Finished(Ok(None)),
        ({
            let failed = CapabilityStage::<Seq<char>>::Finished(Err(e));
            &&& stage_after(CapabilityStage::Device, CapabilityEvent::Device(Err(e))) == failed
            &&& stage_after(CapabilityStage::Tjmax(device), CapabilityEvent::Tjmax(Err(e)))
                == failed
            &&& stage_after(
                CapabilityStage::TjmaxAfterLoading(device),
                CapabilityEvent::Tjmax(Err(e)),
            ) == failed
            &&& stage_after(
                CapabilityStage::Offsets(device, tjmax_c),
                CapabilityEvent::Offsets(Err(e)),
            ) == failed
            &&& stage_after(
                CapabilityStage::Factory(tjmax_c, offsets),
                CapabilityEvent::Factory(Err(e)),
            ) == failed
        }),
{
}

/// Stages and events are seen as they are.
pub proof fn law_stages_are_seen_as_they_are(
    device: String,
    tjmax_c: u8,
    offsets: Offsets,
    capability: Option<Capability>,
)
    ensures
        stage_view(CapabilityStage::Tjmax(device)) == CapabilityStage::Tjmax(device@),
        stage_view(CapabilityStage::TjmaxAfterLoading(device))
            == CapabilityStage::TjmaxAfterLoading(device@),
        stage_view(CapabilityStage::Offsets(device, tjmax_c)) == CapabilityStage::Offsets(
            device@,
            tjmax_c,
        ),
        stage_view(CapabilityStage::Factory(tjmax_c, offsets)) == CapabilityStage::<
            Seq<char>,
        >::Factory(tjmax_c, offsets),
        stage_view(CapabilityStage::Finished(Ok(capability))) == CapabilityStage::<
            Seq<char>,
        >::Finished(Ok(capability)),
        event_view(CapabilityEvent::Tjmax(Ok(Some(tjmax_c)))) == CapabilityEvent::<
            Seq<char>,
        >::Tjmax(Ok(Some(tjmax_c))),
        event_view(CapabilityEvent::Offsets(Ok(offsets))) == CapabilityEvent::<
            Seq<char>,
        >::Offsets(Ok(offsets)),
        event_view(CapabilityEvent::Factory(Ok(tjmax_c))) == CapabilityEvent::<
            Seq<char>,
        >::Factory(Ok(tjmax_c)),
        event_view(CapabilityEvent::Device(Ok(Some(device)))) == CapabilityEvent::Device(
            Ok(Some(device@)),
        ),
{
}

} // verus!
