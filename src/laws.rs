use vstd::prelude::*;

use crate::config::{resolve, ConfigView};
use crate::surface::{
    configure_step, may_render, resize_step, scale_step, ConfigureAction, Dimensions, Surface,
    SurfaceState,
};
use crate::wpaperd::{
    has_layer, has_output, lemma_live_len, lemma_push_output, lemma_remove_output, live_outputs,
    remove_output, unique_keys,
};

verus! {

/// An output topology event, as the registry sees it.
pub enum OutputEvent {
    /// An output appeared, with the surface made for it.
    Appeared(Surface),
    /// The output of this identity disappeared.
    Disappeared(u64),
}

/// The registry after one event (`new_output` appends, `output_destroyed`
/// removes).
pub open spec fn apply_event(s: Seq<Surface>, e: OutputEvent) -> Seq<Surface> {
    match e {
        OutputEvent::Appeared(n) => s.push(n),
        OutputEvent::Disappeared(o) => remove_output(s, o),
    }
}

/// The event is one that the display server can send in this state: a new
/// output and layer surface, or an output that is live.
pub open spec fn event_allowed(s: Seq<Surface>, e: OutputEvent) -> bool {
    match e {
        OutputEvent::Appeared(n) => !has_output(s, n.output) && !has_layer(s, n.layer),
        OutputEvent::Disappeared(o) => has_output(s, o),
    }
}

pub open spec fn apply_events(s: Seq<Surface>, es: Seq<OutputEvent>) -> Seq<Surface>
    decreases es.len(),
{
    if es.len() == 0 {
        s
    } else {
        apply_event(apply_events(s, es.drop_last()), es.last())
    }
}

pub open spec fn events_allowed(s: Seq<Surface>, es: Seq<OutputEvent>) -> bool
    decreases es.len(),
{
    if es.len() == 0 {
        true
    } else {
        events_allowed(s, es.drop_last()) && event_allowed(apply_events(s, es.drop_last()), es.last())
    }
}

/// The outputs that are live after the events, starting from `live`.
pub open spec fn live_after(live: Set<u64>, es: Seq<OutputEvent>) -> Set<u64>
    decreases es.len(),
{
    if es.len() == 0 {
        live
    } else {
        match es.last() {
            OutputEvent::Appeared(n) => live_after(live, es.drop_last()).insert(n.output),
            OutputEvent::Disappeared(o) => live_after(live, es.drop_last()).remove(o),
        }
    }
}

/// After any sequence of output appeared / disappeared events, the registry
/// holds one surface per live output: a surface is found for an output
/// exactly when that output is live, and the registry's size is the number
/// of live outputs.
pub proof fn registry_tracks_live_outputs(s: Seq<Surface>, es: Seq<OutputEvent>)
    requires
        unique_keys(s),
        events_allowed(s, es),
    ensures
        unique_keys(apply_events(s, es)),
        live_outputs(apply_events(s, es)) == live_after(live_outputs(s), es),
        forall|o: u64| has_output(apply_events(s, es), o) <==> #[trigger] live_after(
            live_outputs(s),
            es,
        ).contains(o),
        apply_events(s, es).len() == live_after(live_outputs(s), es).len(),
    decreases es.len(),
{
    if es.len() > 0 {
        registry_tracks_live_outputs(s, es.drop_last());
        let prev = apply_events(s, es.drop_last());
        match es.last() {
            OutputEvent::Appeared(n) => {
                lemma_push_output(prev, n);
            },
            OutputEvent::Disappeared(o) => {
                lemma_remove_output(prev, o);
            },
        }
    }
    lemma_live_len(apply_events(s, es));
    assert forall|o: u64| has_output(apply_events(s, es), o) <==> #[trigger] live_after(
        live_outputs(s),
        es,
    ).contains(o) by {
        assert(live_outputs(apply_events(s, es)).contains(o) == has_output(apply_events(s, es), o));
    }
}

/// A second scale-factor change to the factor already in force asks for no
/// resize and changes nothing.
pub proof fn repeated_scale_change_is_no_op(s: SurfaceState, factor: i32)
    ensures
        !scale_step(scale_step(s, factor).0, factor).1,
        scale_step(scale_step(s, factor).0, factor).0 == scale_step(s, factor).0,
{
}

/// A configure event with new dimensions asks for a resize and leaves the
/// surface unable to render until that resize has succeeded; only then is
/// it configured, at the new size. A surface that is not configured never
/// renders.
pub proof fn configure_resizes_before_ready(s: SurfaceState, size: Dimensions)
    requires
        s.dimensions != size,
    ensures
        configure_step(s, size).1 == ConfigureAction::Resize(size),
        configure_step(s, size).0.configured == s.configured,
        !may_render(configure_step(s, size).0),
        resize_step(configure_step(s, size).0, true).configured,
        resize_step(configure_step(s, size).0, true).dimensions == size,
        may_render(resize_step(configure_step(s, size).0, true)),
        resize_step(configure_step(s, size).0, false) == (SurfaceState { pending: None, ..s }),
        !s.configured ==> !may_render(s),
{
}

/// An output name without a section of its own resolves to the fallback
/// settings; a name with one resolves to that section.
pub proof fn unlisted_names_get_fallback(c: ConfigView, name: Seq<char>)
    ensures
        !c.outputs.contains_key(name) ==> resolve(c, name) == c.default,
        c.outputs.contains_key(name) ==> resolve(c, name) == c.outputs[name],
{
}

} // verus!
