//! Bookkeeping of a render session.
//!
//! The GPU side of the renderer uploads the source image, writes the grading
//! parameters and dispatches the preview pass; a `RenderSession` decides
//! which of those steps apply, counts them, and reports the state that the
//! user interface shows.

use vstd::prelude::*;
use crate::color::DebugOutputMode;
use crate::render::preview::{lemma_preview_dimensions_fit, preview_dimensions, spec_preview_dimensions};
use crate::render::texture::DecodedImage;
use crate::render::tiles::{full_resolution_tiles, spec_full_resolution_tiles, tiling_fits, RenderTile};
use image::ImageError;

verus! {

broadcast use vstd::string::to_string_from_display_ensures_for_str;

/// How often each kind of GPU work has been done.
#[derive(Debug, Clone, Copy, PartialEq, Eq, Structural)]
pub struct RenderCounters {
    pub source_uploads: u64,
    pub param_updates: u64,
    pub preview_dispatches: u64,
}

impl Default for RenderCounters {
    /// All counters at zero.
    fn default() -> (c: Self)
        ensures
            c.source_uploads == 0,
            c.param_updates == 0,
            c.preview_dispatches == 0,
    {
        RenderCounters { source_uploads: 0, param_updates: 0, preview_dispatches: 0 }
    }
}

/// What the user interface is told after each operation.
#[derive(Debug, Clone)]
pub struct RenderState {
    pub source_width: u32,
    pub source_height: u32,
    pub preview_width: u32,
    pub preview_height: u32,
    pub source_uploads: u64,
    pub param_updates: u64,
    pub preview_dispatches: u64,
    pub identity_preview: bool,
    pub debug_output: DebugOutputMode,
    pub tiles: Vec<RenderTile>,
}

/// The size of the loaded source image and of its preview.
#[derive(Debug, Clone, Copy, PartialEq, Eq, Structural)]
pub struct SourceExtent {
    pub width: u32,
    pub height: u32,
    pub preview_width: u32,
    pub preview_height: u32,
}

/// A source extent as loading an image makes it: a non-empty image that can
/// be tiled, with its preview sized by `preview_dimensions`.
pub open spec fn extent_of_source(e: SourceExtent) -> bool {
    &&& e.width > 0
    &&& e.height > 0
    &&& tiling_fits(e.width, e.height)
    &&& e.preview_width == spec_preview_dimensions(e.width as nat, e.height as nat).0
    &&& e.preview_height == spec_preview_dimensions(e.width as nat, e.height as nat).1
}

/// The abstract state of a session.
pub struct SessionView {
    pub source: Option<SourceExtent>,
    pub debug_output: DebugOutputMode,
    pub identity_preview: bool,
    pub counters: RenderCounters,
}

/// The debug output that the shader is given: none while the identity
/// preview (the ungraded image) is shown, else the grade's own.
pub open spec fn effective_debug_output(v: SessionView) -> DebugOutputMode {
    if v.identity_preview { DebugOutputMode::Off } else { v.debug_output }
}

/// While the identity preview is shown, the shader gets no debug output,
/// whatever the grade asks for; otherwise it gets the grade's own.
pub proof fn lemma_identity_preview_has_no_debug_output(v: SessionView)
    ensures
        v.identity_preview ==> effective_debug_output(v) == DebugOutputMode::Off,
        !v.identity_preview ==> effective_debug_output(v) == v.debug_output,
{
}

/// Number of 8 x 8 workgroups needed to cover `pixels` along one axis.
pub open spec fn workgroups_along(pixels: nat) -> nat {
    (pixels + 7) / 8
}

/// The workgroup count along an axis is the least number of 8-pixel blocks
/// that covers it: the blocks reach past the last pixel, and one block fewer
/// would leave pixels unshaded.
pub proof fn lemma_workgroups_cover(pixels: nat)
    ensures
        8 * workgroups_along(pixels) >= pixels,
        pixels > 0 ==> 8 * (workgroups_along(pixels) - 1) < pixels,
        pixels == 0 ==> workgroups_along(pixels) == 0,
{
}

/// Workgroup counts of the preview pass, which shades 8 x 8 pixel blocks:
/// along each axis, the least number of blocks that covers the preview.
pub fn preview_workgroups(preview_width: u32, preview_height: u32) -> (groups: [u32; 2])
    ensures
        groups[0] == workgroups_along(preview_width as nat),
        groups[1] == workgroups_along(preview_height as nat),
        8 * groups[0] >= preview_width,
        8 * groups[1] >= preview_height,
        8 * (groups[0] - 1) < preview_width,
        8 * (groups[1] - 1) < preview_height,
{
    let gx = preview_width / 8 + if preview_width % 8 == 0 { 0 } else { 1 };
    let gy = preview_height / 8 + if preview_height % 8 == 0 { 0 } else { 1 };
    [gx, gy]
}

/// The state of a render session: the loaded source, the grade's debug
/// output, whether the identity preview is shown, and the work counters.
pub struct RenderSession {
    source: Option<SourceExtent>,
    debug_output: DebugOutputMode,
    identity_preview: bool,
    counters: RenderCounters,
}

impl View for RenderSession {
    type V = SessionView;

    closed spec fn view(&self) -> SessionView {
        SessionView {
            source: self.source,
            debug_output: self.debug_output,
            identity_preview: self.identity_preview,
            counters: self.counters,
        }
    }
}

/// An operation on a session that changes its state.
pub enum SessionEvent {
    /// A decoded `width` x `height` image was uploaded as the source, and the
    /// preview dispatched.
    Load(u32, u32),
    /// The grading parameters were given to the GPU and the preview
    /// dispatched; without a source, nothing happens.
    Update,
    /// The grade's debug output was set.
    SetDebugOutput(DebugOutputMode),
    /// The identity preview was switched on or off.
    SetIdentityPreview(bool),
}

/// The extent of a loaded `width` x `height` image, with its preview size.
pub open spec fn extent_for(width: u32, height: u32) -> SourceExtent {
    SourceExtent {
        width,
        height,
        preview_width: spec_preview_dimensions(width as nat, height as nat).0 as u32,
        preview_height: spec_preview_dimensions(width as nat, height as nat).1 as u32,
    }
}

/// The state of a new session: no image, the default grade, the graded
/// preview, all counters at zero.
pub open spec fn initial_session() -> SessionView {
    SessionView {
        source: None,
        debug_output: DebugOutputMode::Off,
        identity_preview: false,
        counters: RenderCounters { source_uploads: 0, param_updates: 0, preview_dispatches: 0 },
    }
}

/// The state after one event.
pub open spec fn step(v: SessionView, e: SessionEvent) -> SessionView {
    match e {
        SessionEvent::Load(width, height) => SessionView {
            source: Some(extent_for(width, height)),
            counters: RenderCounters {
                source_uploads: (v.counters.source_uploads + 1) as u64,
                param_updates: v.counters.param_updates,
                preview_dispatches: (v.counters.preview_dispatches + 1) as u64,
            },
            ..v
        },
        SessionEvent::Update => if v.source is Some {
            SessionView {
                counters: RenderCounters {
                    source_uploads: v.counters.source_uploads,
                    param_updates: (v.counters.param_updates + 1) as u64,
                    preview_dispatches: (v.counters.preview_dispatches + 1) as u64,
                },
                ..v
            }
        } else {
            v
        },
        SessionEvent::SetDebugOutput(mode) => SessionView { debug_output: mode, ..v },
        SessionEvent::SetIdentityPreview(enabled) => SessionView { identity_preview: enabled, ..v },
    }
}

/// The state of a new session after the events, in order.
pub open spec fn replay(events: Seq<SessionEvent>) -> SessionView
    decreases events.len(),
{
    if events.len() == 0 {
        initial_session()
    } else {
        step(replay(events.drop_last()), events.last())
    }
}

/// What every session satisfies: its source has the size loading gives it,
/// a source means at least one upload, no source means no work at all, and
/// every upload and every counted update was followed by one dispatch.
pub open spec fn session_invariant(v: SessionView) -> bool {
    &&& v.source matches Some(e) ==> extent_of_source(e) && v.counters.source_uploads >= 1
    &&& v.source is None ==> v.counters == (RenderCounters {
        source_uploads: 0,
        param_updates: 0,
        preview_dispatches: 0,
    })
    &&& v.counters.preview_dispatches == v.counters.source_uploads + v.counters.param_updates
}

/// The size of the last image loaded among the events, if any.
pub open spec fn last_load(events: Seq<SessionEvent>) -> Option<(u32, u32)>
    decreases events.len(),
{
    if events.len() == 0 {
        None
    } else {
        match events.last() {
            SessionEvent::Load(width, height) => Some((width, height)),
            _ => last_load(events.drop_last()),
        }
    }
}

/// The number of loads among the events.
pub open spec fn count_loads(events: Seq<SessionEvent>) -> nat
    decreases events.len(),
{
    if events.len() == 0 {
        0
    } else {
        count_loads(events.drop_last()) + if events.last() is Load { 1nat } else { 0nat }
    }
}

/// The number of updates among the events that came after some load.
pub open spec fn count_counted_updates(events: Seq<SessionEvent>) -> nat
    decreases events.len(),
{
    if events.len() == 0 {
        0
    } else {
        count_counted_updates(events.drop_last()) + if events.last() is Update && last_load(
            events.drop_last(),
        ) is Some {
            1nat
        } else {
            0nat
        }
    }
}

/// The debug output last set among the events; `Off` if none was.
pub open spec fn last_debug_output(events: Seq<SessionEvent>) -> DebugOutputMode
    decreases events.len(),
{
    if events.len() == 0 {
        DebugOutputMode::Off
    } else {
        match events.last() {
            SessionEvent::SetDebugOutput(mode) => mode,
            _ => last_debug_output(events.drop_last()),
        }
    }
}

/// The identity-preview choice last made among the events; off if none was.
pub open spec fn last_identity_preview(events: Seq<SessionEvent>) -> bool
    decreases events.len(),
{
    if events.len() == 0 {
        false
    } else {
        match events.last() {
            SessionEvent::SetIdentityPreview(enabled) => enabled,
            _ => last_identity_preview(events.drop_last()),
        }
    }
}

/// Whether every load among the events is of an image that can be loaded:
/// non-empty and tileable.
pub open spec fn loads_are_valid(events: Seq<SessionEvent>) -> bool {
    forall|i: int|
        0 <= i < events.len() ==> (#[trigger] events[i] matches SessionEvent::Load(w, h) ==> w > 0 && h > 0
            && tiling_fits(w, h))
}

/// After any sequence of operations on a new session (fewer than `u64::MAX`
/// of them): the source is the last image loaded, and there is none exactly
/// when no image was loaded; the grade's debug output and the identity
/// choice are the last ones set (parameters given before any image are
/// kept); the session counts one upload per load and one parameter write
/// per update made while an image was loaded, updates without an image
/// count nothing, and dispatches are uploads plus counted updates.
pub proof fn lemma_replay(events: Seq<SessionEvent>)
    requires
        events.len() < u64::MAX,
        loads_are_valid(events),
    ensures
        ({
            let v = replay(events);
            &&& v.source == match last_load(events) {
                Some((w, h)) => Some(extent_for(w, h)),
                None => None,
            }
            &&& v.debug_output == last_debug_output(events)
            &&& v.identity_preview == last_identity_preview(events)
            &&& v.counters.source_uploads == count_loads(events)
            &&& v.counters.param_updates == count_counted_updates(events)
            &&& v.counters.preview_dispatches == count_loads(events) + count_counted_updates(events)
            &&& v.counters.preview_dispatches <= events.len()
            &&& session_invariant(v)
        }),
    decreases events.len(),
{
    if events.len() > 0 {
        let prefix = events.drop_last();
        assert(loads_are_valid(prefix)) by {
            assert forall|i: int| 0 <= i < prefix.len() implies (#[trigger] prefix[i] matches SessionEvent::Load(w, h)
                ==> w > 0 && h > 0 && tiling_fits(w, h)) by {
                assert(prefix[i] == events[i]);
            }
        }
        lemma_replay(prefix);
        let e = events.last();
        assert(e == events[events.len() - 1]);
        match e {
            SessionEvent::Load(w, h) => {
                lemma_preview_dimensions_fit(w as nat, h as nat);
                assert(extent_of_source(extent_for(w, h)));
            },
            _ => {},
        }
    }
}

/// Once an image has been loaded, every later state has a source: the user
/// interface never goes back to "no image loaded".
pub proof fn lemma_loaded_stays_loaded(events: Seq<SessionEvent>, later: Seq<SessionEvent>)
    requires
        last_load(events) is Some,
    ensures
        last_load(events + later) is Some,
    decreases later.len(),
{
    if later.len() > 0 {
        lemma_loaded_stays_loaded(events, later.drop_last());
        assert((events + later).drop_last() =~= events + later.drop_last());
    } else {
        assert(events + later =~= events);
    }
}

/// Giving the grade a debug output and writing the parameters (what
/// updating the grade or setting its debug output does) keeps the source and
/// the uploads, counts one parameter write and one dispatch while an image is
/// loaded and nothing otherwise, and shows the new debug output unless the
/// identity preview is on.
pub proof fn lemma_set_debug_output_then_update(v: SessionView, mode: DebugOutputMode)
    requires
        session_invariant(v),
        v.source is Some ==> v.counters.preview_dispatches < u64::MAX,
    ensures
        ({
            let v1 = step(step(v, SessionEvent::SetDebugOutput(mode)), SessionEvent::Update);
            &&& session_invariant(v1)
            &&& v1.source == v.source
            &&& v1.identity_preview == v.identity_preview
            &&& v1.debug_output == mode
            &&& effective_debug_output(v1) == if v.identity_preview { DebugOutputMode::Off } else { mode }
            &&& v1.counters.source_uploads == v.counters.source_uploads
            &&& v.source is Some ==> {
                &&& v1.counters.param_updates == v.counters.param_updates + 1
                &&& v1.counters.preview_dispatches == v.counters.preview_dispatches + 1
            }
            &&& v.source is None ==> v1.counters == v.counters
        }),
{
}

/// Switching the identity preview and writing the parameters keeps the
/// grade's own debug output, which is shown again once the identity preview
/// is switched off; while an image is loaded each switch counts one
/// parameter write and one dispatch.
pub proof fn lemma_identity_preview_round_trip(v: SessionView)
    requires
        session_invariant(v),
        v.source is Some ==> v.counters.preview_dispatches < u64::MAX - 1,
    ensures
        ({
            let on = step(step(v, SessionEvent::SetIdentityPreview(true)), SessionEvent::Update);
            let off = step(step(on, SessionEvent::SetIdentityPreview(false)), SessionEvent::Update);
            &&& session_invariant(on) && session_invariant(off)
            &&& on.identity_preview && effective_debug_output(on) == DebugOutputMode::Off
            &&& on.debug_output == v.debug_output
            &&& !off.identity_preview && effective_debug_output(off) == v.debug_output
            &&& off.source == v.source
            &&& off.counters.source_uploads == v.counters.source_uploads
            &&& v.source is Some ==> {
                &&& on.counters.param_updates == v.counters.param_updates + 1
                &&& off.counters.param_updates == v.counters.param_updates + 2
                &&& off.counters.preview_dispatches == v.counters.preview_dispatches + 2
            }
            &&& v.source is None ==> off.counters == v.counters
        }),
{
}

/// The first image loaded into a session counts exactly one upload and one
/// dispatch and no parameter write, whatever was set or updated before, and
/// keeps the debug output and identity choice made before it.
pub proof fn lemma_first_load(v: SessionView, width: u32, height: u32)
    requires
        session_invariant(v),
        v.source is None,
        width > 0,
        height > 0,
        tiling_fits(width, height),
    ensures
        ({
            let v1 = step(v, SessionEvent::Load(width, height));
            &&& session_invariant(v1)
            &&& v1.source == Some(extent_for(width, height))
            &&& v1.counters == (RenderCounters { source_uploads: 1, param_updates: 0, preview_dispatches: 1 })
            &&& v1.debug_output == v.debug_output
            &&& v1.identity_preview == v.identity_preview
        }),
{
    lemma_preview_dimensions_fit(width as nat, height as nat);
}

impl RenderSession {
    #[verifier::type_invariant]
    spec fn well_formed(self) -> bool {
        session_invariant(self@)
    }

    /// A session with no image, the default grade (no debug output), the
    /// graded preview selected and all counters at zero.
    pub fn new() -> (s: Self)
        ensures
            s@ == initial_session(),
            s@.source is None,
            s@.debug_output == DebugOutputMode::Off,
            !s@.identity_preview,
            s@.counters == (RenderCounters { source_uploads: 0, param_updates: 0, preview_dispatches: 0 }),
    {
        RenderSession {
            source: None,
            debug_output: DebugOutputMode::Off,
            identity_preview: false,
            counters: RenderCounters::default(),
        }
    }

    /// The loaded source, if any.
    pub fn source(&self) -> (s: Option<SourceExtent>)
        ensures
            s == self@.source,
            s matches Some(e) ==> extent_of_source(e),
    {
        proof {
            use_type_invariant(self);
        }
        self.source
    }

    /// The work counters.
    pub fn counters(&self) -> (c: RenderCounters)
        ensures
            c == self@.counters,
            session_invariant(self@),
    {
        proof {
            use_type_invariant(self);
        }
        self.counters
    }

    /// Whether the identity preview (the ungraded image) is shown.
    pub fn identity_preview(&self) -> (b: bool)
        ensures
            b == self@.identity_preview,
    {
        self.identity_preview
    }

    /// The debug output of the current grade.
    pub fn debug_output(&self) -> (m: DebugOutputMode)
        ensures
            m == self@.debug_output,
    {
        self.debug_output
    }

    /// The debug output that the shader is given.
    pub fn effective_debug_output(&self) -> (m: DebugOutputMode)
        ensures
            m == effective_debug_output(self@),
    {
        if self.identity_preview {
            DebugOutputMode::Off
        } else {
            self.debug_output
        }
    }

    /// Takes the outcome of decoding an image to load. A failed decoding is
    /// handed back and leaves the session as it was. A decoded image becomes
    /// the source: it is counted as one upload and one preview dispatch, and
    /// handed back with its extent and the workgroup counts of the dispatch.
    pub fn record_load(&mut self, decoded: Result<DecodedImage, ImageError>) -> (res: Result<
        (DecodedImage, SourceExtent, [u32; 2]),
        ImageError,
    >)
        requires
            decoded matches Ok(image) ==> {
                &&& image.width > 0
                &&& image.height > 0
                &&& tiling_fits(image.width, image.height)
                &&& old(self)@.counters.preview_dispatches < u64::MAX
            },
        ensures
            decoded matches Err(e) ==> res == Err::<(DecodedImage, SourceExtent, [u32; 2]), ImageError>(e)
                && final(self)@ == old(self)@,
            decoded matches Ok(image) ==> {
                &&& res matches Ok((loaded, extent, groups)) && {
                    &&& loaded == image
                    &&& extent == extent_for(image.width, image.height)
                    &&& extent_of_source(extent)
                    &&& groups[0] == workgroups_along(extent.preview_width as nat)
                    &&& groups[1] == workgroups_along(extent.preview_height as nat)
                    &&& 8 * groups[0] >= extent.preview_width
                    &&& 8 * groups[1] >= extent.preview_height
                    &&& 8 * (groups[0] - 1) < extent.preview_width
                    &&& 8 * (groups[1] - 1) < extent.preview_height
                }
                &&& final(self)@ == step(old(self)@, SessionEvent::Load(image.width, image.height))
                &&& final(self)@.counters.source_uploads == old(self)@.counters.source_uploads + 1
                &&& final(self)@.counters.preview_dispatches == old(self)@.counters.preview_dispatches + 1
                &&& final(self)@.counters.param_updates == old(self)@.counters.param_updates
            },
    {
        proof {
            use_type_invariant(&*self);
        }
        match decoded {
            Err(e) => Err(e),
            Ok(image) => {
                let dims = preview_dimensions(image.width, image.height);
                let extent = SourceExtent {
                    width: image.width,
                    height: image.height,
                    preview_width: dims[0],
                    preview_height: dims[1],
                };
                let counters = RenderCounters {
                    source_uploads: self.counters.source_uploads + 1,
                    param_updates: self.counters.param_updates,
                    preview_dispatches: self.counters.preview_dispatches + 1,
                };
                *self = RenderSession {
                    source: Some(extent),
                    debug_output: self.debug_output,
                    identity_preview: self.identity_preview,
                    counters,
                };
                let groups = preview_workgroups(extent.preview_width, extent.preview_height);
                Ok((image, extent, groups))
            },
        }
    }

    /// Records a write of the grading parameters followed by a preview
    /// dispatch, which happen only when a source is loaded; returns that
    /// source and the workgroup counts of the dispatch.
    pub fn record_update(&mut self) -> (written: Option<(SourceExtent, [u32; 2])>)
        requires
            old(self)@.source is Some ==> old(self)@.counters.preview_dispatches < u64::MAX,
        ensures
            final(self)@ == step(old(self)@, SessionEvent::Update),
            written is Some <==> old(self)@.source is Some,
            written matches Some((extent, groups)) ==> {
                &&& old(self)@.source == Some(extent)
                &&& groups[0] == workgroups_along(extent.preview_width as nat)
                &&& groups[1] == workgroups_along(extent.preview_height as nat)
                &&& 8 * groups[0] >= extent.preview_width
                &&& 8 * groups[1] >= extent.preview_height
                &&& 8 * (groups[0] - 1) < extent.preview_width
                &&& 8 * (groups[1] - 1) < extent.preview_height
                &&& final(self)@.counters.param_updates == old(self)@.counters.param_updates + 1
                &&& final(self)@.counters.preview_dispatches == old(self)@.counters.preview_dispatches + 1
            },
            final(self)@.source == old(self)@.source,
            final(self)@.counters.source_uploads == old(self)@.counters.source_uploads,
    {
        proof {
            use_type_invariant(&*self);
        }
        match self.source {
            Some(extent) => {
                self.counters = RenderCounters {
                    source_uploads: self.counters.source_uploads,
                    param_updates: self.counters.param_updates + 1,
                    preview_dispatches: self.counters.preview_dispatches + 1,
                };
                Some((extent, preview_workgroups(extent.preview_width, extent.preview_height)))
            },
            None => None,
        }
    }

    /// Sets the debug output of the current grade.
    pub fn set_debug_output(&mut self, mode: DebugOutputMode)
        ensures
            final(self)@ == step(old(self)@, SessionEvent::SetDebugOutput(mode)),
            final(self)@ == (SessionView { debug_output: mode, ..old(self)@ }),
    {
        proof {
            use_type_invariant(&*self);
        }
        self.debug_output = mode;
    }

    /// Selects the identity preview (the ungraded image) or the graded one.
    pub fn set_identity_preview(&mut self, enabled: bool)
        ensures
            final(self)@ == step(old(self)@, SessionEvent::SetIdentityPreview(enabled)),
            final(self)@ == (SessionView { identity_preview: enabled, ..old(self)@ }),
    {
        proof {
            use_type_invariant(&*self);
        }
        self.identity_preview = enabled;
    }

    /// The state shown to the user: sizes, counters, the effective debug
    /// output and the full-resolution tiles; an error while no image is
    /// loaded.
    pub fn state(&self) -> (res: Result<RenderState, String>)
        ensures
            res is Err <==> self@.source is None,
            res matches Err(msg) ==> msg@ == "no image loaded"@,
            res matches Ok(st) ==> {
                let e = self@.source.unwrap();
                &&& st.source_width == e.width
                &&& st.source_height == e.height
                &&& st.preview_width == e.preview_width
                &&& st.preview_height == e.preview_height
                &&& st.source_uploads == self@.counters.source_uploads
                &&& st.param_updates == self@.counters.param_updates
                &&& st.preview_dispatches == self@.counters.preview_dispatches
                &&& st.identity_preview == self@.identity_preview
                &&& st.debug_output == effective_debug_output(self@)
                &&& st.tiles@ == spec_full_resolution_tiles(e.width as nat, e.height as nat)
                &&& st.preview_width == spec_preview_dimensions(e.width as nat, e.height as nat).0
                &&& st.preview_height == spec_preview_dimensions(e.width as nat, e.height as nat).1
                &&& st.source_uploads >= 1
                &&& st.preview_dispatches == st.source_uploads + st.param_updates
                &&& st.identity_preview ==> st.debug_output == DebugOutputMode::Off
            },
    {
        proof {
            use_type_invariant(self);
        }
        match self.source {
            None => Err("no image loaded".to_string()),
            Some(s) => Ok(RenderState {
                source_width: s.width,
                source_height: s.height,
                preview_width: s.preview_width,
                preview_height: s.preview_height,
                source_uploads: self.counters.source_uploads,
                param_updates: self.counters.param_updates,
                preview_dispatches: self.counters.preview_dispatches,
                identity_preview: self.identity_preview,
                debug_output: self.effective_debug_output(),
                tiles: full_resolution_tiles(s.width, s.height),
            }),
        }
    }
}

} // verus!
