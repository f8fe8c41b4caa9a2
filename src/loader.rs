//! The import pipeline: load state, asset cache, and the notifier that
//! announces a finished load exactly once.
use vstd::prelude::*;

use crate::asset::{check_header, header_fault, load_c3d, C3dAsset, HeaderFault};
use c3dio::{C3d, C3dParseError};

verus! {

/// Why a load failed: the source could not be read, its header would make
/// the parser fail by panicking, or the parser rejected the file.
#[derive(Debug)]
pub enum C3dLoadError {
    ReadError(std::io::Error),
    HeaderError(HeaderFault),
    ParseError(C3dParseError),
}

/// Loader of C3D files: reads a whole file, screens its header, then has
/// the C3D parser turn it into an asset.
#[derive(Default, Clone, Copy)]
pub struct C3dLoader;

impl C3dLoader {
    /// The first stage of a load, from the outcome of reading the source:
    /// the bytes to hand whole to the parser, or why there are none.
    pub fn screen(&self, read: Result<Vec<u8>, std::io::Error>) -> (r: Result<
        Vec<u8>,
        C3dLoadError,
    >)
        ensures
            read is Err ==> (r matches Err(C3dLoadError::ReadError(e)) && e == read->Err_0),
            read is Ok && header_fault(read->Ok_0@) is Some ==> (r matches Err(
                C3dLoadError::HeaderError(f),
            ) && Some(f) == header_fault(read->Ok_0@)),
            read is Ok && header_fault(read->Ok_0@) is None ==> r is Ok && r->Ok_0@
                == read->Ok_0@,
    {
        match read {
            Err(e) => Err(C3dLoadError::ReadError(e)),
            Ok(bytes) => match check_header(bytes.as_slice()) {
                Some(f) => Err(C3dLoadError::HeaderError(f)),
                None => Ok(bytes),
            },
        }
    }

    /// The second stage, from the parser's outcome: the asset holding the
    /// parsed record unchanged, or the parser's error unchanged.
    pub fn load(&self, parsed: Result<C3d, C3dParseError>) -> (r: Result<C3dAsset, C3dLoadError>)
        ensures
            parsed is Ok ==> r is Ok && r->Ok_0.parsed() == parsed->Ok_0,
            parsed is Err ==> (r matches Err(C3dLoadError::ParseError(e)) && e == parsed->Err_0),
    {
        match load_c3d(parsed) {
            Ok(a) => Ok(a),
            Err(e) => Err(C3dLoadError::ParseError(e)),
        }
    }

    /// The file extensions this loader handles (matched case-sensitively).
    pub fn extensions(&self) -> (r: Vec<&'static str>)
        ensures
            r@.len() == 1,
            r@[0]@ == "c3d"@,
    {
        let mut v: Vec<&'static str> = Vec::new();
        v.push("c3d");
        v
    }
}

/// The host's cache of imported assets. A handle is a slot index; a slot is
/// empty until a load into it succeeds, and a filled slot is never emptied.
pub struct AssetCache {
    slots: Vec<Option<C3dAsset>>,
}

impl AssetCache {
    /// The slots, each empty or holding the asset loaded into it.
    pub closed spec fn stored(&self) -> Seq<Option<C3dAsset>> {
        self.slots@
    }

    /// Which slots exist and which hold an asset.
    pub open spec fn view(&self) -> Seq<bool> {
        self.stored().map_values(|s: Option<C3dAsset>| s is Some)
    }

    /// Whether `handle` names an existing slot.
    pub open spec fn valid(&self, handle: Option<usize>) -> bool {
        handle is Some && handle->Some_0 < self@.len()
    }

    /// Whether `handle` names a slot that holds an asset.
    pub open spec fn contains(&self, handle: Option<usize>) -> bool {
        self.valid(handle) && self@[handle->Some_0 as int]
    }

    pub fn new() -> (r: AssetCache)
        ensures
            r@ == Seq::<bool>::empty(),
    {
        AssetCache { slots: Vec::new() }
    }

    /// Opens a fresh, empty slot and returns its handle.
    pub fn reserve(&mut self) -> (r: usize)
        requires
            old(self)@.len() < usize::MAX,
        ensures
            r == old(self)@.len(),
            final(self).stored() == old(self).stored().push(None),
            final(self)@ == old(self)@.push(false),
    {
        let r = self.slots.len();
        self.slots.push(None);
        proof {
            assert(final(self)@ =~= old(self)@.push(false));
        }
        r
    }

    /// The asset under `handle`, if that slot holds one.
    pub fn get(&self, handle: Option<usize>) -> (r: Option<&C3dAsset>)
        ensures
            r is Some <==> self.contains(handle),
            r is Some ==> Some(*r->Some_0) == self.stored()[handle->Some_0 as int],
    {
        match handle {
            Some(i) => {
                if i < self.slots.len() {
                    match &self.slots[i] {
                        Some(a) => Some(a),
                        None => None,
                    }
                } else {
                    None
                }
            },
            None => None,
        }
    }

    /// Stores the outcome of a load into the slot `handle`: a parsed asset
    /// fills the slot, and a failure leaves the cache as it was and is
    /// handed back.
    pub fn finish_load(&mut self, handle: usize, result: Result<C3dAsset, C3dLoadError>) -> (r:
        Result<(), C3dLoadError>)
        requires
            handle < old(self)@.len(),
        ensures
            r is Ok <==> result is Ok,
            result is Ok ==> final(self).stored() == old(self).stored().update(
                handle as int,
                Some(result->Ok_0),
            ),
            result is Ok ==> final(self)@ == old(self)@.update(handle as int, true),
            result is Err ==> final(self)@ == old(self)@,
    {
        match result {
            Ok(asset) => {
                self.slots.set(handle, Some(asset));
                proof {
                    assert(final(self)@ =~= old(self)@.update(handle as int, true));
                }
                Ok(())
            },
            Err(err) => Err(err),
        }
    }
}

/// The process-wide load state: the source being loaded, its handle in the
/// cache (`None` until a load begins), and whether the load was announced.
#[derive(Debug)]
pub struct C3dState {
    pub path: String,
    pub handle: Option<usize>,
    pub loaded: bool,
}

impl C3dState {
    pub fn new() -> (r: C3dState)
        ensures
            r.path@ == Seq::<char>::empty(),
            r.handle is None,
            !r.loaded,
    {
        C3dState { path: String::new(), handle: None, loaded: false }
    }

    /// Begins loading `path`: records it and opens a fresh slot for it. The
    /// new handle has not been announced yet.
    pub fn begin_load(&mut self, cache: &mut AssetCache, path: String)
        requires
            old(cache)@.len() < usize::MAX,
        ensures
            final(self).path == path,
            final(self).handle == Some(old(cache)@.len() as usize),
            !final(self).loaded,
            final(cache).stored() == old(cache).stored().push(None),
            final(cache)@ == old(cache)@.push(false),
    {
        let h = cache.reserve();
        self.path = path;
        self.handle = Some(h);
        self.loaded = false;
    }

    /// Finishes the current load from the parser's outcome: a parsed record
    /// fills the load's slot, and a parser error leaves the cache unchanged
    /// and is returned.
    pub fn on_parsed(
        &self,
        loader: &C3dLoader,
        cache: &mut AssetCache,
        parsed: Result<C3d, C3dParseError>,
    ) -> (r: Result<(), C3dLoadError>)
        requires
            old(cache).valid(self.handle),
        ensures
            r is Ok <==> parsed is Ok,
            parsed is Ok ==> final(cache)@ == old(cache)@.update(self.handle->Some_0 as int, true),
            parsed is Ok ==> (final(cache).stored()[self.handle->Some_0 as int] matches Some(a)
                && a.parsed() == parsed->Ok_0),
            parsed is Err ==> final(cache)@ == old(cache)@,
    {
        let h = match self.handle {
            Some(h) => h,
            None => 0,
        };
        cache.finish_load(h, loader.load(parsed))
    }
}

impl Default for C3dState {
    fn default() -> (r: C3dState)
        ensures
            r.path@ == Seq::<char>::empty(),
            r.handle is None,
            !r.loaded,
    {
        C3dState::new()
    }
}

/// The one-shot notification that the asset is ready.
#[derive(Debug, PartialEq, Eq, Structural, Clone, Copy)]
pub struct C3dLoadedEvent;

/// One notifier pass, from whether the load was already announced and whether
/// its asset is in the cache: the new flag, and whether the event fires.
pub open spec fn notifier_step(loaded: bool, present: bool) -> (bool, bool) {
    if loaded {
        (true, false)
    } else if present {
        (true, true)
    } else {
        (false, false)
    }
}

/// One notifier pass on plain values: given the announced flag and whether
/// the asset is cached, updates the flag and says whether to fire the event.
pub fn announce(loaded: &mut bool, present: bool) -> (fired: bool)
    ensures
        (*final(loaded), fired) == notifier_step(*old(loaded), present),
{
    if *loaded || !present {
        false
    } else {
        *loaded = true;
        true
    }
}

/// The per-tick notifier: announces the asset the first time it is found in
/// the cache, and never again for the same load state.
pub fn c3d_loaded(events: &mut Vec<C3dLoadedEvent>, state: &mut C3dState, assets: &AssetCache)
    ensures
        ({
            let (loaded, fired) = notifier_step(old(state).loaded, assets.contains(old(state).handle));
            &&& final(state).loaded == loaded
            &&& final(events)@ == if fired { old(events)@.push(C3dLoadedEvent) } else { old(events)@ }
        }),
        final(state).path == old(state).path,
        final(state).handle == old(state).handle,
{
    let present = assets.get(state.handle).is_some();
    if announce(&mut state.loaded, present) {
        events.push(C3dLoadedEvent);
    }
}

/// How many times the event fires over a run of notifier passes, starting
/// from `loaded`, where `present[t]` says whether the asset is cached at pass t.
pub open spec fn fire_count(loaded: bool, present: Seq<bool>) -> nat
    decreases present.len(),
{
    if present.len() == 0 {
        0
    } else {
        let (next, fired) = notifier_step(loaded, present[0]);
        (if fired { 1nat } else { 0nat }) + fire_count(next, present.drop_first())
    }
}

/// The flag after a run of notifier passes.
pub open spec fn loaded_after(loaded: bool, present: Seq<bool>) -> bool
    decreases present.len(),
{
    if present.len() == 0 {
        loaded
    } else {
        loaded_after(notifier_step(loaded, present[0]).0, present.drop_first())
    }
}

proof fn lemma_announced_stays_silent(present: Seq<bool>)
    ensures
        fire_count(true, present) == 0,
        loaded_after(true, present),
    decreases present.len(),
{
    if present.len() > 0 {
        lemma_announced_stays_silent(present.drop_first());
    }
}

/// Over any run of ticks from a fresh load state, the event fires exactly
/// once if the asset is in the cache at some tick, and never otherwise; the
/// flag ends up set exactly when the event fired.
pub proof fn lemma_fires_exactly_once(present: Seq<bool>)
    ensures
        fire_count(false, present) == (if exists|t: int| 0 <= t < present.len() && present[t] {
            1nat
        } else {
            0nat
        }),
        loaded_after(false, present) == (exists|t: int| 0 <= t < present.len() && present[t]),
    decreases present.len(),
{
    if present.len() > 0 {
        let rest = present.drop_first();
        if present[0] {
            lemma_announced_stays_silent(rest);
        } else {
            lemma_fires_exactly_once(rest);
            if exists|t: int| 0 <= t < present.len() && present[t] {
                let t = choose|t: int| 0 <= t < present.len() && present[t];
                assert(rest[t - 1]);
            }
            if exists|t: int| 0 <= t < rest.len() && rest[t] {
                let t = choose|t: int| 0 <= t < rest.len() && rest[t];
                assert(present[t + 1]);
            }
        }
    }
}

/// A failed load never fills its slot, so the notifier never fires for it
/// and the flag stays clear for as long as no new load begins.
pub proof fn lemma_failed_load_stays_silent(present: Seq<bool>)
    requires
        forall|t: int| 0 <= t < present.len() ==> !present[t],
    ensures
        fire_count(false, present) == 0,
        !loaded_after(false, present),
{
    lemma_fires_exactly_once(present);
}

} // verus!
