//! The persisted per-platform state and its controller: validation of the
//! record's invariants on load, read access, and the conditional update that
//! avoids a write when nothing changed. Reading and writing the key-value
//! store itself is the caller's concern; the controller decides and validates.

use vstd::prelude::*;

use crate::github::Tag;
use crate::localization::{change_views, LocalizationChange};
use crate::platform::Platform;
use crate::version::{lenient_parse, spec_version_lt, version_from_tag, version_lt};

verus! {

/// Whether the tracked set of prior localization changes is known to cover
/// everything since the last posted release.
#[derive(Debug, Clone, Copy, PartialEq, Eq, Structural)]
pub enum Completeness {
    Incomplete,
    Complete,
}

/// Per-platform persisted bookkeeping: the last announced tag pair, the forum
/// post that announced it, the archiving-notice flag, and the
/// localization-change tracking fields.
#[derive(Debug)]
pub struct PlatformState {
    pub last_posted_tag_previous_release: Tag,
    pub last_posted_tag: Tag,
    pub last_post_number: Option<u64>,
    pub posted_archiving_message: bool,
    pub localization_changes_completeness: Completeness,
    pub localization_changes: Vec<LocalizationChange>,
}

/// The mathematical model of a platform's state.
pub struct PlatformStateView {
    pub last_posted_tag_previous_release: Seq<char>,
    pub last_posted_tag: Seq<char>,
    pub last_post_number: Option<u64>,
    pub posted_archiving_message: bool,
    pub localization_changes_completeness: Completeness,
    pub localization_changes: Seq<Seq<char>>,
}

impl View for PlatformState {
    type V = PlatformStateView;

    open spec fn view(&self) -> PlatformStateView {
        PlatformStateView {
            last_posted_tag_previous_release: self.last_posted_tag_previous_release@,
            last_posted_tag: self.last_posted_tag@,
            last_post_number: self.last_post_number,
            posted_archiving_message: self.posted_archiving_message,
            localization_changes_completeness: self.localization_changes_completeness,
            localization_changes: change_views(self.localization_changes@),
        }
    }
}

/// The whole persisted record: one state per platform.
#[derive(Debug)]
pub struct State {
    pub android: PlatformState,
    pub desktop: PlatformState,
}

/// The mathematical model of the whole record.
pub struct StateView {
    pub android: PlatformStateView,
    pub desktop: PlatformStateView,
}

impl View for State {
    type V = StateView;

    open spec fn view(&self) -> StateView {
        StateView { android: self.android@, desktop: self.desktop@ }
    }
}

/// The per-platform component of a record.
pub open spec fn spec_platform_state(s: StateView, p: Platform) -> PlatformStateView {
    match p {
        Platform::Android => s.android,
        Platform::Desktop => s.desktop,
    }
}

/// The record with one platform's component replaced.
pub open spec fn spec_with_platform_state(
    s: StateView,
    p: Platform,
    ps: PlatformStateView,
) -> StateView {
    match p {
        Platform::Android => StateView { android: ps, ..s },
        Platform::Desktop => StateView { desktop: ps, ..s },
    }
}

/// A platform's persisted state is well formed when both tags parse as
/// versions and the previous release's version is strictly below the last
/// posted one.
pub open spec fn spec_platform_state_valid(ps: PlatformStateView) -> bool {
    match (
        lenient_parse(ps.last_posted_tag_previous_release),
        lenient_parse(ps.last_posted_tag),
    ) {
        (Some(a), Some(b)) => spec_version_lt(a, b),
        _ => false,
    }
}

/// Why a persisted record was rejected; corruption halts processing before
/// anything acts on the record.
#[derive(Debug)]
pub enum StateError {
    /// No record was found under the state key; the job never bootstraps
    /// state itself, so this is fatal.
    MissingState,
    /// A persisted tag does not parse as a version; carries the platform and
    /// the raw tag.
    UnparsableTag { platform: Platform, tag: String },
    /// The previous release's version is not strictly below the last posted
    /// one for the platform.
    OrderViolation { platform: Platform },
}

/// The error that validating one platform's state yields on its first
/// failure: the previous-release tag not parsing, then the last-posted tag
/// not parsing, then the version order being violated.
pub open spec fn spec_validation_error(p: Platform, ps: PlatformStateView, e: StateError) -> bool {
    match e {
        StateError::UnparsableTag { platform, tag } => {
            &&& platform == p
            &&& if lenient_parse(ps.last_posted_tag_previous_release) is None {
                tag@ == ps.last_posted_tag_previous_release
            } else {
                lenient_parse(ps.last_posted_tag) is None && tag@ == ps.last_posted_tag
            }
        },
        StateError::OrderViolation { platform } => {
            &&& platform == p
            &&& lenient_parse(ps.last_posted_tag_previous_release) is Some
            &&& lenient_parse(ps.last_posted_tag) is Some
            &&& !spec_platform_state_valid(ps)
        },
        StateError::MissingState => false,
    }
}

/// Validate one platform's persisted state.
pub fn validate_platform_state(platform: Platform, ps: &PlatformState) -> (r: Result<
    (),
    StateError,
>)
    ensures
        (r is Ok) == spec_platform_state_valid(ps@),
        r matches Err(e) ==> spec_validation_error(platform, ps@, e),
{
    let previous = match version_from_tag(ps.last_posted_tag_previous_release.name.as_str()) {
        Ok(v) => v,
        Err(e) => {
            return Err(StateError::UnparsableTag { platform, tag: e.tag });
        },
    };
    let last = match version_from_tag(ps.last_posted_tag.name.as_str()) {
        Ok(v) => v,
        Err(e) => {
            return Err(StateError::UnparsableTag { platform, tag: e.tag });
        },
    };
    if version_lt(&previous, &last) {
        Ok(())
    } else {
        Err(StateError::OrderViolation { platform })
    }
}

/// Are two platform states equal in content?
pub fn platform_state_eq(a: &PlatformState, b: &PlatformState) -> (r: bool)
    ensures
        r == (a@ == b@),
{
    if !(a.last_posted_tag_previous_release.name == b.last_posted_tag_previous_release.name) {
        return false;
    }
    if !(a.last_posted_tag.name == b.last_posted_tag.name) {
        return false;
    }
    let post_number_eq = match (a.last_post_number, b.last_post_number) {
        (None, None) => true,
        (Some(x), Some(y)) => x == y,
        _ => false,
    };
    if !post_number_eq {
        return false;
    }
    if a.posted_archiving_message != b.posted_archiving_message {
        return false;
    }
    if a.localization_changes_completeness != b.localization_changes_completeness {
        return false;
    }
    if a.localization_changes.len() != b.localization_changes.len() {
        assert(a@.localization_changes.len() != b@.localization_changes.len());
        return false;
    }
    let n = a.localization_changes.len();
    let mut i: usize = 0;
    while i < n
        invariant
            i <= n,
            n == a.localization_changes@.len(),
            n == b.localization_changes@.len(),
            forall|k: int|
                0 <= k < i ==> #[trigger] change_views(a.localization_changes@)[k] == change_views(
                    b.localization_changes@,
                )[k],
        decreases n - i,
    {
        if !(a.localization_changes[i].language_code == b.localization_changes[i].language_code) {
            assert(change_views(a.localization_changes@)[i as int] != change_views(
                b.localization_changes@,
            )[i as int]);
            return false;
        }
        i += 1;
    }
    proof {
        assert(change_views(a.localization_changes@) =~= change_views(b.localization_changes@));
        assert(a@ == b@);
    }
    true
}

/// Owns the in-memory copy of the persisted record and decides when the
/// caller must write it back.
#[derive(Debug)]
pub struct StateController {
    state: State,
}

impl View for StateController {
    type V = StateView;

    closed spec fn view(&self) -> StateView {
        self.state@
    }
}

impl StateController {
    /// Adopt a freshly loaded record after validating every platform's
    /// invariant; any violation rejects the whole record, not just the
    /// offending platform.
    pub fn from_state(state: State) -> (r: Result<StateController, StateError>)
        ensures
            (r is Ok) == (spec_platform_state_valid(state@.android) && spec_platform_state_valid(
                state@.desktop,
            )),
            r matches Ok(c) ==> c@ == state@,
            !spec_platform_state_valid(state@.android) ==> (r matches Err(e)
                && spec_validation_error(Platform::Android, state@.android, e)),
            spec_platform_state_valid(state@.android) && !spec_platform_state_valid(state@.desktop)
                ==> (r matches Err(e) && spec_validation_error(Platform::Desktop, state@.desktop, e)),
    {
        match validate_platform_state(Platform::Android, &state.android) {
            Ok(_) => {},
            Err(e) => {
                return Err(e);
            },
        }
        match validate_platform_state(Platform::Desktop, &state.desktop) {
            Ok(_) => {},
            Err(e) => {
                return Err(e);
            },
        }
        Ok(StateController { state })
    }

    /// Adopt whatever the store held under the state key: an absent record is
    /// a distinct fatal error, and a present one is validated as `from_state`
    /// does.
    pub fn from_loaded(loaded: Option<State>) -> (r: Result<StateController, StateError>)
        ensures
            loaded is None ==> (r matches Err(e) && e is MissingState),
            loaded matches Some(state) ==> {
                &&& (r is Ok) == (spec_platform_state_valid(state@.android)
                    && spec_platform_state_valid(state@.desktop))
                &&& r matches Ok(c) ==> c@ == state@
                &&& !spec_platform_state_valid(state@.android) ==> (r matches Err(e)
                    && spec_validation_error(Platform::Android, state@.android, e))
                &&& spec_platform_state_valid(state@.android) && !spec_platform_state_valid(
                    state@.desktop,
                ) ==> (r matches Err(e) && spec_validation_error(
                    Platform::Desktop,
                    state@.desktop,
                    e,
                ))
            },
    {
        match loaded {
            None => Err(StateError::MissingState),
            Some(state) => StateController::from_state(state),
        }
    }

    /// Read one platform's state.
    pub fn platform_state(&self, platform: Platform) -> (r: &PlatformState)
        ensures
            r@ == spec_platform_state(self@, platform),
    {
        match platform {
            Platform::Android => &self.state.android,
            Platform::Desktop => &self.state.desktop,
        }
    }

    /// The whole record, for writing it back to the store.
    pub fn state(&self) -> (r: &State)
        ensures
            r@ == self@,
    {
        &self.state
    }

    /// Replace one platform's state. Returns whether the record now differs
    /// from what it was, i.e. whether the caller must persist it: an update
    /// with an equal value is an idempotent no-op and asks for no write.
    pub fn set_platform_state(&mut self, platform: Platform, state: PlatformState) -> (persist:
        bool)
        ensures
            final(self)@ == spec_with_platform_state(old(self)@, platform, state@),
            persist == (spec_platform_state(old(self)@, platform) != state@),
    {
        let changed = !platform_state_eq(self.platform_state(platform), &state);
        match platform {
            Platform::Android => {
                self.state.android = state;
            },
            Platform::Desktop => {
                self.state.desktop = state;
            },
        }
        changed
    }
}

} // verus!
