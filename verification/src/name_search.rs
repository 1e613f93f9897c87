//! The search for the friendly name of a keyboard through the SetupAPI
//! device interface list.
//!
//! The search is a state machine: it tells the caller which SetupAPI call to
//! make next, and the caller hands back what the call returned. Failed calls
//! are reported by their `HRESULT` code.
use vstd::prelude::*;

use crate::text::{
    chars_eq_ignore_ascii_case, chars_of, decode_utf16_lossy, decode_wide_lossy,
    eq_ignore_ascii_case_spec, le_units, until_nul, wide_from_le_bytes, wide_until_nul,
};

verus! {

/// `HRESULT` of `ERROR_NO_MORE_ITEMS`.
pub const HRESULT_NO_MORE_ITEMS: i32 = -2147024637i32;

/// `HRESULT` of `ERROR_INSUFFICIENT_BUFFER`.
pub const HRESULT_INSUFFICIENT_BUFFER: i32 = -2147024774i32;

/// `HRESULT` of `ERROR_NOT_FOUND`.
pub const HRESULT_NOT_FOUND: i32 = -2147023728i32;

/// Number of device property keys tried, in order: friendly name, name, bus
/// reported description, BIOS name, PDO name.
pub const PROPERTY_KEY_COUNT: usize = 5usize;

/// How a search ends.
#[derive(PartialEq, Eq, Structural, Clone, Copy)]
pub enum NameSearchOutcome {
    /// No device interface has the path searched for.
    NoName,
    /// A name was read (see [`FriendlyNameSearch::found_name`]).
    Named,
    /// A call failed with this `HRESULT`.
    Failed(i32),
}

/// Where a search stands: which call's answer it waits for.
#[derive(PartialEq, Eq, Structural, Clone, Copy)]
pub enum NameSearchPhase {
    Opening,
    Enumerating { index: u32 },
    SizingDetail { index: u32 },
    ReadingDetail { index: u32 },
    ReadingDeviceInfo { index: u32 },
    SizingProperty { key: usize },
    ReadingProperty { key: usize },
    Closing { outcome: NameSearchOutcome },
    Done,
}

/// The call a search asks for next.
#[derive(PartialEq, Eq, Structural, Clone, Copy)]
pub enum NameSearchAction {
    /// Get the keyboard interface class list (`SetupDiGetClassDevsW`).
    OpenDeviceList,
    /// Enumerate the interface at this index (`SetupDiEnumDeviceInterfaces`).
    EnumerateInterface(u32),
    /// Ask for the size of the interface detail (`SetupDiGetDeviceInterfaceDetailW`).
    QueryDetailSize(u32),
    /// Read the interface detail into a buffer of that size.
    ReadDetail(u32),
    /// Read the device information of the interface at this index (`SetupDiEnumDeviceInfo`).
    ReadDeviceInfo(u32),
    /// Ask for the size of the property with this key index (`SetupDiGetDevicePropertyW`).
    QueryPropertySize(usize),
    /// Read the property with this key index into a buffer of that size.
    ReadProperty(usize),
    /// Destroy the list (`SetupDiDestroyDeviceInfoList`).
    CloseDeviceList,
    /// The search is over.
    Finish(NameSearchOutcome),
    /// The interface index would pass `u32::MAX`: the index arithmetic
    /// overflows here.
    IndexOverflow,
}

/// What a call returned.
pub enum NameSearchEvent {
    /// The list was obtained: whether its handle is non-null; or the error.
    Opened(Result<bool, i32>),
    /// An enumeration, size query, device information read or the list
    /// destruction succeeded, or failed with this code.
    Completed(Result<(), i32>),
    /// The device path units of the interface detail, or the error.
    DetailRead(Result<Vec<u16>, i32>),
    /// The bytes of the property, or the error.
    PropertyRead(Result<Vec<u8>, i32>),
}

/// The abstract value of a [`NameSearchEvent`].
pub enum NameSearchEventView {
    Opened(Result<bool, i32>),
    Completed(Result<(), i32>),
    DetailRead(Result<Seq<u16>, i32>),
    PropertyRead(Result<Seq<u8>, i32>),
}

impl View for NameSearchEvent {
    type V = NameSearchEventView;

    open spec fn view(&self) -> NameSearchEventView {
        match self {
            NameSearchEvent::Opened(r) => NameSearchEventView::Opened(*r),
            NameSearchEvent::Completed(r) => NameSearchEventView::Completed(*r),
            NameSearchEvent::DetailRead(r) => NameSearchEventView::DetailRead(
                match r {
                    Ok(u) => Ok(u@),
                    Err(c) => Err(*c),
                },
            ),
            NameSearchEvent::PropertyRead(r) => NameSearchEventView::PropertyRead(
                match r {
                    Ok(b) => Ok(b@),
                    Err(c) => Err(*c),
                },
            ),
        }
    }
}

/// Whether a phase waits for this kind of answer.
pub open spec fn accepts(phase: NameSearchPhase, ev: NameSearchEventView) -> bool {
    match phase {
        NameSearchPhase::Opening => ev is Opened,
        NameSearchPhase::ReadingDetail { .. } => ev is DetailRead,
        NameSearchPhase::ReadingProperty { .. } => ev is PropertyRead,
        NameSearchPhase::Done => false,
        _ => ev is Completed,
    }
}

/// The path held by the device path units of an interface detail.
pub open spec fn detail_path(units: Seq<u16>) -> Seq<char> {
    decode_utf16_lossy(until_nul(units))
}

/// The name held by the bytes of a property.
pub open spec fn property_name(bytes: Seq<u8>) -> Seq<char> {
    decode_utf16_lossy(until_nul(le_units(bytes)))
}

/// A size query succeeded or failed only because no buffer was given.
pub open spec fn size_known(r: Result<(), i32>) -> bool {
    r is Ok || r == Err::<(), i32>(HRESULT_INSUFFICIENT_BUFFER)
}

/// Phase and action after an answer that closes the list with `outcome`.
pub open spec fn closing(outcome: NameSearchOutcome) -> (NameSearchPhase, NameSearchAction) {
    (NameSearchPhase::Closing { outcome }, NameSearchAction::CloseDeviceList)
}

/// One step of the search for a device with path `target`: the next phase
/// and the next call.
pub open spec fn search_step(target: Seq<char>, phase: NameSearchPhase, ev: NameSearchEventView) -> (
    NameSearchPhase,
    NameSearchAction,
) {
    match (phase, ev) {
        (NameSearchPhase::Opening, NameSearchEventView::Opened(r)) => match r {
            Err(c) => (NameSearchPhase::Done, NameSearchAction::Finish(NameSearchOutcome::Failed(c))),
            Ok(false) => (NameSearchPhase::Done, NameSearchAction::Finish(NameSearchOutcome::NoName)),
            Ok(true) => (
                NameSearchPhase::Enumerating { index: 0 },
                NameSearchAction::EnumerateInterface(0),
            ),
        },
        (NameSearchPhase::Enumerating { index }, NameSearchEventView::Completed(r)) => match r {
            Ok(()) => (
                NameSearchPhase::SizingDetail { index },
                NameSearchAction::QueryDetailSize(index),
            ),
            Err(c) => if c == HRESULT_NO_MORE_ITEMS {
                closing(NameSearchOutcome::NoName)
            } else {
                closing(NameSearchOutcome::Failed(c))
            },
        },
        (NameSearchPhase::SizingDetail { index }, NameSearchEventView::Completed(r)) => {
            if size_known(r) {
                (NameSearchPhase::ReadingDetail { index }, NameSearchAction::ReadDetail(index))
            } else {
                closing(NameSearchOutcome::Failed(r->Err_0))
            }
        },
        (NameSearchPhase::ReadingDetail { index }, NameSearchEventView::DetailRead(r)) => match r {
            Err(c) => closing(NameSearchOutcome::Failed(c)),
            Ok(units) => if eq_ignore_ascii_case_spec(detail_path(units), target) {
                (
                    NameSearchPhase::ReadingDeviceInfo { index },
                    NameSearchAction::ReadDeviceInfo(index),
                )
            } else if index == u32::MAX {
                (NameSearchPhase::Done, NameSearchAction::IndexOverflow)
            } else {
                (
                    NameSearchPhase::Enumerating { index: (index + 1) as u32 },
                    NameSearchAction::EnumerateInterface((index + 1) as u32),
                )
            },
        },
        (NameSearchPhase::ReadingDeviceInfo { index }, NameSearchEventView::Completed(r)) => match r {
            Ok(()) => (
                NameSearchPhase::SizingProperty { key: 0 },
                NameSearchAction::QueryPropertySize(0),
            ),
            Err(c) => closing(NameSearchOutcome::Failed(c)),
        },
        (NameSearchPhase::SizingProperty { key }, NameSearchEventView::Completed(r)) => {
            if size_known(r) {
                (NameSearchPhase::ReadingProperty { key }, NameSearchAction::ReadProperty(key))
            } else if r == Err::<(), i32>(HRESULT_NOT_FOUND) && key + 1 < PROPERTY_KEY_COUNT {
                (
                    NameSearchPhase::SizingProperty { key: (key + 1) as usize },
                    NameSearchAction::QueryPropertySize((key + 1) as usize),
                )
            } else {
                closing(NameSearchOutcome::Failed(r->Err_0))
            }
        },
        (NameSearchPhase::ReadingProperty { key }, NameSearchEventView::PropertyRead(r)) => match r {
            Err(c) => closing(NameSearchOutcome::Failed(c)),
            Ok(_) => closing(NameSearchOutcome::Named),
        },
        (NameSearchPhase::Closing { outcome }, NameSearchEventView::Completed(r)) => match r {
            Ok(()) => (NameSearchPhase::Done, NameSearchAction::Finish(outcome)),
            Err(c) => (NameSearchPhase::Done, NameSearchAction::Finish(NameSearchOutcome::Failed(c))),
        },
        _ => (phase, NameSearchAction::Finish(NameSearchOutcome::NoName)),
    }
}

/// The name a step reads, if it reads one.
pub open spec fn name_read(phase: NameSearchPhase, ev: NameSearchEventView) -> Option<Seq<char>> {
    match (phase, ev) {
        (NameSearchPhase::ReadingProperty { .. }, NameSearchEventView::PropertyRead(Ok(bytes))) => Some(
            property_name(bytes),
        ),
        _ => None,
    }
}

/// The search for the friendly name of the device with a given path.
pub struct FriendlyNameSearch {
    target: Vec<char>,
    phase: NameSearchPhase,
    name: Option<String>,
}

impl FriendlyNameSearch {
    /// The path searched for.
    pub closed spec fn target(&self) -> Seq<char> {
        self.target@
    }

    /// The current phase.
    pub closed spec fn phase(&self) -> NameSearchPhase {
        self.phase
    }

    /// The name read so far.
    pub closed spec fn name(&self) -> Option<Seq<char>> {
        match self.name {
            Some(n) => Some(n@),
            None => None,
        }
    }

    /// Starts a search for the device whose interface path is `device_path`;
    /// the first call to make is returned beside it.
    pub fn new(device_path: &str) -> (r: (Self, NameSearchAction))
        ensures
            r.0.target() == device_path@,
            r.0.phase() == NameSearchPhase::Opening,
            r.0.name() is None,
            r.1 == NameSearchAction::OpenDeviceList,
    {
        (
            FriendlyNameSearch { target: chars_of(device_path), phase: NameSearchPhase::Opening, name: None },
            NameSearchAction::OpenDeviceList,
        )
    }

    /// The current phase.
    pub fn current_phase(&self) -> (p: NameSearchPhase)
        ensures
            p == self.phase(),
    {
        self.phase
    }

    /// The name read, once the search has read one.
    pub fn found_name(&self) -> (r: Option<String>)
        ensures
            r matches Some(n) ==> self.name() == Some(n@),
            r is None ==> self.name() is None,
    {
        match &self.name {
            Some(n) => Some(n.clone()),
            None => None,
        }
    }

    /// Hands the answer of the last call to the search and gets the next call.
    pub fn step(&mut self, event: NameSearchEvent) -> (action: NameSearchAction)
        requires
            accepts(old(self).phase(), event@),
        ensures
            (final(self).phase(), action) == search_step(old(self).target(), old(self).phase(), event@),
            final(self).target() == old(self).target(),
            final(self).name() == match name_read(old(self).phase(), event@) {
                Some(n) => Some(n),
                None => old(self).name(),
            },
    {
        let phase = self.phase;
        let (next, action) = match (phase, event) {
            (NameSearchPhase::Opening, NameSearchEvent::Opened(r)) => match r {
                Err(c) => (NameSearchPhase::Done, NameSearchAction::Finish(NameSearchOutcome::Failed(c))),
                Ok(false) => (NameSearchPhase::Done, NameSearchAction::Finish(NameSearchOutcome::NoName)),
                Ok(true) => (
                    NameSearchPhase::Enumerating { index: 0 },
                    NameSearchAction::EnumerateInterface(0),
                ),
            },
            (NameSearchPhase::Enumerating { index }, NameSearchEvent::Completed(r)) => match r {
                Ok(()) => (
                    NameSearchPhase::SizingDetail { index },
                    NameSearchAction::QueryDetailSize(index),
                ),
                Err(c) => if c == HRESULT_NO_MORE_ITEMS {
                    (
                        NameSearchPhase::Closing { outcome: NameSearchOutcome::NoName },
                        NameSearchAction::CloseDeviceList,
                    )
                } else {
                    (
                        NameSearchPhase::Closing { outcome: NameSearchOutcome::Failed(c) },
                        NameSearchAction::CloseDeviceList,
                    )
                },
            },
            (NameSearchPhase::SizingDetail { index }, NameSearchEvent::Completed(r)) => match r {
                Ok(()) => (NameSearchPhase::ReadingDetail { index }, NameSearchAction::ReadDetail(index)),
                Err(c) => if c == HRESULT_INSUFFICIENT_BUFFER {
                    (NameSearchPhase::ReadingDetail { index }, NameSearchAction::ReadDetail(index))
                } else {
                    (
                        NameSearchPhase::Closing { outcome: NameSearchOutcome::Failed(c) },
                        NameSearchAction::CloseDeviceList,
                    )
                },
            },
            (NameSearchPhase::ReadingDetail { index }, NameSearchEvent::DetailRead(r)) => match r {
                Err(c) => (
                    NameSearchPhase::Closing { outcome: NameSearchOutcome::Failed(c) },
                    NameSearchAction::CloseDeviceList,
                ),
                Ok(units) => {
                    let path_units = wide_until_nul(units.as_slice());
                    let path = decode_wide_lossy(path_units.as_slice());
                    let path_chars = chars_of(path.as_str());
                    if chars_eq_ignore_ascii_case(&path_chars, &self.target) {
                        (
                            NameSearchPhase::ReadingDeviceInfo { index },
                            NameSearchAction::ReadDeviceInfo(index),
                        )
                    } else if index == u32::MAX {
                        (NameSearchPhase::Done, NameSearchAction::IndexOverflow)
                    } else {
                        (
                            NameSearchPhase::Enumerating { index: index + 1 },
                            NameSearchAction::EnumerateInterface(index + 1),
                        )
                    }
                },
            },
            (NameSearchPhase::ReadingDeviceInfo { index }, NameSearchEvent::Completed(r)) => match r {
                Ok(()) => (
                    NameSearchPhase::SizingProperty { key: 0 },
                    NameSearchAction::QueryPropertySize(0),
                ),
                Err(c) => (
                    NameSearchPhase::Closing { outcome: NameSearchOutcome::Failed(c) },
                    NameSearchAction::CloseDeviceList,
                ),
            },
            (NameSearchPhase::SizingProperty { key }, NameSearchEvent::Completed(r)) => match r {
                Ok(()) => (NameSearchPhase::ReadingProperty { key }, NameSearchAction::ReadProperty(key)),
                Err(c) => if c == HRESULT_INSUFFICIENT_BUFFER {
                    (NameSearchPhase::ReadingProperty { key }, NameSearchAction::ReadProperty(key))
                } else if c == HRESULT_NOT_FOUND && key < PROPERTY_KEY_COUNT - 1 {
                    (
                        NameSearchPhase::SizingProperty { key: key + 1 },
                        NameSearchAction::QueryPropertySize(key + 1),
                    )
                } else {
                    (
                        NameSearchPhase::Closing { outcome: NameSearchOutcome::Failed(c) },
                        NameSearchAction::CloseDeviceList,
                    )
                },
            },
            (NameSearchPhase::ReadingProperty { key }, NameSearchEvent::PropertyRead(r)) => match r {
                Err(c) => (
                    NameSearchPhase::Closing { outcome: NameSearchOutcome::Failed(c) },
                    NameSearchAction::CloseDeviceList,
                ),
                Ok(bytes) => {
                    let units = wide_from_le_bytes(bytes.as_slice());
                    let name_units = wide_until_nul(units.as_slice());
                    self.name = Some(decode_wide_lossy(name_units.as_slice()));
                    (
                        NameSearchPhase::Closing { outcome: NameSearchOutcome::Named },
                        NameSearchAction::CloseDeviceList,
                    )
                },
            },
            (NameSearchPhase::Closing { outcome }, NameSearchEvent::Completed(r)) => match r {
                Ok(()) => (NameSearchPhase::Done, NameSearchAction::Finish(outcome)),
                Err(c) => (NameSearchPhase::Done, NameSearchAction::Finish(NameSearchOutcome::Failed(c))),
            },
            _ => (phase, NameSearchAction::Finish(NameSearchOutcome::NoName)),
        };
        self.phase = next;
        action
    }
}


// ---------------------------------------------------------------------------
// Laws
// ---------------------------------------------------------------------------

/// The phase a search in `phase` reaches after the answers `evs`, in order.
pub open spec fn run_search(target: Seq<char>, phase: NameSearchPhase, evs: Seq<NameSearchEventView>) -> NameSearchPhase
    decreases evs.len(),
{
    if evs.len() == 0 {
        phase
    } else {
        search_step(target, run_search(target, phase, evs.drop_last()), evs.last()).0
    }
}

/// One of the answers is an interface detail whose path matches `target`
/// ignoring ASCII case.
pub open spec fn read_matching_path(target: Seq<char>, evs: Seq<NameSearchEventView>) -> bool {
    exists|j: int|
        0 <= j < evs.len() && (#[trigger] evs[j] matches NameSearchEventView::DetailRead(Ok(u))
            && eq_ignore_ascii_case_spec(detail_path(u), target))
}

/// The phases that lie past the match of the device path.
pub open spec fn past_path_match(phase: NameSearchPhase) -> bool {
    ||| phase is ReadingDeviceInfo
    ||| phase is SizingProperty
    ||| phase is ReadingProperty
    ||| phase == NameSearchPhase::Closing { outcome: NameSearchOutcome::Named }
}

/// A search only reads device information and properties, and only ends
/// with a name, after it has read an interface whose path matches the path
/// searched for, ignoring ASCII case.
pub proof fn law_name_only_for_matching_path(target: Seq<char>, evs: Seq<NameSearchEventView>)
    ensures
        past_path_match(run_search(target, NameSearchPhase::Opening, evs)) ==> read_matching_path(
            target,
            evs,
        ),
        evs.len() > 0 && search_step(
            target,
            run_search(target, NameSearchPhase::Opening, evs.drop_last()),
            evs.last(),
        ).1 == NameSearchAction::Finish(NameSearchOutcome::Named) ==> read_matching_path(
            target,
            evs,
        ),
    decreases evs.len(),
{
    if evs.len() > 0 {
        let prev = evs.drop_last();
        law_name_only_for_matching_path(target, prev);
        let p = run_search(target, NameSearchPhase::Opening, prev);
        if read_matching_path(target, prev) {
            let j = choose|j: int|
                0 <= j < prev.len() && (#[trigger] prev[j] matches NameSearchEventView::DetailRead(
                    Ok(u),
                ) && eq_ignore_ascii_case_spec(detail_path(u), target));
            assert(evs[j] == prev[j]);
        }
        if !past_path_match(p) && past_path_match(run_search(target, NameSearchPhase::Opening, evs)) {
            assert(evs[evs.len() - 1] == evs.last());
        }
    }
}

/// The property key index of a search never passes the last key.
pub proof fn law_property_key_in_range(target: Seq<char>, evs: Seq<NameSearchEventView>)
    ensures
        run_search(target, NameSearchPhase::Opening, evs) matches NameSearchPhase::SizingProperty {
            key,
        } ==> key < PROPERTY_KEY_COUNT,
        run_search(target, NameSearchPhase::Opening, evs) matches NameSearchPhase::ReadingProperty {
            key,
        } ==> key < PROPERTY_KEY_COUNT,
    decreases evs.len(),
{
    if evs.len() > 0 {
        law_property_key_in_range(target, evs.drop_last());
    }
}


/// The phase of a search after the first `k` answers of `evs`.
pub open spec fn phase_at(target: Seq<char>, evs: Seq<NameSearchEventView>, k: int) -> NameSearchPhase {
    run_search(target, NameSearchPhase::Opening, evs.take(k))
}

/// The call a search asks for after the answer `evs[k]`.
pub open spec fn action_at(target: Seq<char>, evs: Seq<NameSearchEventView>, k: int) -> NameSearchAction {
    search_step(target, phase_at(target, evs, k), evs[k]).1
}

/// Every answer of `evs` is of the kind the search waits for at that point.
pub open spec fn accepted_run(target: Seq<char>, evs: Seq<NameSearchEventView>) -> bool {
    forall|k: int| 0 <= k < evs.len() ==> #[trigger] accepts(phase_at(target, evs, k), evs[k])
}

proof fn lemma_phase_after(target: Seq<char>, evs: Seq<NameSearchEventView>, k: int)
    requires
        0 <= k < evs.len(),
    ensures
        phase_at(target, evs, k + 1) == search_step(target, phase_at(target, evs, k), evs[k]).0,
{
    assert(evs.take(k + 1).drop_last() =~= evs.take(k));
    assert(evs.take(k + 1).last() == evs[k]);
}

/// Along a run of answers the search waits for, the device list is closed
/// at most once; the close is asked for exactly when the search enters its
/// closing phase; the answer to the close decides the end (a failed close
/// ends with its error, a successful one with the outcome reached before);
/// and every end after the first answer (that is, once a non-null list was
/// opened) comes right after the close.
pub proof fn law_device_list_closed_once(target: Seq<char>, evs: Seq<NameSearchEventView>)
    requires
        accepted_run(target, evs),
    ensures
        forall|i: int, j: int|
            0 <= i < j < evs.len() && action_at(target, evs, i) == NameSearchAction::CloseDeviceList
                ==> action_at(target, evs, j) != NameSearchAction::CloseDeviceList,
        forall|i: int|
            0 <= i < evs.len() ==> (action_at(target, evs, i) == NameSearchAction::CloseDeviceList
                <==> (phase_at(target, evs, i + 1) is Closing && !(phase_at(
                target,
                evs,
                i,
            ) is Closing))),
        forall|i: int|
            0 <= i && i + 1 < evs.len() && #[trigger] action_at(target, evs, i)
                == NameSearchAction::CloseDeviceList ==> action_at(target, evs, i + 1) == match evs[i
                + 1] {
                NameSearchEventView::Completed(Err(c)) => NameSearchAction::Finish(
                    NameSearchOutcome::Failed(c),
                ),
                _ => NameSearchAction::Finish(phase_at(target, evs, i + 1)->outcome),
            },
        forall|k: int|
            0 < k < evs.len() && #[trigger] action_at(target, evs, k) is Finish ==> action_at(target, evs, k - 1)
                == NameSearchAction::CloseDeviceList,
        evs.len() > 0 && evs[0] == NameSearchEventView::Opened(Ok(true)) ==> forall|k: int|
            0 <= k < evs.len() && #[trigger] action_at(target, evs, k) is Finish ==> action_at(
                target,
                evs,
                k - 1,
            ) == NameSearchAction::CloseDeviceList,
{
    assert forall|i: int|
        0 <= i < evs.len() implies (action_at(target, evs, i) == NameSearchAction::CloseDeviceList
        <==> (phase_at(target, evs, i + 1) is Closing && !(phase_at(target, evs, i) is Closing))) by {
        lemma_phase_after(target, evs, i);
        assert(accepts(phase_at(target, evs, i), evs[i]));
    }
    assert forall|i: int, j: int|
        0 <= i < j < evs.len() && action_at(target, evs, i)
            == NameSearchAction::CloseDeviceList implies action_at(target, evs, j)
        != NameSearchAction::CloseDeviceList by {
        lemma_phase_after(target, evs, i);
        lemma_phase_after(target, evs, i + 1);
        assert(accepts(phase_at(target, evs, i), evs[i]));
        assert(accepts(phase_at(target, evs, i + 1), evs[i + 1]));
        if j > i + 1 {
            assert(phase_at(target, evs, i + 2) == NameSearchPhase::Done);
            assert(accepts(phase_at(target, evs, i + 2), evs[i + 2]));
        }
    }
    assert forall|i: int|
        0 <= i && i + 1 < evs.len() && #[trigger] action_at(target, evs, i)
            == NameSearchAction::CloseDeviceList implies action_at(target, evs, i + 1) == match evs[i
        + 1] {
        NameSearchEventView::Completed(Err(c)) => NameSearchAction::Finish(
            NameSearchOutcome::Failed(c),
        ),
        _ => NameSearchAction::Finish(phase_at(target, evs, i + 1)->outcome),
    } by {
        lemma_phase_after(target, evs, i);
        assert(accepts(phase_at(target, evs, i), evs[i]));
        assert(accepts(phase_at(target, evs, i + 1), evs[i + 1]));
    }
    assert forall|k: int|
        0 < k < evs.len() && #[trigger] action_at(target, evs, k) is Finish implies action_at(target, evs, k - 1)
        == NameSearchAction::CloseDeviceList by {
        lemma_phase_after(target, evs, k - 1);
        assert(accepts(phase_at(target, evs, k - 1), evs[k - 1]));
        assert(accepts(phase_at(target, evs, k), evs[k]));
    }
    if evs.len() > 0 && evs[0] == NameSearchEventView::Opened(Ok(true)) {
        assert(evs.take(0) =~= Seq::<NameSearchEventView>::empty());
        assert(phase_at(target, evs, 0) == NameSearchPhase::Opening);
    }
}


/// After reading the detail of interface `index`, a search whose path does
/// not match goes on with the next interface, `index + 1` (or reports the
/// overflow at the last index), and one whose path matches reads the device
/// information of that same interface.
pub proof fn law_next_interface_after_mismatch(target: Seq<char>, index: u32, units: Seq<u16>)
    ensures
        !eq_ignore_ascii_case_spec(detail_path(units), target) && index < u32::MAX ==> search_step(
            target,
            NameSearchPhase::ReadingDetail { index },
            NameSearchEventView::DetailRead(Ok(units)),
        ) == (
            NameSearchPhase::Enumerating { index: (index + 1) as u32 },
            NameSearchAction::EnumerateInterface((index + 1) as u32),
        ),
        !eq_ignore_ascii_case_spec(detail_path(units), target) && index == u32::MAX ==> search_step(
            target,
            NameSearchPhase::ReadingDetail { index },
            NameSearchEventView::DetailRead(Ok(units)),
        ).1 == NameSearchAction::IndexOverflow,
        eq_ignore_ascii_case_spec(detail_path(units), target) ==> search_step(
            target,
            NameSearchPhase::ReadingDetail { index },
            NameSearchEventView::DetailRead(Ok(units)),
        ) == (NameSearchPhase::ReadingDeviceInfo { index }, NameSearchAction::ReadDeviceInfo(index)),
{
}

/// The number of interface details among the answers whose path does not
/// match `target`.
pub open spec fn mismatch_count(target: Seq<char>, evs: Seq<NameSearchEventView>) -> nat
    decreases evs.len(),
{
    if evs.len() == 0 {
        0
    } else {
        mismatch_count(target, evs.drop_last()) + match evs.last() {
            NameSearchEventView::DetailRead(Ok(u)) => if eq_ignore_ascii_case_spec(
                detail_path(u),
                target,
            ) {
                0nat
            } else {
                1nat
            },
            _ => 0nat,
        }
    }
}

/// The interface a phase works on, if any.
pub open spec fn interface_index(phase: NameSearchPhase) -> Option<u32> {
    match phase {
        NameSearchPhase::Enumerating { index } => Some(index),
        NameSearchPhase::SizingDetail { index } => Some(index),
        NameSearchPhase::ReadingDetail { index } => Some(index),
        NameSearchPhase::ReadingDeviceInfo { index } => Some(index),
        _ => None,
    }
}

proof fn lemma_accepted_prefix(target: Seq<char>, evs: Seq<NameSearchEventView>)
    requires
        evs.len() > 0,
        accepted_run(target, evs),
    ensures
        accepted_run(target, evs.drop_last()),
        accepts(run_search(target, NameSearchPhase::Opening, evs.drop_last()), evs.last()),
{
    let prev = evs.drop_last();
    assert forall|j: int| 0 <= j < prev.len() implies #[trigger] accepts(
        phase_at(target, prev, j),
        prev[j],
    ) by {
        assert(prev.take(j) =~= evs.take(j));
        assert(accepts(phase_at(target, evs, j), evs[j]));
    }
    assert(evs.take(evs.len() - 1) =~= prev);
    assert(accepts(phase_at(target, evs, evs.len() - 1), evs[evs.len() - 1]));
}

/// Along a run of answers the search waits for, the interface a phase works
/// on is always the number of interfaces read so far whose path did not
/// match: interfaces are enumerated as 0, 1, 2, ... without gaps, and the
/// device information read is that of the interface that matched.
pub proof fn law_interfaces_enumerated_in_order(target: Seq<char>, evs: Seq<NameSearchEventView>)
    requires
        accepted_run(target, evs),
    ensures
        interface_index(run_search(target, NameSearchPhase::Opening, evs)) matches Some(i) ==> i
            == mismatch_count(target, evs),
        run_search(target, NameSearchPhase::Opening, evs) == NameSearchPhase::Opening
            ==> mismatch_count(target, evs) == 0,
    decreases evs.len(),
{
    if evs.len() > 0 {
        let prev = evs.drop_last();
        lemma_accepted_prefix(target, evs);
        law_interfaces_enumerated_in_order(target, prev);
    }
}

} // verus!
