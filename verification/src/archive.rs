//! From the entries of an archive to what a session plays: the audio track,
//! the metadata, and the frames in display order.

use crate::decode::payloads;
use crate::names::classify;
use crate::names::kind_of;
use crate::names::EntryKind;
use vstd::prelude::*;

verus! {

/// One entry of an archive as it was read.
pub struct ArchiveEntry {
    /// The stem of the entry's file name, or `None` where the path has none.
    pub stem: Option<Vec<u8>>,
    /// The bytes of the entry.
    pub content: Vec<u8>,
}

/// An entry as the byte sequences it holds.
pub struct EntryView {
    /// The stem of the entry's file name, where its path has one.
    pub stem: Option<Seq<u8>>,
    /// The bytes of the entry.
    pub content: Seq<u8>,
}

impl View for ArchiveEntry {
    type V = EntryView;

    open spec fn view(&self) -> EntryView {
        EntryView {
            stem: match self.stem {
                Some(stem) => Some(stem@),
                None => None,
            },
            content: self.content@,
        }
    }
}

/// The entries of an archive as the byte sequences they hold.
pub open spec fn entry_views(entries: Seq<ArchiveEntry>) -> Seq<EntryView> {
    entries.map_values(|entry: ArchiveEntry| entry@)
}

/// What is wrong with an archive.
#[derive(Clone, Copy, Debug, PartialEq, Eq, Structural)]
pub enum LoadError {
    /// The path of the entry at this place in the archive has no file stem.
    MissingStem { entry: usize },
    /// The entry at this place in the archive has a name that is neither
    /// reserved nor a frame number.
    NonNumericName { entry: usize },
    /// No entry holds the audio track.
    MissingAudio,
}

/// What a session plays.
pub struct LoadedArchive {
    /// The audio track; it may be empty.
    pub audio: Vec<u8>,
    /// The metadata, where the archive has some.
    pub metadata: Option<Vec<u8>>,
    /// The compressed frames, the first to display first.
    pub frames: Vec<Vec<u8>>,
}

/// A loaded archive as the byte sequences it holds.
#[verifier::ext_equal]
pub struct ArchiveView {
    /// The audio track.
    pub audio: Seq<u8>,
    /// The metadata, where the archive has some.
    pub metadata: Option<Seq<u8>>,
    /// The compressed frames, in display order.
    pub frames: Seq<Seq<u8>>,
}

impl View for LoadedArchive {
    type V = ArchiveView;

    open spec fn view(&self) -> ArchiveView {
        ArchiveView {
            audio: self.audio@,
            metadata: match self.metadata {
                Some(metadata) => Some(metadata@),
                None => None,
            },
            frames: payloads(self.frames@),
        }
    }
}

/// A frame with its number.
pub struct NumberedFrame {
    /// The number that the entry's name writes.
    pub number: nat,
    /// The place of the entry in the archive.
    pub place: nat,
    /// The compressed frame.
    pub content: Seq<u8>,
}

/// What an entry holds, if its name tells.
pub open spec fn entry_kind(entry: EntryView) -> Option<EntryKind> {
    match entry.stem {
        Some(stem) => kind_of(stem),
        None => None,
    }
}

/// What is wrong with the entry at place `i`, if anything.
pub open spec fn entry_fault(entries: Seq<EntryView>, i: int) -> Option<LoadError> {
    match entries[i].stem {
        None => Some(LoadError::MissingStem { entry: i as usize }),
        Some(stem) => if kind_of(stem) is None {
            Some(LoadError::NonNumericName { entry: i as usize })
        } else {
            None
        },
    }
}

/// What is wrong with the first entry that has something wrong.
pub open spec fn first_fault(entries: Seq<EntryView>) -> Option<LoadError>
    decreases entries.len(),
{
    if entries.len() == 0 {
        None
    } else {
        match first_fault(entries.drop_last()) {
            Some(fault) => Some(fault),
            None => entry_fault(entries, entries.len() - 1),
        }
    }
}

/// The content of the first audio entry.
pub open spec fn first_audio(entries: Seq<EntryView>) -> Option<Seq<u8>>
    decreases entries.len(),
{
    if entries.len() == 0 {
        None
    } else {
        match first_audio(entries.drop_last()) {
            Some(audio) => Some(audio),
            None => if entry_kind(entries.last()) == Some(EntryKind::Audio) {
                Some(entries.last().content)
            } else {
                None
            },
        }
    }
}

/// The content of the last metadata entry.
pub open spec fn last_metadata(entries: Seq<EntryView>) -> Option<Seq<u8>>
    decreases entries.len(),
{
    if entries.len() == 0 {
        None
    } else if entry_kind(entries.last()) == Some(EntryKind::Metadata) {
        Some(entries.last().content)
    } else {
        last_metadata(entries.drop_last())
    }
}

/// Where a frame with this number goes into frames that are in order: after
/// the last frame whose number is not greater.
pub open spec fn insertion_point(ordered: Seq<NumberedFrame>, number: nat) -> int
    decreases ordered.len(),
{
    if ordered.len() == 0 {
        0
    } else if ordered.last().number <= number {
        ordered.len() as int
    } else {
        insertion_point(ordered.drop_last(), number)
    }
}

/// The frames among the entries, by ascending number; frames with one
/// number keep the order in which the archive has them.
pub open spec fn ordered_frames(entries: Seq<EntryView>) -> Seq<NumberedFrame>
    decreases entries.len(),
{
    if entries.len() == 0 {
        Seq::empty()
    } else {
        let before = ordered_frames(entries.drop_last());
        match entry_kind(entries.last()) {
            Some(EntryKind::Frame(number)) => before.insert(
                insertion_point(before, number as nat),
                NumberedFrame {
                    number: number as nat,
                    place: (entries.len() - 1) as nat,
                    content: entries.last().content,
                },
            ),
            _ => before,
        }
    }
}

/// The contents of frames.
pub open spec fn frame_contents(frames: Seq<NumberedFrame>) -> Seq<Seq<u8>> {
    frames.map_values(|frame: NumberedFrame| frame.content)
}

/// What `assemble` makes of the entries of an archive.
pub open spec fn assembled(entries: Seq<EntryView>) -> Result<ArchiveView, LoadError> {
    match first_fault(entries) {
        Some(fault) => Err(fault),
        None => match first_audio(entries) {
            None => Err(LoadError::MissingAudio),
            Some(audio) => Ok(
                ArchiveView {
                    audio,
                    metadata: last_metadata(entries),
                    frames: frame_contents(ordered_frames(entries)),
                },
            ),
        },
    }
}

/// Whether `first` comes before `second` in display order: by number, and
/// with one number by place in the archive.
pub open spec fn shown_before(first: NumberedFrame, second: NumberedFrame) -> bool {
    first.number < second.number || (first.number == second.number && first.place
        < second.place)
}

/// Each frame comes before those after it in display order.
pub open spec fn in_order(frames: Seq<NumberedFrame>) -> bool {
    forall|i: int, j: int|
        0 <= i < j < frames.len() ==> shown_before(#[trigger] frames[i], #[trigger] frames[j])
}

/// The frames at and after the insertion point have greater numbers, those
/// before it have numbers that are not greater.
pub proof fn insertion_point_splits(ordered: Seq<NumberedFrame>, number: nat)
    requires
        in_order(ordered),
    ensures
        0 <= insertion_point(ordered, number) <= ordered.len(),
        forall|i: int|
            0 <= i < insertion_point(ordered, number) ==> (#[trigger] ordered[i]).number <= number,
        forall|i: int|
            insertion_point(ordered, number) <= i < ordered.len() ==> (#[trigger] ordered[i]).number
                > number,
    decreases ordered.len(),
{
    if ordered.len() > 0 && ordered.last().number > number {
        let shorter = ordered.drop_last();
        assert(in_order(shorter)) by {
            assert forall|i: int, j: int| 0 <= i < j < shorter.len() implies shown_before(
                #[trigger] shorter[i],
                #[trigger] shorter[j],
            ) by {
                assert(shorter[i] == ordered[i] && shorter[j] == ordered[j]);
            }
        }
        insertion_point_splits(shorter, number);
        assert forall|i: int| 0 <= i < insertion_point(ordered, number) implies (
        #[trigger] ordered[i]).number <= number by {
            assert(ordered[i] == shorter[i]);
        }
        assert forall|i: int| insertion_point(ordered, number) <= i < ordered.len() implies (
        #[trigger] ordered[i]).number > number by {
            if i < shorter.len() {
                assert(ordered[i] == shorter[i]);
            }
        }
    } else if ordered.len() > 0 {
        let last = ordered.len() - 1;
        assert forall|i: int| 0 <= i < ordered.len() implies (#[trigger] ordered[i]).number
            <= number by {
            if i < last {
                assert(shown_before(ordered[i], ordered[last]));
            }
        }
    }
}

/// The frames of an archive come out in display order: by ascending number,
/// and frames with one number in the order in which the archive has them.
/// Each has the place of an entry of the archive.
pub proof fn ordered_frames_are_in_order(entries: Seq<EntryView>)
    ensures
        in_order(ordered_frames(entries)),
        forall|i: int|
            0 <= i < ordered_frames(entries).len() ==> (#[trigger] ordered_frames(
                entries,
            )[i]).place < entries.len(),
    decreases entries.len(),
{
    if entries.len() > 0 {
        ordered_frames_are_in_order(entries.drop_last());
        let before = ordered_frames(entries.drop_last());
        match entry_kind(entries.last()) {
            Some(EntryKind::Frame(number)) => {
                insertion_point_splits(before, number as nat);
                let at = insertion_point(before, number as nat);
                let frame = NumberedFrame {
                    number: number as nat,
                    place: (entries.len() - 1) as nat,
                    content: entries.last().content,
                };
                let after = before.insert(at, frame);
                assert forall|i: int| 0 <= i < after.len() implies (#[trigger] after[i]).place
                    < entries.len() by {
                    if i < at {
                        assert(after[i] == before[i]);
                    } else if i > at {
                        assert(after[i] == before[i - 1]);
                    }
                }
                assert forall|i: int, j: int| 0 <= i < j < after.len() implies shown_before(
                    #[trigger] after[i],
                    #[trigger] after[j],
                ) by {
                    if j < at {
                        assert(after[i] == before[i] && after[j] == before[j]);
                    } else if j == at {
                        assert(after[i] == before[i] && after[j] == frame);
                        assert(before[i].number <= number);
                        assert(before[i].place < entries.len() - 1);
                    } else if i < at {
                        assert(after[i] == before[i] && after[j] == before[j - 1]);
                    } else if i == at {
                        assert(after[i] == frame && after[j] == before[j - 1]);
                        assert(before[j - 1].number > number);
                    } else {
                        assert(after[i] == before[i - 1] && after[j] == before[j - 1]);
                    }
                }
            },
            _ => {},
        }
    }
}

/// The frames among the entries, in the order in which the archive has them.
pub open spec fn numbered_frames(entries: Seq<EntryView>) -> Seq<NumberedFrame>
    decreases entries.len(),
{
    if entries.len() == 0 {
        Seq::empty()
    } else {
        let before = numbered_frames(entries.drop_last());
        match entry_kind(entries.last()) {
            Some(EntryKind::Frame(number)) => before.push(
                NumberedFrame {
                    number: number as nat,
                    place: (entries.len() - 1) as nat,
                    content: entries.last().content,
                },
            ),
            _ => before,
        }
    }
}

/// Ordering the frames of an archive loses none and adds none: each frame
/// of the archive comes out as often as it went in.
pub proof fn ordered_frames_are_the_frames(entries: Seq<EntryView>)
    ensures
        ordered_frames(entries).to_multiset() == numbered_frames(entries).to_multiset(),
        ordered_frames(entries).len() == numbered_frames(entries).len(),
    decreases entries.len(),
{
    if entries.len() > 0 {
        ordered_frames_are_the_frames(entries.drop_last());
        let before = ordered_frames(entries.drop_last());
        match entry_kind(entries.last()) {
            Some(EntryKind::Frame(number)) => {
                let frame = NumberedFrame {
                    number: number as nat,
                    place: (entries.len() - 1) as nat,
                    content: entries.last().content,
                };
                ordered_frames_are_in_order(entries.drop_last());
                insertion_point_splits(before, number as nat);
                vstd::seq_lib::to_multiset_insert(
                    before,
                    insertion_point(before, number as nat),
                    frame,
                );
                vstd::seq_lib::to_multiset_build(numbered_frames(entries.drop_last()), frame);
            },
            _ => {},
        }
    }
}

/// The fault that `first_fault` gives is the fault of the entry at the
/// lowest place that has one, and it gives none only where no entry has one.
pub proof fn first_fault_is_lowest(entries: Seq<EntryView>)
    ensures
        match first_fault(entries) {
            None => forall|i: int| 0 <= i < entries.len() ==> entry_fault(entries, i) is None,
            Some(fault) => exists|i: int|
                {
                    &&& 0 <= i < entries.len()
                    &&& #[trigger] entry_fault(entries, i) == Some(fault)
                    &&& forall|j: int| 0 <= j < i ==> entry_fault(entries, j) is None
                },
        },
    decreases entries.len(),
{
    if entries.len() > 0 {
        let shorter = entries.drop_last();
        first_fault_is_lowest(shorter);
        assert forall|i: int| 0 <= i < shorter.len() implies entry_fault(shorter, i)
            == entry_fault(entries, i) by {
            assert(shorter[i] == entries[i]);
        }
        match first_fault(shorter) {
            Some(fault) => {
                let i = choose|i: int|
                    {
                        &&& 0 <= i < shorter.len()
                        &&& #[trigger] entry_fault(shorter, i) == Some(fault)
                        &&& forall|j: int| 0 <= j < i ==> entry_fault(shorter, j) is None
                    };
                assert(entry_fault(entries, i) == Some(fault));
                assert forall|j: int| 0 <= j < i implies entry_fault(entries, j) is None by {
                    assert(entry_fault(shorter, j) is None);
                }
            },
            None => {
                let last = entries.len() - 1;
                if entry_fault(entries, last) is Some {
                    assert forall|j: int| 0 <= j < last implies entry_fault(entries, j) is None by {
                        assert(entry_fault(shorter, j) is None);
                    }
                } else {
                    assert forall|i: int| 0 <= i < entries.len() implies entry_fault(entries, i)
                        is None by {
                        if i < last {
                            assert(entry_fault(shorter, i) is None);
                        }
                    }
                }
            },
        }
    }
}

/// The audio track is the content of the audio entry at the lowest place,
/// and there is none only where no entry is an audio entry.
pub proof fn first_audio_is_first(entries: Seq<EntryView>)
    ensures
        match first_audio(entries) {
            None => forall|i: int|
                0 <= i < entries.len() ==> entry_kind(#[trigger] entries[i]) != Some(
                    EntryKind::Audio,
                ),
            Some(audio) => exists|i: int|
                {
                    &&& 0 <= i < entries.len()
                    &&& entry_kind(#[trigger] entries[i]) == Some(EntryKind::Audio)
                    &&& entries[i].content == audio
                    &&& forall|j: int|
                        0 <= j < i ==> entry_kind(#[trigger] entries[j]) != Some(EntryKind::Audio)
                },
        },
    decreases entries.len(),
{
    if entries.len() > 0 {
        let shorter = entries.drop_last();
        first_audio_is_first(shorter);
        assert forall|i: int| 0 <= i < shorter.len() implies #[trigger] shorter[i]
            == entries[i] by {}
        match first_audio(shorter) {
            Some(audio) => {
                let i = choose|i: int|
                    {
                        &&& 0 <= i < shorter.len()
                        &&& entry_kind(#[trigger] shorter[i]) == Some(EntryKind::Audio)
                        &&& shorter[i].content == audio
                        &&& forall|j: int|
                            0 <= j < i ==> entry_kind(#[trigger] shorter[j]) != Some(
                                EntryKind::Audio,
                            )
                    };
                assert(entries[i] == shorter[i]);
                assert forall|j: int| 0 <= j < i implies entry_kind(#[trigger] entries[j])
                    != Some(EntryKind::Audio) by {
                    assert(entries[j] == shorter[j]);
                }
            },
            None => {
                let last = entries.len() - 1;
                assert forall|j: int| 0 <= j < last implies entry_kind(#[trigger] entries[j])
                    != Some(EntryKind::Audio) by {
                    assert(entries[j] == shorter[j]);
                }
                if entry_kind(entries.last()) == Some(EntryKind::Audio) {
                    assert(entries[last] == entries.last());
                }
            },
        }
    }
}

/// The metadata is the content of the metadata entry at the highest place,
/// and there is none only where no entry is a metadata entry.
pub proof fn last_metadata_is_last(entries: Seq<EntryView>)
    ensures
        match last_metadata(entries) {
            None => forall|i: int|
                0 <= i < entries.len() ==> entry_kind(#[trigger] entries[i]) != Some(
                    EntryKind::Metadata,
                ),
            Some(metadata) => exists|i: int|
                {
                    &&& 0 <= i < entries.len()
                    &&& entry_kind(#[trigger] entries[i]) == Some(EntryKind::Metadata)
                    &&& entries[i].content == metadata
                    &&& forall|j: int|
                        i < j < entries.len() ==> entry_kind(#[trigger] entries[j]) != Some(
                            EntryKind::Metadata,
                        )
                },
        },
    decreases entries.len(),
{
    if entries.len() > 0 {
        let last = entries.len() - 1;
        if entry_kind(entries.last()) == Some(EntryKind::Metadata) {
            assert(entries[last] == entries.last());
        } else {
            let shorter = entries.drop_last();
            last_metadata_is_last(shorter);
            assert forall|i: int| 0 <= i < shorter.len() implies #[trigger] shorter[i]
                == entries[i] by {}
            match last_metadata(shorter) {
                Some(metadata) => {
                    let i = choose|i: int|
                        {
                            &&& 0 <= i < shorter.len()
                            &&& entry_kind(#[trigger] shorter[i]) == Some(EntryKind::Metadata)
                            &&& shorter[i].content == metadata
                            &&& forall|j: int|
                                i < j < shorter.len() ==> entry_kind(#[trigger] shorter[j])
                                    != Some(EntryKind::Metadata)
                        };
                    assert(entries[i] == shorter[i]);
                    assert forall|j: int| i < j < entries.len() implies entry_kind(
                        #[trigger] entries[j],
                    ) != Some(EntryKind::Metadata) by {
                        if j < last {
                            assert(entries[j] == shorter[j]);
                        }
                    }
                },
                None => {
                    assert forall|i: int| 0 <= i < entries.len() implies entry_kind(
                        #[trigger] entries[i],
                    ) != Some(EntryKind::Metadata) by {
                        if i < last {
                            assert(entries[i] == shorter[i]);
                        }
                    }
                },
            }
        }
    }
}

/// A fault among the first entries of an archive is the fault of the whole
/// archive: what comes after the first fault does not matter.
pub proof fn first_fault_stands(entries: Seq<EntryView>, count: int)
    requires
        0 <= count <= entries.len(),
        first_fault(entries.take(count)) is Some,
    ensures
        first_fault(entries) == first_fault(entries.take(count)),
    decreases entries.len() - count,
{
    if count == entries.len() {
        assert(entries.take(count) == entries);
    } else {
        let shorter = entries.drop_last();
        assert(shorter.take(count) == entries.take(count));
        first_fault_stands(shorter, count);
    }
}

/// The frame number does not change where a frame goes among the frames
/// after it with greater numbers.
proof fn insertion_point_skips_greater(ordered: Seq<NumberedFrame>, number: nat, at: int)
    requires
        0 <= at <= ordered.len(),
        forall|i: int| at <= i < ordered.len() ==> (#[trigger] ordered[i]).number > number,
    ensures
        insertion_point(ordered, number) == insertion_point(ordered.take(at), number),
    decreases ordered.len() - at,
{
    if at == ordered.len() {
        assert(ordered.take(at) == ordered);
    } else {
        let shorter = ordered.drop_last();
        assert(ordered[ordered.len() - 1].number > number);
        assert(shorter.take(at) == ordered.take(at));
        assert forall|i: int| at <= i < shorter.len() implies (#[trigger] shorter[i]).number
            > number by {
            assert(shorter[i] == ordered[i]);
        }
        insertion_point_skips_greater(shorter, number, at);
    }
}

/// An archive in the making: entries are added in the order in which the
/// archive has them, and every entry taken so far is in order.
pub struct ArchiveBuilder {
    audio: Option<Vec<u8>>,
    metadata: Option<Vec<u8>>,
    numbers: Vec<usize>,
    frames: Vec<Vec<u8>>,
    taken: usize,
    entries: Ghost<Seq<EntryView>>,
}

impl View for ArchiveBuilder {
    type V = Seq<EntryView>;

    /// The entries taken so far.
    closed spec fn view(&self) -> Seq<EntryView> {
        self.entries@
    }
}

impl ArchiveBuilder {
    #[verifier::type_invariant]
    spec fn holds_entries(self) -> bool {
        &&& self.taken == self.entries@.len()
        &&& first_fault(self.entries@) is None
        &&& match self.audio {
            Some(bytes) => first_audio(self.entries@) == Some(bytes@),
            None => first_audio(self.entries@) is None,
        }
        &&& match self.metadata {
            Some(bytes) => last_metadata(self.entries@) == Some(bytes@),
            None => last_metadata(self.entries@) is None,
        }
        &&& self.numbers.len() == ordered_frames(self.entries@).len()
        &&& self.frames.len() == self.numbers.len()
        &&& forall|j: int|
            0 <= j < self.numbers.len() ==> {
                &&& (#[trigger] ordered_frames(self.entries@)[j]).number == self.numbers[j]
                &&& ordered_frames(self.entries@)[j].content == self.frames[j]@
            }
    }

    /// A builder that has taken no entry.
    pub fn new() -> (r: Self)
        ensures
            r@ == Seq::<EntryView>::empty(),
    {
        ArchiveBuilder {
            audio: None,
            metadata: None,
            numbers: Vec::new(),
            frames: Vec::new(),
            taken: 0,
            entries: Ghost(Seq::empty()),
        }
    }

    /// How many entries have been taken. Nothing is wrong with any of them.
    pub fn len(&self) -> (r: usize)
        ensures
            r == self@.len(),
            first_fault(self@) is None,
    {
        proof {
            use_type_invariant(self);
        }
        self.taken
    }

    /// Takes the next entry of the archive. An entry without a stem, or
    /// with a name that is neither reserved nor a frame number, is refused
    /// with its place in the archive, and the archive with it.
    pub fn add(self, entry: ArchiveEntry) -> (r: Result<Self, LoadError>)
        requires
            self@.len() < usize::MAX,
        ensures
            match r {
                Ok(builder) => {
                    &&& entry_fault(self@.push(entry@), self@.len() as int) is None
                    &&& builder@ == self@.push(entry@)
                },
                Err(fault) => {
                    &&& entry_fault(self@.push(entry@), self@.len() as int) == Some(fault)
                    &&& first_fault(self@.push(entry@)) == Some(fault)
                },
            },
    {
        proof {
            use_type_invariant(&self);
        }
        let ghost seen = self@;
        let ghost ordered = ordered_frames(seen);
        let ghost longer = seen.push(entry@);
        let ArchiveBuilder { audio, metadata, numbers, frames, taken, .. } = self;
        let mut audio = audio;
        let mut metadata = metadata;
        let mut numbers = numbers;
        let mut frames = frames;
        proof {
            assert(longer.drop_last() == seen);
            assert(longer.last() == entry@);
        }
        let kind = match &entry.stem {
            None => {
                return Err(LoadError::MissingStem { entry: taken });
            },
            Some(stem) => match classify(stem) {
                None => {
                    return Err(LoadError::NonNumericName { entry: taken });
                },
                Some(kind) => kind,
            },
        };
        match kind {
            EntryKind::Audio => {
                if audio.is_none() {
                    audio = Some(entry.content);
                }
            },
            EntryKind::Metadata => {
                metadata = Some(entry.content);
            },
            EntryKind::Frame(number) => {
                let mut at: usize = numbers.len();
                while at > 0 && numbers[at - 1] > number
                    invariant
                        at <= numbers.len(),
                        numbers.len() == ordered.len(),
                        forall|j: int|
                            0 <= j < numbers.len() ==> (#[trigger] ordered[j]).number
                                == numbers[j],
                        forall|j: int|
                            at <= j < ordered.len() ==> (#[trigger] ordered[j]).number > number,
                    decreases at,
                {
                    at = at - 1;
                }
                proof {
                    insertion_point_skips_greater(ordered, number as nat, at as int);
                    if at > 0 {
                        assert(ordered.take(at as int).last() == ordered[at - 1]);
                    }
                    assert(insertion_point(ordered, number as nat) == at);
                }
                numbers.insert(at, number);
                frames.insert(at, entry.content);
            },
        }
        Ok(
            ArchiveBuilder {
                audio,
                metadata,
                numbers,
                frames,
                taken: taken + 1,
                entries: Ghost(longer),
            },
        )
    }

    /// Ends the archive. The first entry named `audio` is the audio track,
    /// the last entry named `metadata` is the metadata, and the frames come
    /// out by ascending number. An archive without an audio entry is
    /// refused.
    pub fn finish(self) -> (r: Result<LoadedArchive, LoadError>)
        ensures
            match r {
                Ok(archive) => assembled(self@) == Ok::<ArchiveView, LoadError>(archive@),
                Err(fault) => assembled(self@) == Err::<ArchiveView, LoadError>(fault),
            },
    {
        proof {
            use_type_invariant(&self);
        }
        let ghost ordered = ordered_frames(self@);
        let ArchiveBuilder { audio, metadata, frames, .. } = self;
        match audio {
            None => Err(LoadError::MissingAudio),
            Some(audio) => {
                let archive = LoadedArchive { audio, metadata, frames };
                proof {
                    assert(archive@.frames =~= frame_contents(ordered)) by {
                        assert forall|j: int| 0 <= j < frames.len() implies archive@.frames[j]
                            == frame_contents(ordered)[j] by {
                            assert(ordered[j].content == frames[j]@);
                        }
                    }
                }
                Ok(archive)
            },
        }
    }
}

/// Sorts the entries of an archive into what a session plays. The first
/// entry named `audio` is the audio track and the last entry named
/// `metadata` is the metadata; every other entry must be named by a frame
/// number, and the frames come out by ascending number. The archive is
/// refused for its first entry without a stem or with another name, and,
/// where every entry is in order, for want of an audio entry.
pub fn assemble(entries: Vec<ArchiveEntry>) -> (r: Result<LoadedArchive, LoadError>)
    ensures
        match r {
            Ok(archive) => assembled(entry_views(entries@)) == Ok::<ArchiveView, LoadError>(
                archive@,
            ),
            Err(fault) => assembled(entry_views(entries@)) == Err::<ArchiveView, LoadError>(fault),
        },
{
    let ghost views = entry_views(entries@);
    let count = entries.len();
    let mut builder = ArchiveBuilder::new();
    assert(views.take(0) == Seq::<EntryView>::empty());
    for entry in it: entries
        invariant
            it.seq() == entries@,
            it.seq().len() == count,
            views == entry_views(entries@),
            builder@ == views.take(it.index()),
    {
        let ghost place = it.index();
        proof {
            assert(place < count);
            assert(views[place] == entry@);
            assert(views.take(place).push(entry@) == views.take(place + 1));
        }
        match builder.add(entry) {
            Ok(longer) => {
                builder = longer;
            },
            Err(fault) => {
                proof {
                    first_fault_stands(views, place + 1);
                }
                return Err(fault);
            },
        }
    }
    assert(views.take(count as int) == views);
    builder.finish()
}

} // verus!
