//! From the number of chapters found and the range asked for to the list of
//! volumes to build, each with its chapters.

use vstd::prelude::*;
use vstd::arithmetic::div_mod::lemma_fundamental_div_mod_converse;
use crate::calc::{ceil_div, ceil_div_spec, decimal_digits, decimal_width};
use crate::error::EncodingError;

verus! {

/// How chapters are spread over volumes.
#[derive(Clone, Copy, Debug, PartialEq, Eq, Structural)]
pub enum Method {
    /// A fixed number of chapters in each volume.
    Compile(u16),
    /// Each chapter in a volume of its own.
    Individual,
    /// All chapters in a single volume.
    Single,
}

impl Method {
    /// The largest number of chapters that a volume may hold.
    pub open spec fn volume_size(self) -> nat {
        match self {
            Method::Compile(chapters) => chapters as nat,
            Method::Individual => 1,
            Method::Single => u16::MAX as nat,
        }
    }

    /// The largest number of chapters that a volume may hold.
    pub fn chapters_per_volume(&self) -> (size: u16)
        ensures
            size == self.volume_size(),
    {
        match self {
            Method::Compile(chapters) => *chapters,
            Method::Individual => 1,
            Method::Single => u16::MAX,
        }
    }
}

/// A chapter that was selected for encoding.
#[derive(Clone, Copy, Debug, PartialEq, Eq, Structural)]
pub struct Chapter {
    /// Its position among the selected chapters, counted from one.
    pub ordinal: usize,
    /// Its position among the chapters that were found, counted from zero.
    pub source: usize,
}

/// The chapters that go into one volume.
#[derive(Clone, Debug, PartialEq, Eq)]
pub struct VolumeBatch {
    /// The volume's number, counted from one.
    pub volume_index: usize,
    /// The ordinal of the volume's first chapter.
    pub starting_chapter_ordinal: usize,
    /// The volume's chapters, in order.
    pub chapters: Vec<Chapter>,
}

/// The volumes to build, and the widths to write their numbers with.
#[derive(Clone, Debug, PartialEq, Eq)]
pub struct CompilationPlan {
    /// How many chapters were found.
    pub total_chapters_available: usize,
    /// Where the selected chapters start among those found, counted from
    /// zero.
    pub selected_start: usize,
    /// Where the selected chapters end among those found: the position behind
    /// the last one.
    pub selected_end: usize,
    /// The largest number of chapters in a volume.
    pub chapters_per_volume: usize,
    /// The volumes, in order.
    pub volumes: Vec<VolumeBatch>,
    /// The number of digits to write a volume's number with.
    pub volume_number_width: usize,
    /// The number of digits to write a chapter's number with.
    pub chapter_number_width: usize,
}

/// The fault in a range of chapters, if it has one. The tests are made in
/// this order: the volume size, the start, the end, then one against the
/// other.
pub open spec fn range_error(method: Method, start: Option<usize>, end: Option<usize>) -> Option<
    EncodingError,
> {
    if method.volume_size() == 0 {
        Some(EncodingError::AtLeast1ChapterPerVolume)
    } else if start == Some(0usize) {
        Some(EncodingError::InvalidStartChapter)
    } else if end == Some(0usize) {
        Some(EncodingError::InvalidEndChapter)
    } else if start is Some && end is Some && end->0 < start->0 {
        Some(EncodingError::StartChapterCannotBeHigherThanEndChapter)
    } else {
        None
    }
}

/// The position, counted from zero, of the first chapter to select: the
/// start chapter is counted from one, and is the first chapter by default.
pub open spec fn first_selected(start: Option<usize>) -> nat {
    match start {
        Some(chapter) => if chapter > 0 { (chapter - 1) as nat } else { 0 },
        None => 0,
    }
}

/// The end of the selection, as a position among the chapters found. The end
/// chapter asked for, by default the last one found, is cut down to the
/// chapters that are left behind the first selected one; for a single volume
/// it is cut down first to one volume's worth of chapters from the start.
pub open spec fn resolved_end(
    method: Method,
    start: Option<usize>,
    end: Option<usize>,
    total: nat,
) -> nat {
    let first = first_selected(start);
    let asked: nat = match end {
        Some(chapter) => chapter as nat,
        None => total,
    };
    let wanted = if method == Method::Single && first + method.volume_size() < asked {
        first + method.volume_size()
    } else {
        asked
    };
    let left: nat = if first <= total { (total - first) as nat } else { 0 };
    if wanted < left {
        wanted
    } else {
        left
    }
}

/// How many chapters are selected: those from the first selected one up to
/// the resolved end, none if the end does not lie behind the start.
pub open spec fn selected_count(
    method: Method,
    start: Option<usize>,
    end: Option<usize>,
    total: nat,
) -> nat {
    let first = first_selected(start);
    let last = resolved_end(method, start, end, total);
    if last > first {
        (last - first) as nat
    } else {
        0
    }
}

/// The number of chapters in volume `volume` (counted from zero) when
/// `count` chapters are spread over volumes of `size`.
pub open spec fn batch_len(count: nat, size: nat, volume: nat) -> nat {
    if volume * size >= count {
        0
    } else if count - volume * size < size {
        (count - volume * size) as nat
    } else {
        size
    }
}

/// Chapter `index` (from zero) of volume `volume` (from zero), where the
/// selection starts at position `first` and volumes hold `size` chapters.
pub open spec fn chapter_at(first: nat, size: nat, volume: nat, index: nat) -> Chapter {
    Chapter {
        ordinal: (volume * size + index + 1) as usize,
        source: (first + volume * size + index) as usize,
    }
}

/// The chapters of volume `volume` (from zero).
pub open spec fn batch_chapters(first: nat, count: nat, size: nat, volume: nat) -> Seq<Chapter> {
    Seq::new(batch_len(count, size, volume), |i: int| chapter_at(first, size, volume, i as nat))
}

/// Whether `batch` is volume `volume` (from zero) of the selection.
pub open spec fn is_batch(batch: VolumeBatch, first: nat, count: nat, size: nat, volume: nat) -> bool {
    &&& batch.volume_index == volume + 1
    &&& batch.starting_chapter_ordinal == volume * size + 1
    &&& batch.chapters@ == batch_chapters(first, count, size, volume)
}

/// Whether `plan` is the plan for the given request over `total` chapters.
pub open spec fn is_plan(
    plan: CompilationPlan,
    method: Method,
    start: Option<usize>,
    end: Option<usize>,
    total: nat,
) -> bool {
    let first = first_selected(start);
    let count = selected_count(method, start, end, total);
    let size = method.volume_size();
    &&& plan.total_chapters_available == total
    &&& plan.chapters_per_volume == size
    &&& plan.selected_start == first
    &&& plan.selected_end == first + count
    &&& plan.volume_number_width == decimal_width(ceil_div_spec(total, size))
    &&& plan.chapter_number_width == decimal_width(total)
    &&& plan.volumes@.len() == ceil_div_spec(count, size)
    &&& forall|v: int|
        0 <= v < plan.volumes@.len() ==> is_batch(
            #[trigger] plan.volumes@[v],
            first,
            count,
            size,
            v as nat,
        )
}

/// Tests a range of chapters before anything is read.
pub fn check_range(method: Method, start: Option<usize>, end: Option<usize>) -> (checked: Result<
    (),
    EncodingError,
>)
    ensures
        match checked {
            Ok(_) => range_error(method, start, end) is None,
            Err(error) => range_error(method, start, end) == Some(error),
        },
{
    if method.chapters_per_volume() == 0 {
        return Err(EncodingError::AtLeast1ChapterPerVolume);
    }
    if let Some(chapter) = start {
        if chapter == 0 {
            return Err(EncodingError::InvalidStartChapter);
        }
    }
    if let Some(chapter) = end {
        if chapter == 0 {
            return Err(EncodingError::InvalidEndChapter);
        }
    }
    if let Some(first) = start {
        if let Some(last) = end {
            if last < first {
                return Err(EncodingError::StartChapterCannotBeHigherThanEndChapter);
            }
        }
    }
    Ok(())
}

/// Resolves the range asked for against the number of chapters found: the
/// position of the first selected chapter, and how many are selected.
pub fn resolve_selection(
    method: Method,
    start: Option<usize>,
    end: Option<usize>,
    total: usize,
) -> (selection: (usize, usize))
    ensures
        selection.0 == first_selected(start),
        selection.1 == selected_count(method, start, end, total as nat),
        selection.1 > 0 ==> selection.0 + selection.1 <= total,
{
    let first: usize = match start {
        Some(chapter) => if chapter > 0 {
            chapter - 1
        } else {
            0
        },
        None => 0,
    };
    let asked: usize = match end {
        Some(chapter) => chapter,
        None => total,
    };
    let size: usize = method.chapters_per_volume() as usize;
    let wanted: usize = match method {
        Method::Single => {
            if asked > first && asked - first > size {
                first + size
            } else {
                asked
            }
        },
        _ => asked,
    };
    let left: usize = if first <= total {
        total - first
    } else {
        0
    };
    let last: usize = if wanted < left {
        wanted
    } else {
        left
    };
    let count: usize = if last > first {
        last - first
    } else {
        0
    };
    (first, count)
}

/// Spreads `count` chapters, the first of which stands at position `first`
/// among those found, over volumes of at most `size` chapters: the chapters
/// are taken in order, a volume is closed as soon as it is full, and what is
/// left at the end makes a last, smaller volume.
pub fn batch_chapters_into_volumes(first: usize, count: usize, size: usize) -> (volumes: Vec<
    VolumeBatch,
>)
    requires
        size > 0,
        first + count <= usize::MAX,
    ensures
        volumes@.len() == ceil_div_spec(count as nat, size as nat),
        forall|v: int|
            0 <= v < volumes@.len() ==> is_batch(
                #[trigger] volumes@[v],
                first as nat,
                count as nat,
                size as nat,
                v as nat,
            ),
{
    let mut volumes: Vec<VolumeBatch> = Vec::new();
    let mut current: Vec<Chapter> = Vec::new();
    let mut taken: usize = 0;
    assert(0 == 0 * size) by (nonlinear_arith);
    while taken < count
        invariant
            size > 0,
            first + count <= usize::MAX,
            taken <= count,
            taken == volumes@.len() * size + current@.len(),
            current@.len() < size,
            forall|v: int|
                0 <= v < volumes@.len() ==> is_batch(
                    #[trigger] volumes@[v],
                    first as nat,
                    count as nat,
                    size as nat,
                    v as nat,
                ),
            forall|i: int|
                0 <= i < current@.len() ==> #[trigger] current@[i] == chapter_at(
                    first as nat,
                    size as nat,
                    volumes@.len(),
                    i as nat,
                ),
        decreases count - taken,
    {
        let ghost full = volumes@.len();
        current.push(Chapter { ordinal: taken + 1, source: first + taken });
        taken = taken + 1;
        if current.len() == size {
            assert((full + 1) * size == full * size + size) by (nonlinear_arith);
            proof {
                assert(full * size < count);
                assert(count - full * size >= size);
                assert(batch_len(count as nat, size as nat, full) == size);
                assert(current@ =~= batch_chapters(first as nat, count as nat, size as nat, full));
            }
            let starting: usize = taken - size + 1;
            assert(volumes.len() < count) by (nonlinear_arith)
                requires
                    volumes.len() * size + size <= count,
                    size > 0,
            ;
            let batch = VolumeBatch {
                volume_index: volumes.len() + 1,
                starting_chapter_ordinal: starting,
                chapters: current,
            };
            volumes.push(batch);
            current = Vec::new();
        }
    }
    let ghost full = volumes@.len();
    proof {
        lemma_fundamental_div_mod_converse(
            count as int,
            size as int,
            full as int,
            current@.len() as int,
        );
    }
    if current.len() != 0 {
        proof {
            assert(batch_len(count as nat, size as nat, full) == current@.len());
            assert(current@ =~= batch_chapters(first as nat, count as nat, size as nat, full));
        }
        let starting: usize = taken - current.len() + 1;
        assert(volumes.len() < count) by (nonlinear_arith)
            requires
                volumes.len() * size + current.len() == count,
                current.len() > 0,
                size > 0,
        ;
        let batch = VolumeBatch {
            volume_index: volumes.len() + 1,
            starting_chapter_ordinal: starting,
            chapters: current,
        };
        volumes.push(batch);
    }
    volumes
}

/// Plans the volumes for a request over `total` chapters. A request with a
/// faulty range is refused; one that selects no chapter gets a plan without
/// volumes.
pub fn plan_volumes(
    method: Method,
    start: Option<usize>,
    end: Option<usize>,
    total: usize,
) -> (planned: Result<CompilationPlan, EncodingError>)
    ensures
        match planned {
            Ok(plan) => range_error(method, start, end) is None && is_plan(
                plan,
                method,
                start,
                end,
                total as nat,
            ),
            Err(error) => range_error(method, start, end) == Some(error),
        },
{
    match check_range(method, start, end) {
        Err(error) => {
            return Err(error);
        },
        Ok(_) => {},
    }
    let size: usize = method.chapters_per_volume() as usize;
    let (first, count) = resolve_selection(method, start, end, total);
    let volumes = batch_chapters_into_volumes(first, count, size);
    let untrimmed_volumes = ceil_div(total, size);
    Ok(
        CompilationPlan {
            total_chapters_available: total,
            selected_start: first,
            selected_end: first + count,
            chapters_per_volume: size,
            volumes,
            volume_number_width: decimal_digits(untrimmed_volumes),
            chapter_number_width: decimal_digits(total),
        },
    )
}

} // verus!
