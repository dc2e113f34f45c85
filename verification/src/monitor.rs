//! The rules that turn one round of raw system readings into the statistics
//! the overlay shows: which temperature sensors stand for the CPU and the
//! board, which mounted file systems are shown, and how network counters
//! become per-interval traffic.
use vstd::prelude::*;
use crate::config::{Config, texts};
use crate::text::{contains_text, has_substring, text_equals};

verus! {

// ---------------------------------------------------------------- sensors

/// What `str::to_lowercase` gives for a text.
pub uninterp spec fn lowercase(s: Seq<char>) -> Seq<char>;

/// Calls `str::to_lowercase`. The contract claims only that the result is a
/// function of the text (named `lowercase`); the Unicode case mapping itself
/// is not stated.
#[verifier::external_body]
fn to_lowercase(s: &str) -> (lower: String)
    ensures
        lower@ == lowercase(s@),
{
    s.to_lowercase()
}

/// A lower-cased sensor label that names a CPU sensor.
pub open spec fn is_cpu_label(label: Seq<char>) -> bool {
    ||| has_substring(label, "cpu"@)
    ||| has_substring(label, "core"@)
    ||| has_substring(label, "k10temp"@)
    ||| has_substring(label, "tctl"@)
}

/// A lower-cased sensor label that names a board (system) sensor.
pub open spec fn is_board_label(label: Seq<char>) -> bool {
    ||| has_substring(label, "temp"@)
    ||| has_substring(label, "mb"@)
    ||| has_substring(label, "board"@)
    ||| has_substring(label, "acpi"@)
    ||| has_substring(label, "edge"@)
}

/// Whether a lower-cased sensor label names a CPU sensor.
pub fn cpu_label(label: &str) -> (is_cpu: bool)
    ensures
        is_cpu == is_cpu_label(label@),
        is_cpu == (has_substring(label@, "cpu"@) || has_substring(label@, "core"@) || has_substring(
            label@,
            "k10temp"@,
        ) || has_substring(label@, "tctl"@)),
{
    contains_text(label, "cpu") || contains_text(label, "core") || contains_text(label, "k10temp")
        || contains_text(label, "tctl")
}

/// Whether a lower-cased sensor label names a board (system) sensor.
pub fn board_label(label: &str) -> (is_board: bool)
    ensures
        is_board == is_board_label(label@),
        is_board == (has_substring(label@, "temp"@) || has_substring(label@, "mb"@)
            || has_substring(label@, "board"@) || has_substring(label@, "acpi"@) || has_substring(
            label@,
            "edge"@,
        )),
{
    contains_text(label, "temp") || contains_text(label, "mb") || contains_text(label, "board")
        || contains_text(label, "acpi") || contains_text(label, "edge")
}

/// Sensor `i` can stand for the CPU (or, with `cpu` false, the board): its
/// lower-cased label fits and it reads something other than zero.
pub open spec fn usable(lowered: Seq<Seq<char>>, at_zero: Seq<bool>, i: int, cpu: bool) -> bool {
    &&& (if cpu {
        is_cpu_label(lowered[i])
    } else {
        is_board_label(lowered[i])
    })
    &&& !at_zero[i]
}

/// `pick` is the first usable sensor, or `None` when no sensor is usable.
pub open spec fn first_usable(
    lowered: Seq<Seq<char>>,
    at_zero: Seq<bool>,
    cpu: bool,
    pick: Option<usize>,
) -> bool {
    match pick {
        Some(i) => {
            &&& i < lowered.len()
            &&& usable(lowered, at_zero, i as int, cpu)
            &&& forall|j: int| 0 <= j < i ==> !usable(lowered, at_zero, j, cpu)
        },
        None => forall|j: int| 0 <= j < lowered.len() ==> !usable(lowered, at_zero, j, cpu),
    }
}

/// The sensors chosen to stand for the CPU and for the board. Where none is
/// chosen the application shows its fixed default reading.
#[derive(Debug, Clone, Copy)]
pub struct SensorChoice {
    pub cpu: Option<usize>,
    pub board: Option<usize>,
}

/// Chooses, among sensors with lower-cased labels `lowered` (sensor `i`
/// reading exactly zero where `at_zero[i]`), the first usable CPU sensor and
/// the first usable board sensor. One sensor may serve for both.
pub fn choose_sensors(lowered: &Vec<String>, at_zero: &Vec<bool>) -> (choice: SensorChoice)
    requires
        lowered.len() == at_zero.len(),
    ensures
        first_usable(texts(lowered@), at_zero@, true, choice.cpu),
        first_usable(texts(lowered@), at_zero@, false, choice.board),
{
    let ghost labels = texts(lowered@);
    let mut cpu: Option<usize> = None;
    let mut board: Option<usize> = None;
    let n = lowered.len();
    for i in 0..n
        invariant
            n == lowered.len(),
            n == at_zero.len(),
            labels == texts(lowered@),
            match cpu {
                Some(k) => k < i && usable(labels, at_zero@, k as int, true) && forall|j: int|
                    0 <= j < k ==> !usable(labels, at_zero@, j, true),
                None => forall|j: int| 0 <= j < i ==> !usable(labels, at_zero@, j, true),
            },
            match board {
                Some(k) => k < i && usable(labels, at_zero@, k as int, false) && forall|j: int|
                    0 <= j < k ==> !usable(labels, at_zero@, j, false),
                None => forall|j: int| 0 <= j < i ==> !usable(labels, at_zero@, j, false),
            },
    {
        let label = lowered[i].as_str();
        assert(labels[i as int] == label@);
        if cpu.is_none() && !at_zero[i] && cpu_label(label) {
            cpu = Some(i);
        }
        if board.is_none() && !at_zero[i] && board_label(label) {
            board = Some(i);
        }
    }
    SensorChoice { cpu, board }
}

/// The lower-cased texts of a vector of labels.
pub open spec fn lowered_texts(labels: Seq<String>) -> Seq<Seq<char>> {
    labels.map_values(|s: String| lowercase(s@))
}

/// Chooses the CPU and board sensors from the sensors' labels as reported
/// (any case): labels are compared lower-cased, sensor `i` reading exactly
/// zero where `at_zero[i]`.
pub fn choose_temperature_sensors(labels: &Vec<String>, at_zero: &Vec<bool>) -> (choice:
    SensorChoice)
    requires
        labels.len() == at_zero.len(),
    ensures
        first_usable(lowered_texts(labels@), at_zero@, true, choice.cpu),
        first_usable(lowered_texts(labels@), at_zero@, false, choice.board),
{
    let mut lowered: Vec<String> = Vec::new();
    let n = labels.len();
    for i in 0..n
        invariant
            n == labels.len(),
            lowered.len() == i,
            forall|j: int| 0 <= j < i ==> #[trigger] lowered@[j]@ == lowercase(labels@[j]@),
    {
        lowered.push(to_lowercase(labels[i].as_str()));
    }
    assert(texts(lowered@) =~= lowered_texts(labels@));
    choose_sensors(&lowered, at_zero)
}

/// When some sensor can stand for the CPU (or the board), one is chosen, and
/// it comes no later than that sensor.
pub proof fn usable_sensor_is_chosen(
    lowered: Seq<Seq<char>>,
    at_zero: Seq<bool>,
    cpu: bool,
    pick: Option<usize>,
    i: int,
)
    requires
        first_usable(lowered, at_zero, cpu, pick),
        0 <= i < lowered.len(),
        usable(lowered, at_zero, i, cpu),
    ensures
        pick matches Some(k) && k <= i,
{
}

/// A label counts as a CPU label exactly when it contains one of `cpu`,
/// `core`, `k10temp` or `tctl`, and as a board label exactly when it contains
/// one of `temp`, `mb`, `board`, `acpi` or `edge`. So the sensor chosen for
/// the CPU always has one of the CPU keywords in its label and reads
/// something other than zero (a label such as `acpitz temp1` is never taken
/// for the CPU), and likewise for the board.
pub proof fn chosen_sensors_carry_their_keywords(
    lowered: Seq<Seq<char>>,
    at_zero: Seq<bool>,
    choice: SensorChoice,
    label: Seq<char>,
)
    ensures
        is_cpu_label(label) <==> (has_substring(label, "cpu"@) || has_substring(label, "core"@)
            || has_substring(label, "k10temp"@) || has_substring(label, "tctl"@)),
        is_board_label(label) <==> (has_substring(label, "temp"@) || has_substring(label, "mb"@)
            || has_substring(label, "board"@) || has_substring(label, "acpi"@) || has_substring(
            label,
            "edge"@,
        )),
        first_usable(lowered, at_zero, true, choice.cpu) ==> (choice.cpu matches Some(i) ==> {
            let l = lowered[i as int];
            &&& has_substring(l, "cpu"@) || has_substring(l, "core"@) || has_substring(
                l,
                "k10temp"@,
            ) || has_substring(l, "tctl"@)
            &&& !at_zero[i as int]
        }),
        first_usable(lowered, at_zero, false, choice.board) ==> (choice.board matches Some(i) ==> {
            let l = lowered[i as int];
            &&& has_substring(l, "temp"@) || has_substring(l, "mb"@) || has_substring(
                l,
                "board"@,
            ) || has_substring(l, "acpi"@) || has_substring(l, "edge"@)
            &&& !at_zero[i as int]
        }),
{
}

// ---------------------------------------------------------------- storage

/// A path segment kept as a component: not empty and not `.`.
pub open spec fn kept_piece(piece: Seq<char>) -> Seq<Seq<char>> {
    if piece.len() == 0 || piece == seq!['.'] {
        Seq::empty()
    } else {
        seq![piece]
    }
}

/// The segments of `s` between `/` separators, continuing the segment
/// `current`, with empty and `.` segments dropped.
pub open spec fn path_pieces(s: Seq<char>, current: Seq<char>) -> Seq<Seq<char>>
    decreases s.len(),
{
    if s.len() == 0 {
        kept_piece(current)
    } else if s[0] == '/' {
        kept_piece(current) + path_pieces(s.drop_first(), Seq::empty())
    } else {
        path_pieces(s.drop_first(), current.push(s[0]))
    }
}

/// The components of a Unix path, as documented for `Path::components`:
/// a leading `/` is the root component (written `/`), a leading `.` segment
/// is the current-directory component (written `.`), and the rest are the
/// segments between separators, repeated separators, `.` segments and a
/// trailing separator being ignored.
pub open spec fn path_components(s: Seq<char>) -> Seq<Seq<char>> {
    if s.len() > 0 && s[0] == '/' {
        seq![seq!['/']] + path_pieces(s, Seq::empty())
    } else if s == seq!['.'] || (s.len() >= 2 && s[0] == '.' && s[1] == '/') {
        seq![seq!['.']] + path_pieces(s, Seq::empty())
    } else {
        path_pieces(s, Seq::empty())
    }
}

/// Two texts name the same path: they have the same components.
pub open spec fn same_path(a: Seq<char>, b: Seq<char>) -> bool {
    path_components(a) == path_components(b)
}

/// Compares two paths with `std::path::Path`'s `==`, which compares their
/// components. The contract claims the comparison follows the documented
/// Unix component rules (`path_components`); this program targets Unix.
#[verifier::external_body]
fn paths_equal(a: &str, b: &str) -> (same: bool)
    ensures
        same == same_path(a@, b@),
{
    std::path::Path::new(a) == std::path::Path::new(b)
}

/// One mounted file system as reported by the operating system.
#[derive(Debug, Clone)]
pub struct MountReading {
    pub mount_point: String,
    pub total_space: u64,
    pub available_space: u64,
}

/// Usage of one configured mount point, in bytes.
#[derive(Debug, Clone)]
pub struct DiskStats {
    pub path: String,
    pub used: u64,
    pub total: u64,
}

impl View for DiskStats {
    type V = (Seq<char>, u64, u64);

    open spec fn view(&self) -> (Seq<char>, u64, u64) {
        (self.path@, self.used, self.total)
    }
}

/// `a - b`, or 0 where `b` exceeds `a`.
pub open spec fn saturating_diff(a: u64, b: u64) -> u64 {
    if a >= b {
        (a - b) as u64
    } else {
        0
    }
}

/// The first mount, from index `k` on, that is the same path as `path`.
pub open spec fn first_mount_from(path: Seq<char>, mounts: Seq<MountReading>, k: int) -> Option<int>
    decreases mounts.len() - k,
{
    if k < 0 || k >= mounts.len() {
        None
    } else if same_path(mounts[k].mount_point@, path) {
        Some(k)
    } else {
        first_mount_from(path, mounts, k + 1)
    }
}

/// An optional index as a mathematical integer.
pub open spec fn opt_int(o: Option<usize>) -> Option<int> {
    match o {
        Some(k) => Some(k as int),
        None => None,
    }
}

/// The row shown for a configured path served by a mount: used space is the
/// total less the available space (0 where more is available than total).
pub open spec fn disk_row(path: Seq<char>, m: MountReading) -> (Seq<char>, u64, u64) {
    (path, saturating_diff(m.total_space, m.available_space), m.total_space)
}

/// The rows for the first `n` configured paths: one for each path that has a
/// matching mount (`matched[i]`), in configuration order.
pub open spec fn disk_rows(
    paths: Seq<Seq<char>>,
    mounts: Seq<MountReading>,
    matched: Seq<Option<int>>,
    n: int,
) -> Seq<(Seq<char>, u64, u64)>
    decreases n,
{
    if n <= 0 {
        Seq::empty()
    } else {
        let earlier = disk_rows(paths, mounts, matched, n - 1);
        match matched[n - 1] {
            Some(j) => earlier.push(disk_row(paths[n - 1], mounts[j])),
            None => earlier,
        }
    }
}

/// The first mount matching each configured path.
pub open spec fn mount_matches(paths: Seq<Seq<char>>, mounts: Seq<MountReading>) -> Seq<Option<int>> {
    Seq::new(paths.len(), |i: int| first_mount_from(paths[i], mounts, 0))
}

/// The views of a vector of disk rows.
pub open spec fn disk_views(v: Seq<DiskStats>) -> Seq<(Seq<char>, u64, u64)> {
    v.map_values(|d: DiskStats| d@)
}

/// The index of the first mount that is the same path as `path`.
pub fn first_matching_mount(path: &str, mounts: &Vec<MountReading>) -> (found: Option<usize>)
    ensures
        opt_int(found) == first_mount_from(path@, mounts@, 0),
        found matches Some(k) ==> k < mounts.len() && same_path(mounts@[k as int].mount_point@, path@),
        found is None ==> forall|j: int|
            0 <= j < mounts.len() ==> !same_path(#[trigger] mounts@[j].mount_point@, path@),
{
    proof {
        chosen_mount_is_the_same_path(path@, mounts@);
    }
    let n = mounts.len();
    for k in 0..n
        invariant
            n == mounts.len(),
            first_mount_from(path@, mounts@, 0) == first_mount_from(path@, mounts@, k as int),
    {
        if paths_equal(mounts[k].mount_point.as_str(), path) {
            return Some(k);
        }
    }
    None
}

/// The disk rows for the configured `paths`, given for each path the index
/// of the mount that serves it (`None` where none does).
pub fn disks_from_matches(paths: &Vec<String>, mounts: &Vec<MountReading>, matched: &Vec<
    Option<usize>,
>) -> (disks: Vec<DiskStats>)
    requires
        matched.len() == paths.len(),
        forall|i: int|
            0 <= i < matched.len() ==> (#[trigger] matched@[i] matches Some(j) ==> j
                < mounts.len()),
    ensures
        disk_views(disks@) == disk_rows(
            texts(paths@),
            mounts@,
            matched@.map_values(|o: Option<usize>| opt_int(o)),
            paths.len() as int,
        ),
{
    let ghost ps = texts(paths@);
    let ghost ms = matched@.map_values(|o: Option<usize>| opt_int(o));
    let mut disks: Vec<DiskStats> = Vec::new();
    let n = paths.len();
    for i in 0..n
        invariant
            n == paths.len(),
            n == matched.len(),
            ps == texts(paths@),
            ms == matched@.map_values(|o: Option<usize>| opt_int(o)),
            forall|i: int|
                0 <= i < matched.len() ==> (#[trigger] matched@[i] matches Some(j) ==> j
                    < mounts.len()),
            disk_views(disks@) == disk_rows(ps, mounts@, ms, i as int),
    {
        let ghost before = disks@;
        assert(ms[i as int] == opt_int(matched@[i as int]));
        match matched[i] {
            Some(j) => {
                let m = &mounts[j];
                let used = m.total_space.saturating_sub(m.available_space);
                disks.push(DiskStats { path: paths[i].clone(), used, total: m.total_space });
                assert(disk_views(disks@) =~= disk_views(before).push(
                    disk_row(ps[i as int], mounts@[j as int]),
                ));
            },
            None => {},
        }
    }
    disks
}

/// The usage rows for the configured mount points `paths`, in configuration
/// order: for each path the first mount that is the same path, and no row
/// for a path that nothing is mounted on.
pub fn collect_disks(paths: &Vec<String>, mounts: &Vec<MountReading>) -> (disks: Vec<DiskStats>)
    ensures
        disk_views(disks@) == disk_rows(
            texts(paths@),
            mounts@,
            mount_matches(texts(paths@), mounts@),
            paths.len() as int,
        ),
{
    let mut matched: Vec<Option<usize>> = Vec::new();
    let n = paths.len();
    for i in 0..n
        invariant
            n == paths.len(),
            matched.len() == i,
            forall|k: int|
                0 <= k < i ==> opt_int(#[trigger] matched@[k]) == first_mount_from(
                    paths@[k]@,
                    mounts@,
                    0,
                ),
            forall|k: int|
                0 <= k < matched.len() ==> (#[trigger] matched@[k] matches Some(j) ==> j
                    < mounts.len()),
    {
        let found = first_matching_mount(paths[i].as_str(), mounts);
        proof {
            lemma_first_mount_in_range(paths@[i as int]@, mounts@, 0);
        }
        matched.push(found);
    }
    let disks = disks_from_matches(paths, mounts, &matched);
    assert(matched@.map_values(|o: Option<usize>| opt_int(o)) =~= mount_matches(
        texts(paths@),
        mounts@,
    ));
    disks
}

/// The row shown for one configured path: the first mount that is the same
/// path, or nothing when no mount is.
pub open spec fn row_for_path(path: Seq<char>, mounts: Seq<MountReading>) -> Option<
    (Seq<char>, u64, u64),
> {
    match first_mount_from(path, mounts, 0) {
        Some(k) => Some(disk_row(path, mounts[k])),
        None => None,
    }
}

/// The view of an optional disk row.
pub open spec fn opt_disk_view(o: Option<DiskStats>) -> Option<(Seq<char>, u64, u64)> {
    match o {
        Some(d) => Some(d@),
        None => None,
    }
}

/// For each configured path, in configuration order, its own usage row, or
/// `None` where nothing is mounted there; the dashboard fills each path's
/// label from its own entry.
pub fn disks_by_path(paths: &Vec<String>, mounts: &Vec<MountReading>) -> (slots: Vec<
    Option<DiskStats>,
>)
    ensures
        slots.len() == paths.len(),
        forall|i: int|
            0 <= i < paths.len() ==> opt_disk_view(#[trigger] slots@[i]) == row_for_path(
                paths@[i]@,
                mounts@,
            ),
{
    let mut slots: Vec<Option<DiskStats>> = Vec::new();
    let n = paths.len();
    for i in 0..n
        invariant
            n == paths.len(),
            slots.len() == i,
            forall|k: int|
                0 <= k < i ==> opt_disk_view(#[trigger] slots@[k]) == row_for_path(
                    paths@[k]@,
                    mounts@,
                ),
    {
        let found = first_matching_mount(paths[i].as_str(), mounts);
        proof {
            lemma_first_mount_in_range(paths@[i as int]@, mounts@, 0);
        }
        match found {
            Some(j) => {
                let m = &mounts[j];
                let used = m.total_space.saturating_sub(m.available_space);
                slots.push(Some(DiskStats { path: paths[i].clone(), used, total: m.total_space }));
            },
            None => slots.push(None),
        }
    }
    slots
}

/// The rows of the filled entries among the first `n` per-path entries.
pub open spec fn filled_rows(paths: Seq<Seq<char>>, mounts: Seq<MountReading>, n: int) -> Seq<
    (Seq<char>, u64, u64),
>
    decreases n,
{
    if n <= 0 {
        Seq::empty()
    } else {
        match row_for_path(paths[n - 1], mounts) {
            Some(row) => filled_rows(paths, mounts, n - 1).push(row),
            None => filled_rows(paths, mounts, n - 1),
        }
    }
}

/// The list of storage rows is exactly the per-path entries that are
/// filled, in configuration order: each configured path's row is its own.
pub proof fn rows_are_the_filled_entries(paths: Seq<Seq<char>>, mounts: Seq<MountReading>, n: int)
    requires
        0 <= n <= paths.len(),
    ensures
        disk_rows(paths, mounts, mount_matches(paths, mounts), n) == filled_rows(
            paths,
            mounts,
            n,
        ),
    decreases n,
{
    if n > 0 {
        rows_are_the_filled_entries(paths, mounts, n - 1);
    }
}

/// The mount chosen for a path is the first one whose mount point is the
/// same path as it, and a path that no mount point is the same path as gets
/// no mount and no row; a row always shows the chosen mount's figures.
pub proof fn chosen_mount_is_the_same_path(path: Seq<char>, mounts: Seq<MountReading>)
    ensures
        first_mount_from(path, mounts, 0) matches Some(k) ==> {
            &&& 0 <= k < mounts.len()
            &&& same_path(mounts[k].mount_point@, path)
            &&& forall|j: int| 0 <= j < k ==> !same_path(#[trigger] mounts[j].mount_point@, path)
        },
        first_mount_from(path, mounts, 0) is None <==> forall|j: int|
            0 <= j < mounts.len() ==> !same_path(#[trigger] mounts[j].mount_point@, path),
        row_for_path(path, mounts) matches Some(row) ==> exists|k: int|
            0 <= k < mounts.len() && same_path(#[trigger] mounts[k].mount_point@, path) && row
                == (path, saturating_diff(mounts[k].total_space, mounts[k].available_space),
                mounts[k].total_space),
        row_for_path(path, mounts) is None <==> forall|j: int|
            0 <= j < mounts.len() ==> !same_path(#[trigger] mounts[j].mount_point@, path),
{
    lemma_first_mount_exact(path, mounts, 0);
}

proof fn lemma_first_mount_exact(path: Seq<char>, mounts: Seq<MountReading>, i: int)
    requires
        0 <= i,
    ensures
        first_mount_from(path, mounts, i) matches Some(k) ==> {
            &&& i <= k < mounts.len()
            &&& same_path(mounts[k].mount_point@, path)
            &&& forall|j: int| i <= j < k ==> !same_path(#[trigger] mounts[j].mount_point@, path)
        },
        first_mount_from(path, mounts, i) is None <==> forall|j: int|
            i <= j < mounts.len() ==> !same_path(#[trigger] mounts[j].mount_point@, path),
    decreases mounts.len() - i,
{
    if i < mounts.len() {
        if !same_path(mounts[i].mount_point@, path) {
            lemma_first_mount_exact(path, mounts, i + 1);
        }
    }
}

proof fn lemma_first_mount_in_range(path: Seq<char>, mounts: Seq<MountReading>, k: int)
    ensures
        first_mount_from(path, mounts, k) matches Some(j) ==> k <= j < mounts.len(),
    decreases mounts.len() - k,
{
    if 0 <= k < mounts.len() && !same_path(mounts[k].mount_point@, path) {
        lemma_first_mount_in_range(path, mounts, k + 1);
    }
}

/// The storage rows never outnumber the configured paths, and no row shows
/// more space used than the file system holds.
pub proof fn disk_rows_are_bounded(
    paths: Seq<Seq<char>>,
    mounts: Seq<MountReading>,
    matched: Seq<Option<int>>,
    n: int,
)
    requires
        0 <= n <= paths.len(),
        n <= matched.len(),
    ensures
        disk_rows(paths, mounts, matched, n).len() <= n,
        forall|k: int|
            0 <= k < disk_rows(paths, mounts, matched, n).len() ==> #[trigger] disk_rows(
                paths,
                mounts,
                matched,
                n,
            )[k].1 <= disk_rows(paths, mounts, matched, n)[k].2,
    decreases n,
{
    if n > 0 {
        disk_rows_are_bounded(paths, mounts, matched, n - 1);
    }
}

/// A configured path that some mount is the same path as gets a row, and
/// that row names the path and the first such mount's figures.
pub proof fn mounted_path_is_shown(paths: Seq<Seq<char>>, mounts: Seq<MountReading>, i: int, j: int)
    requires
        0 <= i < paths.len(),
        0 <= j < mounts.len(),
        same_path(mounts[j].mount_point@, paths[i]),
    ensures
        ({
            let matched = mount_matches(paths, mounts);
            &&& matched[i] matches Some(k)
            &&& k <= j
            &&& disk_rows(paths, mounts, matched, i + 1).last() == disk_row(paths[i], mounts[k])
        }),
{
    lemma_first_mount_found(paths[i], mounts, 0, j);
}

proof fn lemma_first_mount_found(path: Seq<char>, mounts: Seq<MountReading>, k: int, j: int)
    requires
        0 <= k <= j < mounts.len(),
        same_path(mounts[j].mount_point@, path),
    ensures
        first_mount_from(path, mounts, k) matches Some(m) && k <= m <= j,
    decreases j - k,
{
    if !same_path(mounts[k].mount_point@, path) {
        lemma_first_mount_found(path, mounts, k + 1, j);
    }
}

// ---------------------------------------------------------------- network

/// One network interface's cumulative counters, in bytes.
#[derive(Debug, Clone)]
pub struct NetworkReading {
    pub name: String,
    pub received: u64,
    pub transmitted: u64,
}

/// Bytes received over the first `n` interfaces, loopback (`"lo"`) excluded.
pub open spec fn received_sum(nets: Seq<NetworkReading>, n: int) -> int
    decreases n,
{
    if n <= 0 {
        0
    } else {
        received_sum(nets, n - 1) + if nets[n - 1].name@ == "lo"@ {
            0
        } else {
            nets[n - 1].received as int
        }
    }
}

/// Bytes transmitted over the first `n` interfaces, loopback excluded.
pub open spec fn transmitted_sum(nets: Seq<NetworkReading>, n: int) -> int
    decreases n,
{
    if n <= 0 {
        0
    } else {
        transmitted_sum(nets, n - 1) + if nets[n - 1].name@ == "lo"@ {
            0
        } else {
            nets[n - 1].transmitted as int
        }
    }
}

proof fn lemma_sums_of_prefix(nets: Seq<NetworkReading>, x: NetworkReading, k: int)
    requires
        0 <= k <= nets.len(),
    ensures
        received_sum(nets.push(x), k) == received_sum(nets, k),
        transmitted_sum(nets.push(x), k) == transmitted_sum(nets, k),
    decreases k,
{
    if k > 0 {
        lemma_sums_of_prefix(nets, x, k - 1);
        assert(nets.push(x)[k - 1] == nets[k - 1]);
    }
}

/// With no interface named, adding an interface adds its counters to the
/// watched totals unless its name is exactly `lo`; the loopback interface
/// adds nothing, and any other name (such as `wlo1`) always counts.
pub proof fn only_loopback_is_left_out(nets: Seq<NetworkReading>, x: NetworkReading)
    ensures
        x.name@ != "lo"@ ==> watched_totals(Seq::empty(), nets.push(x)) == (
            watched_totals(Seq::empty(), nets).0 + x.received,
            watched_totals(Seq::empty(), nets).1 + x.transmitted,
        ),
        x.name@ == "lo"@ ==> watched_totals(Seq::empty(), nets.push(x)) == watched_totals(
            Seq::empty(),
            nets,
        ),
        watched_totals(Seq::empty(), Seq::<NetworkReading>::empty()) == (0int, 0int),
{
    lemma_sums_of_prefix(nets, x, nets.len() as int);
    assert(nets.push(x)[nets.len() as int] == x);
    assert(nets.push(x).len() == nets.len() + 1);
}

/// With an interface named, the watched totals are the counters of the
/// first interface whose name is exactly that name, or zero when no
/// interface has that name.
pub proof fn named_interface_is_watched_alone(target: Seq<char>, nets: Seq<NetworkReading>)
    requires
        target.len() > 0,
    ensures
        (forall|j: int| 0 <= j < nets.len() ==> #[trigger] nets[j].name@ != target)
            ==> watched_totals(target, nets) == (0int, 0int),
        forall|k: int|
            0 <= k < nets.len() && #[trigger] nets[k].name@ == target && (forall|j: int|
                0 <= j < k ==> nets[j].name@ != target) ==> watched_totals(target, nets) == (
                nets[k].received as int,
                nets[k].transmitted as int,
            ),
{
    lemma_first_named_exact(nets, target, 0);
    assert forall|k: int|
        0 <= k < nets.len() && #[trigger] nets[k].name@ == target && (forall|j: int|
            0 <= j < k ==> nets[j].name@ != target) implies watched_totals(target, nets) == (
        nets[k].received as int,
        nets[k].transmitted as int,
    ) by {
        match first_named(nets, target, 0) {
            Some(m) => {
                if m < k {
                    assert(nets[m].name@ != target);
                }
                if m > k {
                    assert(nets[k].name@ != target);
                }
            },
            None => {
                assert(nets[k].name@ != target);
            },
        }
    }
}

proof fn lemma_first_named_exact(nets: Seq<NetworkReading>, name: Seq<char>, i: int)
    requires
        0 <= i,
    ensures
        first_named(nets, name, i) matches Some(k) ==> {
            &&& i <= k < nets.len()
            &&& nets[k].name@ == name
            &&& forall|j: int| i <= j < k ==> #[trigger] nets[j].name@ != name
        },
        first_named(nets, name, i) is None <==> forall|j: int|
            i <= j < nets.len() ==> #[trigger] nets[j].name@ != name,
    decreases nets.len() - i,
{
    if i < nets.len() && nets[i].name@ != name {
        lemma_first_named_exact(nets, name, i + 1);
    }
}

/// Used space is the total less the available space, and zero when more is
/// reported available than the total.
pub proof fn used_space_is_total_less_available(total: u64, available: u64)
    ensures
        available <= total ==> saturating_diff(total, available) + available == total,
        available > total ==> saturating_diff(total, available) == 0,
        saturating_diff(total, available) <= total,
{
}

/// The sums over all non-loopback interfaces fit in `u64`.
pub open spec fn totals_fit(nets: Seq<NetworkReading>) -> bool {
    received_sum(nets, nets.len() as int) <= u64::MAX && transmitted_sum(nets, nets.len() as int)
        <= u64::MAX
}

/// The first interface, from index `k` on, called `name`.
pub open spec fn first_named(nets: Seq<NetworkReading>, name: Seq<char>, k: int) -> Option<int>
    decreases nets.len() - k,
{
    if k < 0 || k >= nets.len() {
        None
    } else if nets[k].name@ == name {
        Some(k)
    } else {
        first_named(nets, name, k + 1)
    }
}

/// The cumulative (received, transmitted) counters watched: those of the
/// interface called `target` (zero when there is none), or, for an empty
/// `target`, the sums over every interface but loopback.
pub open spec fn watched_totals(target: Seq<char>, nets: Seq<NetworkReading>) -> (int, int) {
    if target.len() > 0 {
        match first_named(nets, target, 0) {
            Some(k) => (nets[k].received as int, nets[k].transmitted as int),
            None => (0, 0),
        }
    } else {
        (received_sum(nets, nets.len() as int), transmitted_sum(nets, nets.len() as int))
    }
}

proof fn lemma_sums_grow(nets: Seq<NetworkReading>, i: int, j: int)
    requires
        i <= j,
    ensures
        received_sum(nets, i) <= received_sum(nets, j),
        transmitted_sum(nets, i) <= transmitted_sum(nets, j),
        0 <= received_sum(nets, j),
        0 <= transmitted_sum(nets, j),
    decreases j - i,
{
    if i < j {
        lemma_sums_grow(nets, i, j - 1);
    } else {
        lemma_sums_nonnegative(nets, j);
    }
}

proof fn lemma_sums_nonnegative(nets: Seq<NetworkReading>, j: int)
    ensures
        0 <= received_sum(nets, j),
        0 <= transmitted_sum(nets, j),
    decreases j,
{
    if j > 0 {
        lemma_sums_nonnegative(nets, j - 1);
    }
}

/// Whether the sums over all non-loopback interfaces fit in `u64`.
pub fn network_totals_fit(nets: &Vec<NetworkReading>) -> (fit: bool)
    ensures
        fit == totals_fit(nets@),
{
    let n = nets.len();
    let mut rx: u64 = 0;
    let mut tx: u64 = 0;
    for i in 0..n
        invariant
            n == nets.len(),
            rx == received_sum(nets@, i as int),
            tx == transmitted_sum(nets@, i as int),
    {
        proof {
            lemma_sums_grow(nets@, i + 1, n as int);
        }
        if !text_equals(nets[i].name.as_str(), "lo") {
            match rx.checked_add(nets[i].received) {
                Some(v) => rx = v,
                None => return false,
            }
            match tx.checked_add(nets[i].transmitted) {
                Some(v) => tx = v,
                None => return false,
            }
        }
    }
    true
}

/// The cumulative (received, transmitted) counters watched for the
/// configured interface `target`: that interface's counters (zero where no
/// interface has that name), or, for an empty `target`, the sums over every
/// interface except loopback.
pub fn network_totals(target: &str, nets: &Vec<NetworkReading>) -> (totals: (u64, u64))
    requires
        target@.len() > 0 || totals_fit(nets@),
    ensures
        totals.0 == watched_totals(target@, nets@).0,
        totals.1 == watched_totals(target@, nets@).1,
{
    let n = nets.len();
    if target.unicode_len() > 0 {
        for k in 0..n
            invariant
                n == nets.len(),
                target@.len() > 0,
                first_named(nets@, target@, 0) == first_named(nets@, target@, k as int),
        {
            if text_equals(nets[k].name.as_str(), target) {
                return (nets[k].received, nets[k].transmitted);
            }
        }
        (0, 0)
    } else {
        let mut rx: u64 = 0;
        let mut tx: u64 = 0;
        for i in 0..n
            invariant
                n == nets.len(),
                totals_fit(nets@),
                rx == received_sum(nets@, i as int),
                tx == transmitted_sum(nets@, i as int),
        {
            proof {
                lemma_sums_grow(nets@, i + 1, n as int);
            }
            if !text_equals(nets[i].name.as_str(), "lo") {
                rx = rx + nets[i].received;
                tx = tx + nets[i].transmitted;
            }
        }
        (rx, tx)
    }
}

/// The traffic since the previous reading: the growth of each counter (0
/// where a counter went backwards), or `None` without a previous reading.
pub open spec fn traffic_since(last: Option<(u64, u64)>, received: u64, transmitted: u64) -> Option<
    (u64, u64),
> {
    match last {
        Some((rx, tx)) => Some((saturating_diff(received, rx), saturating_diff(transmitted, tx))),
        None => None,
    }
}

/// The traffic reported never exceeds the current counters, and equals
/// their growth exactly when the counters did not go backwards.
pub proof fn traffic_is_counter_growth(last: Option<(u64, u64)>, received: u64, transmitted: u64)
    ensures
        traffic_since(last, received, transmitted) matches Some((rx, tx)) ==> rx <= received
            && tx <= transmitted,
        last matches Some((prev_rx, prev_tx)) ==> (prev_rx <= received && prev_tx <= transmitted
            ==> traffic_since(last, received, transmitted) == Some(
            ((received - prev_rx) as u64, (transmitted - prev_tx) as u64),
        )),
        last is None ==> traffic_since(last, received, transmitted) is None,
{
}

/// Remembers the last cumulative network counters seen.
#[derive(Debug, Clone, Copy)]
pub struct NetworkTracker {
    pub last: Option<(u64, u64)>,
}

impl NetworkTracker {
    /// A tracker that has seen nothing yet.
    pub fn new() -> (t: NetworkTracker)
        ensures
            t.last is None,
    {
        NetworkTracker { last: None }
    }

    /// Records the current cumulative counters and returns the traffic since
    /// the previous reading (`None` for the first reading).
    pub fn observe(&mut self, received: u64, transmitted: u64) -> (traffic: Option<(u64, u64)>)
        ensures
            traffic == traffic_since(old(self).last, received, transmitted),
            final(self).last == Some((received, transmitted)),
    {
        let traffic = match self.last {
            Some((rx, tx)) => Some((received.saturating_sub(rx), transmitted.saturating_sub(tx))),
            None => None,
        };
        self.last = Some((received, transmitted));
        traffic
    }
}

// ---------------------------------------------------------------- sampling

/// One round of raw readings, as plain values.
#[derive(Debug, Clone)]
pub struct Readings {
    pub mem_total: u64,
    pub mem_used: u64,
    /// The temperature sensors' labels, as reported.
    pub sensor_labels: Vec<String>,
    /// Whether each sensor reads exactly zero.
    pub sensor_at_zero: Vec<bool>,
    pub mounts: Vec<MountReading>,
    pub networks: Vec<NetworkReading>,
}

/// The integer part of one round of statistics.
#[derive(Debug, Clone)]
pub struct Sample {
    pub mem_total: u64,
    pub mem_used: u64,
    pub sensors: SensorChoice,
    pub disks: Vec<DiskStats>,
    /// One entry per configured mount point, in configuration order: its
    /// usage row, or `None` where nothing is mounted there.
    pub disks_by_path: Vec<Option<DiskStats>>,
    /// Bytes (received, transmitted) since the previous round; `None` when
    /// network monitoring is off or this is the first round.
    pub traffic: Option<(u64, u64)>,
}

/// The monitor's state between rounds: its configuration and the last
/// network counters.
#[derive(Debug, Clone)]
pub struct MonitorState {
    pub config: Config,
    pub network: NetworkTracker,
}

/// Whether a round of readings can be processed under `config`.
pub open spec fn readings_ok(config: Config, r: Readings) -> bool {
    &&& r.sensor_labels.len() == r.sensor_at_zero.len()
    &&& config.features.enable_network ==> (config.network.interface@.len() > 0 || totals_fit(
        r.networks@,
    ))
}

impl MonitorState {
    /// A monitor for `config` that has seen no network counters yet.
    pub fn new(config: Config) -> (m: MonitorState)
        ensures
            m.config == config,
            m.network.last is None,
    {
        MonitorState { config, network: NetworkTracker::new() }
    }

    /// Turns one round of readings into statistics: memory as read; the CPU
    /// and board sensors chosen; the configured mount points' usage when
    /// storage monitoring is on (nothing otherwise); and, when network
    /// monitoring is on, the traffic since the previous round on the watched
    /// interface(s), remembering the current counters (otherwise nothing, and
    /// the remembered counters stay as they were).
    pub fn sample(&mut self, r: &Readings) -> (s: Sample)
        requires
            readings_ok(old(self).config, *r),
        ensures
            final(self).config == old(self).config,
            s.mem_total == r.mem_total,
            s.mem_used == r.mem_used,
            first_usable(lowered_texts(r.sensor_labels@), r.sensor_at_zero@, true, s.sensors.cpu),
            first_usable(
                lowered_texts(r.sensor_labels@),
                r.sensor_at_zero@,
                false,
                s.sensors.board,
            ),
            old(self).config.features.enable_storage ==> disk_views(s.disks@) == disk_rows(
                texts(old(self).config.storage.paths@),
                r.mounts@,
                mount_matches(texts(old(self).config.storage.paths@), r.mounts@),
                old(self).config.storage.paths.len() as int,
            ),
            old(self).config.features.enable_storage ==> s.disks_by_path.len()
                == old(self).config.storage.paths.len() && forall|i: int|
                0 <= i < s.disks_by_path.len() ==> opt_disk_view(#[trigger] s.disks_by_path@[i])
                    == row_for_path(old(self).config.storage.paths@[i]@, r.mounts@),
            !old(self).config.features.enable_storage ==> s.disks@.len() == 0
                && s.disks_by_path@.len() == 0,
            old(self).config.features.enable_network ==> ({
                let t = watched_totals(old(self).config.network.interface@, r.networks@);
                &&& s.traffic == traffic_since(old(self).network.last, t.0 as u64, t.1 as u64)
                &&& final(self).network.last == Some((t.0 as u64, t.1 as u64))
            }),
            !old(self).config.features.enable_network ==> s.traffic is None
                && final(self).network == old(self).network,
    {
        let sensors = choose_temperature_sensors(&r.sensor_labels, &r.sensor_at_zero);
        let (disks, disks_by_path) = if self.config.features.enable_storage {
            (
                collect_disks(&self.config.storage.paths, &r.mounts),
                disks_by_path(&self.config.storage.paths, &r.mounts),
            )
        } else {
            (Vec::new(), Vec::new())
        };
        let traffic = if self.config.features.enable_network {
            let (rx, tx) = network_totals(self.config.network.interface.as_str(), &r.networks);
            self.network.observe(rx, tx)
        } else {
            None
        };
        Sample {
            mem_total: r.mem_total,
            mem_used: r.mem_used,
            sensors,
            disks,
            disks_by_path,
            traffic,
        }
    }
}

} // verus!
