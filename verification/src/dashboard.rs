//! What is shown of the application, here and on other machines.

use vstd::prelude::*;

use crate::ids::{FileId, PackageId};
use crate::model::{FileStatus, PackageStatus};
use crate::settings::{DownloadConfig, Popup};
use crate::text::{self, decimal_text, joined};

verus! {

/// Who shows the application.
#[derive(Clone, Copy, Debug, PartialEq, Eq, Structural)]
pub enum DashboardUiMode {
    Headless,
    Tui,
    Attached,
}

/// A row on the screen.
#[derive(Debug, PartialEq, Eq)]
pub enum TuiRow {
    Package(PackageId),
    File { package_id: Option<PackageId>, file_id: FileId },
}

/// A row as it is published.
#[allow(inconsistent_fields)]
#[derive(Debug, PartialEq, Eq)]
pub enum DashboardRow {
    Package { package_id: String },
    File { package_id: String, file_id: String },
}

/// How a file is published.
#[derive(Debug, PartialEq, Eq)]
pub enum DashboardFileStatus {
    Queued,
    Downloading,
    Verifying,
    Complete,
    Error { message: String },
}

impl DashboardFileStatus {
    /// Whether the file is being transferred.
    pub fn is_downloading(&self) -> (downloading: bool)
        ensures
            downloading == (self is Downloading),
    {
        matches!(self, DashboardFileStatus::Downloading)
    }

    /// Whether something is done with the file.
    pub fn is_active(&self) -> (active: bool)
        ensures
            active == (self is Downloading || self is Verifying),
    {
        matches!(self, DashboardFileStatus::Downloading | DashboardFileStatus::Verifying)
    }

    /// Whether the file waits.
    pub fn is_queued(&self) -> (queued: bool)
        ensures
            queued == (self is Queued),
    {
        matches!(self, DashboardFileStatus::Queued)
    }

    /// Whether the file failed.
    pub fn is_error(&self) -> (failed: bool)
        ensures
            failed == (self is Error),
    {
        matches!(self, DashboardFileStatus::Error { .. })
    }

    /// How the status of a row is published.
    pub open spec fn published(status: FileStatus) -> DashboardFileStatus {
        match status {
            FileStatus::Queued => DashboardFileStatus::Queued,
            FileStatus::Downloading => DashboardFileStatus::Downloading,
            FileStatus::Complete => DashboardFileStatus::Complete,
            FileStatus::Error(message) => DashboardFileStatus::Error { message },
        }
    }

    /// How the status of a row is published.
    pub fn of(status: &FileStatus) -> (published: DashboardFileStatus)
        ensures
            published == DashboardFileStatus::published(*status),
    {
        match status {
            FileStatus::Queued => DashboardFileStatus::Queued,
            FileStatus::Downloading => DashboardFileStatus::Downloading,
            FileStatus::Complete => DashboardFileStatus::Complete,
            FileStatus::Error(message) => DashboardFileStatus::Error { message: message.clone() },
        }
    }
}

/// The text in an option.
pub open spec fn optional(text: Option<String>) -> Option<Seq<char>> {
    match text {
        Some(text) => Some(text@),
        None => None,
    }
}

/// A package as it is published.
#[derive(Debug, PartialEq, Eq)]
pub struct DashboardPackageRow {
    pub id: String,
    pub source_url: String,
    pub display_name: String,
    pub status: PackageStatus,
    pub file_ids: Vec<String>,
    pub present_files: usize,
    pub completed_files: usize,
    pub downloaded_bytes: u64,
    pub total_bytes: u64,
    pub percent: u64,
    pub expanded: bool,
    pub folder_label: Option<String>,
    pub error: Option<String>,
}

/// What a published package says.
#[verifier::ext_equal]
pub struct PackageRowModel {
    pub id: Seq<char>,
    pub source_url: Seq<char>,
    pub display_name: Seq<char>,
    pub status: PackageStatus,
    pub file_ids: Seq<Seq<char>>,
    pub present_files: nat,
    pub completed_files: nat,
    pub downloaded_bytes: u64,
    pub total_bytes: u64,
    pub percent: u64,
    pub expanded: bool,
    pub folder_label: Option<Seq<char>>,
    pub error: Option<Seq<char>>,
}

impl View for DashboardPackageRow {
    type V = PackageRowModel;

    open spec fn view(&self) -> PackageRowModel {
        PackageRowModel {
            id: self.id@,
            source_url: self.source_url@,
            display_name: self.display_name@,
            status: self.status,
            file_ids: text::views(self.file_ids@),
            present_files: self.present_files as nat,
            completed_files: self.completed_files as nat,
            downloaded_bytes: self.downloaded_bytes,
            total_bytes: self.total_bytes,
            percent: self.percent,
            expanded: self.expanded,
            folder_label: optional(self.folder_label),
            error: optional(self.error),
        }
    }
}

/// A file as it is published.
#[derive(Debug, PartialEq, Eq)]
pub struct DashboardFileRow {
    pub id: String,
    pub package_id: String,
    pub name: String,
    pub size: u64,
    pub downloaded: u64,
    pub speed: u64,
    pub status: DashboardFileStatus,
    pub package_label: Option<String>,
}

/// What a published file says.
#[verifier::ext_equal]
pub struct FileRowModel {
    pub id: Seq<char>,
    pub package_id: Seq<char>,
    pub name: Seq<char>,
    pub size: u64,
    pub downloaded: u64,
    pub speed: u64,
    pub status: DashboardFileStatus,
    pub package_label: Option<Seq<char>>,
}

impl View for DashboardFileRow {
    type V = FileRowModel;

    open spec fn view(&self) -> FileRowModel {
        FileRowModel {
            id: self.id@,
            package_id: self.package_id@,
            name: self.name@,
            size: self.size,
            downloaded: self.downloaded,
            speed: self.speed,
            status: self.status,
            package_label: optional(self.package_label),
        }
    }
}

/// What everything adds up to.
#[derive(Clone, Copy, Debug, PartialEq, Eq, Structural)]
pub struct DashboardTotals {
    pub total_downloaded: u64,
    pub total_size: u64,
    pub files_completed: usize,
    pub files_total: usize,
    pub current_speed: u64,
    pub run_total_bytes: u64,
    pub run_completed_bytes: u64,
    pub run_file_total: usize,
    pub run_file_completed: usize,
}

impl DashboardTotals {
    /// Nothing at all.
    pub fn empty() -> (totals: DashboardTotals)
        ensures
            totals == (DashboardTotals {
                total_downloaded: 0,
                total_size: 0,
                files_completed: 0,
                files_total: 0,
                current_speed: 0,
                run_total_bytes: 0,
                run_completed_bytes: 0,
                run_file_total: 0,
                run_file_completed: 0,
            }),
    {
        DashboardTotals {
            total_downloaded: 0,
            total_size: 0,
            files_completed: 0,
            files_total: 0,
            current_speed: 0,
            run_total_bytes: 0,
            run_completed_bytes: 0,
            run_file_total: 0,
            run_file_completed: 0,
        }
    }
}

/// How much of the machine is used.
#[derive(Clone, Copy, Debug, PartialEq, Eq, Structural)]
pub struct DashboardMetrics {
    /// How much of a processor, as the bits of a number.
    pub cpu_usage_bits: u32,
    pub memory_rss: u64,
    pub api_port: u16,
}

impl DashboardMetrics {
    /// Nothing used.
    pub fn empty(api_port: u16) -> (metrics: DashboardMetrics)
        ensures
            metrics == (DashboardMetrics { cpu_usage_bits: 0, memory_rss: 0, api_port }),
    {
        DashboardMetrics { cpu_usage_bits: 0, memory_rss: 0, api_port }
    }
}

/// The application as it is published.
#[derive(Debug, PartialEq, Eq)]
pub struct DownloadDashboardState {
    pub authenticated: bool,
    pub paused: bool,
    pub logging_in: bool,
    pub login_error: Option<String>,
    pub popup: Popup,
    pub ui_mode: DashboardUiMode,
    pub read_only: bool,
    pub status: String,
    pub packages: Vec<DashboardPackageRow>,
    pub files: Vec<DashboardFileRow>,
    pub rows: Vec<DashboardRow>,
    pub totals: DashboardTotals,
    pub metrics: DashboardMetrics,
    pub config: DownloadConfig,
}

impl DownloadDashboardState {
    /// An application that has nothing to show.
    pub fn empty(
        ui_mode: DashboardUiMode,
        read_only: bool,
        status: String,
        api_port: u16,
    ) -> (state: DownloadDashboardState)
        ensures
            !state.authenticated,
            !state.paused,
            !state.logging_in,
            state.login_error is None,
            state.popup == Popup::Closed,
            state.ui_mode == ui_mode,
            state.read_only == read_only,
            state.status == status,
            state.packages@.len() == 0,
            state.files@.len() == 0,
            state.rows@.len() == 0,
            state.totals == (DashboardTotals {
                total_downloaded: 0,
                total_size: 0,
                files_completed: 0,
                files_total: 0,
                current_speed: 0,
                run_total_bytes: 0,
                run_completed_bytes: 0,
                run_file_total: 0,
                run_file_completed: 0,
            }),
            state.metrics == (DashboardMetrics { cpu_usage_bits: 0, memory_rss: 0, api_port }),
            state.config == (DownloadConfig {
                chunks_per_file: 1,
                mega_chunks_per_request: 1,
                concurrent_files: 1,
                force_overwrite: false,
                cleanup_on_error: false,
                path: None,
            }),
    {
        DownloadDashboardState {
            authenticated: false,
            paused: false,
            logging_in: false,
            login_error: None,
            popup: Popup::Closed,
            ui_mode,
            read_only,
            status,
            packages: Vec::new(),
            files: Vec::new(),
            rows: Vec::new(),
            totals: DashboardTotals::empty(),
            metrics: DashboardMetrics::empty(api_port),
            config: crate::settings::ConfigState::new().config,
        }
    }
}

/// How the identity of a package travels: short where it is one, else as text.
#[derive(Debug, PartialEq, Eq)]
pub enum BinaryDashboardPackageId {
    Core(PackageId),
    Text(String),
    Empty,
}

impl BinaryDashboardPackageId {
    /// The text that it stands for.
    pub open spec fn shown(self) -> Seq<char> {
        match self {
            BinaryDashboardPackageId::Core(id) => id.text(),
            BinaryDashboardPackageId::Text(text) => text@,
            BinaryDashboardPackageId::Empty => Seq::empty(),
        }
    }

    /// How a text travels. What names a package comes back as that package, and every text that
    /// names none comes back as it is.
    pub fn from_dashboard_string(value: String) -> (id: BinaryDashboardPackageId)
        ensures
            forall|package: PackageId|
                value@ == #[trigger] package.text() ==> id == BinaryDashboardPackageId::Core(
                    package,
                ),
            crate::ids::uuid_of(value@) is None ==> id.shown() == value@,
            id == (if value@.len() == 0 {
                BinaryDashboardPackageId::Empty
            } else {
                match crate::ids::uuid_of(value@) {
                    Some(raw) => BinaryDashboardPackageId::Core(PackageId { raw }),
                    None => BinaryDashboardPackageId::Text(value),
                }
            }),
    {
        if value.as_str().is_empty() {
            assert(value@ =~= Seq::<char>::empty());
            return BinaryDashboardPackageId::Empty;
        }
        match PackageId::parse(&value) {
            Some(id) => BinaryDashboardPackageId::Core(id),
            None => BinaryDashboardPackageId::Text(value),
        }
    }

    /// The text that it stands for.
    pub fn into_dashboard_string(self) -> (value: String)
        ensures
            value@ == self.shown(),
    {
        match self {
            BinaryDashboardPackageId::Core(id) => id.to_text(),
            BinaryDashboardPackageId::Text(text) => text,
            BinaryDashboardPackageId::Empty => String::new(),
        }
    }
}

/// What stands around the list of files.
#[derive(Debug, PartialEq, Eq)]
pub struct DashboardChrome {
    pub url_input: String,
    pub url_input_cursor: usize,
    pub url_input_active: bool,
}

impl DashboardChrome {
    /// Nothing to type into.
    pub fn read_only() -> (chrome: DashboardChrome)
        ensures
            chrome.url_input@.len() == 0,
            chrome.url_input_cursor == 0,
            !chrome.url_input_active,
    {
        DashboardChrome { url_input: String::new(), url_input_cursor: 0, url_input_active: false }
    }
}

/// The row that is selected among so many.
pub open spec fn clamped(selected: Option<usize>, row_count: nat) -> Option<usize> {
    if row_count == 0 {
        None
    } else {
        match selected {
            None => Some(0),
            Some(at) => if at >= row_count {
                Some((row_count - 1) as usize)
            } else {
                Some(at)
            },
        }
    }
}

/// Selects a row that there is: the first where none was selected, the last where the selected
/// one is gone.
pub fn clamp_selection(selected: &mut Option<usize>, row_count: usize)
    ensures
        *final(selected) == clamped(*old(selected), row_count as nat),
        *final(selected) is Some <==> row_count > 0,
        *final(selected) matches Some(at) ==> at < row_count,
{
    if row_count == 0 {
        *selected = None;
    } else {
        match *selected {
            None => {
                *selected = Some(0);
            },
            Some(at) => {
                if at >= row_count {
                    *selected = Some(row_count - 1);
                }
            },
        }
    }
}

/// The application of another machine.
pub struct AttachedDashboard {
    pub state: Option<DownloadDashboardState>,
    pub selected: Option<usize>,
    pub should_quit: bool,
    pub status: String,
}

impl AttachedDashboard {
    /// Nothing known yet.
    pub fn new() -> (dashboard: AttachedDashboard)
        ensures
            dashboard.state is None,
            dashboard.selected is None,
            !dashboard.should_quit,
            dashboard.status@.len() == 0,
    {
        AttachedDashboard { state: None, selected: None, should_quit: false, status: String::new() }
    }

    /// How many rows there are.
    pub open spec fn row_count(&self) -> nat {
        match self.state {
            Some(state) => state.rows@.len(),
            None => 0,
        }
    }

    /// Shows a newer state.
    pub fn replace_state(&mut self, state: DownloadDashboardState)
        ensures
            *final(self) == (AttachedDashboard {
                state: Some(state),
                selected: clamped(old(self).selected, state.rows@.len()),
                ..*old(self)
            }),
    {
        let rows: usize = state.rows.len();
        self.state = Some(state);
        clamp_selection(&mut self.selected, rows);
    }

    /// Selects a row further down or up, as far as there are rows.
    pub fn select_delta(&mut self, delta: isize)
        ensures
            *final(self) == (AttachedDashboard { selected: final(self).selected, ..*old(self) }),
            if old(self).row_count() == 0 {
                final(self).selected is None
            } else {
                let from = match old(self).selected {
                    Some(at) => at as int,
                    None => 0,
                };
                let to = from + delta;
                final(self).selected == Some(
                    if to < 0 {
                        0
                    } else if to >= old(self).row_count() {
                        (old(self).row_count() - 1) as usize
                    } else {
                        to as usize
                    },
                )
            },
    {
        let rows: usize = match &self.state {
            Some(state) => state.rows.len(),
            None => 0,
        };
        if rows == 0 {
            self.selected = None;
            return;
        }
        let from: usize = match self.selected {
            Some(at) => at,
            None => 0,
        };
        let next: usize = if delta >= 0 {
            from.saturating_add(delta as usize)
        } else {
            let back: usize = (-(delta + 1)) as usize;
            if back < from {
                from - back - 1
            } else {
                0
            }
        };
        self.selected = Some(
            if next < rows {
                next
            } else {
                rows - 1
            },
        );
    }
}

/// How many files wait.
pub open spec fn queued_count(files: Seq<DashboardFileRow>) -> nat
    decreases files.len(),
{
    if files.len() == 0 {
        0
    } else {
        queued_count(files.drop_last()) + if files.last().status is Queued {
            1nat
        } else {
            0nat
        }
    }
}

/// Whether something is done.
pub open spec fn is_busy(state: DownloadDashboardState) -> bool {
    state.totals.current_speed > 0 || exists|i: int|
        0 <= i < state.files@.len() && (#[trigger] state.files@[i].status is Downloading
            || state.files@[i].status is Verifying)
}

/// What is done, in a word or two.
pub open spec fn activity(state: DownloadDashboardState) -> Seq<char> {
    if is_busy(state) {
        "active"@
    } else if queued_count(state.files@) > 0 {
        text::decimal(queued_count(state.files@)) + " queued"@
    } else {
        "idle"@
    }
}

/// What is done, in a word or two.
pub fn aggregate_activity_label(state: &DownloadDashboardState) -> (label: String)
    ensures
        label@ == activity(*state),
{
    if state.totals.current_speed > 0 {
        return "active".to_owned();
    }
    let mut queued: usize = 0;
    let mut i: usize = 0;
    while i < state.files.len()
        invariant
            i <= state.files@.len(),
            queued <= i,
            state.totals.current_speed == 0,
            queued == queued_count(state.files@.take(i as int)),
            forall|k: int|
                0 <= k < i ==> !(#[trigger] state.files@[k].status is Downloading)
                    && !(state.files@[k].status is Verifying),
        decreases state.files.len() - i,
    {
        assert(state.files@.take(i as int + 1).drop_last() =~= state.files@.take(i as int));
        if state.files[i].status.is_active() {
            assert(is_busy(*state));
            return "active".to_owned();
        }
        if state.files[i].status.is_queued() {
            queued += 1;
        }
        i += 1;
    }
    assert(state.files@.take(i as int) =~= state.files@);
    if queued > 0 {
        return joined(&decimal_text(queued as u64), " queued");
    }
    "idle".to_owned()
}

/// In how many seconds everything is downloaded at the current speed; nothing where nothing is
/// transferred or nothing is left.
pub fn seconds_left(totals: &DashboardTotals) -> (seconds: Option<u64>)
    ensures
        ({
            let left = totals.total_size - totals.total_downloaded;
            match seconds {
                Some(eta) => {
                    &&& totals.current_speed > 0
                    &&& left > 0
                    &&& eta >= 1
                    &&& eta * totals.current_speed >= left
                    &&& (eta - 1) * totals.current_speed < left
                },
                None => totals.current_speed == 0 || left <= 0,
            }
        }),
{
    if totals.current_speed == 0 || totals.total_size <= totals.total_downloaded {
        return None;
    }
    let left: u64 = totals.total_size - totals.total_downloaded;
    let whole: u64 = left / totals.current_speed;
    let rest: u64 = left % totals.current_speed;
    proof {
        vstd::arithmetic::div_mod::lemma_fundamental_div_mod(
            left as int,
            totals.current_speed as int,
        );
        assert(whole * totals.current_speed == totals.current_speed * whole) by (nonlinear_arith);
        assert((whole + 1) * totals.current_speed == totals.current_speed * whole
            + totals.current_speed) by (nonlinear_arith);
        assert((whole - 1) * totals.current_speed == totals.current_speed * whole
            - totals.current_speed) by (nonlinear_arith);
    }
    if rest == 0 {
        proof {
            if whole == 0 {
                assert(totals.current_speed * whole == 0) by (nonlinear_arith)
                    requires
                        whole == 0,
                ;
            }
        }
        Some(whole)
    } else {
        proof {
            if totals.current_speed == 1 {
                assert(rest == 0);
            }
            assert(whole < left) by (nonlinear_arith)
                requires
                    left == totals.current_speed * whole + rest,
                    rest > 0,
                    totals.current_speed >= 1,
            ;
        }
        Some(whole + 1)
    }
}

/// How transfers go: the speed, and how long they still take; what is done where nothing is
/// transferred. `speed` and `eta` are the texts of the current speed and of the seconds left.
pub fn aggregate_transfer_label(state: &DownloadDashboardState, speed: &str, eta: &str) -> (label:
    String)
    ensures
        label@ == (if state.totals.current_speed == 0 {
            activity(*state)
        } else if state.totals.total_size <= state.totals.total_downloaded {
            speed@ + "/s"@
        } else {
            speed@ + "/s"@ + "  eta "@ + eta@
        }),
{
    if state.totals.current_speed == 0 {
        return aggregate_activity_label(state);
    }
    let mut label = joined(speed, "/s");
    if state.totals.total_size <= state.totals.total_downloaded {
        return label;
    }
    label.append("  eta ");
    label.append(eta);
    label
}

/// A bar of so many cells, some of them filled.
pub open spec fn bar(filled: nat, width: nat) -> Seq<char> {
    Seq::new(
        width,
        |i: int|
            if i < filled {
                '\u{2588}'
            } else {
                '\u{2591}'
            },
    )
}

/// A bar of so many cells, some of them filled; none is where there is nothing to fill it with.
pub fn progress_bar(filled: usize, total: u64, width: usize) -> (cells: String)
    ensures
        cells@ == bar(
            if total == 0 {
                0
            } else {
                filled as nat
            },
            width as nat,
        ),
{
    let shown: usize = if total == 0 {
        0
    } else {
        filled
    };
    let mut cells = String::new();
    let mut i: usize = 0;
    while i < width
        invariant
            i <= width,
            cells@ =~= bar(shown as nat, width as nat).take(i as int),
        decreases width - i,
    {
        if i < shown {
            cells.push('\u{2588}');
        } else {
            cells.push('\u{2591}');
        }
        i += 1;
    }
    assert(bar(shown as nat, width as nat).take(i as int) =~= bar(shown as nat, width as nat));
    cells
}

/// What is said of a file. `pct` is its share in percent and `filled` its share in tenths, both
/// at most whole where there is something of it; `amount` is the text of its speed where it is
/// transferred, and of its size where it is complete.
pub open spec fn detail(
    file: DashboardFileRow,
    pct: u64,
    filled: usize,
    amount: Seq<char>,
) -> Seq<char> {
    let share = if file.size == 0 {
        0
    } else if pct > 100 {
        100
    } else {
        pct
    };
    let gauge = "["@ + bar(
        if file.size == 0 {
            0
        } else {
            filled as nat
        },
        10,
    ) + "] "@ + text::decimal(share as nat) + "%"@;
    match file.status {
        DashboardFileStatus::Verifying => gauge + "  verify"@,
        DashboardFileStatus::Downloading => if file.speed > 0 {
            gauge + "  "@ + amount + "/s"@
        } else {
            gauge + "  active"@
        },
        DashboardFileStatus::Queued => "queued"@,
        DashboardFileStatus::Complete => amount + "  done"@,
        DashboardFileStatus::Error { message } => message@,
    }
}

/// The gauge of a file.
fn gauge(file: &DashboardFileRow, pct: u64, filled: usize) -> (shown: String)
    ensures
        shown@ == "["@ + bar(
            if file.size == 0 {
                0
            } else {
                filled as nat
            },
            10,
        ) + "] "@ + text::decimal(
            (if file.size == 0 {
                0
            } else if pct > 100 {
                100
            } else {
                pct
            }) as nat,
        ) + "%"@,
{
    let share: u64 = if file.size == 0 {
        0
    } else if pct > 100 {
        100
    } else {
        pct
    };
    let mut shown = "[".to_owned();
    shown.append(&progress_bar(filled, file.size, 10));
    shown.append("] ");
    shown.append(&decimal_text(share));
    shown.append("%");
    shown
}

/// What is said of a file, as `detail` says.
pub fn file_detail(file: &DashboardFileRow, pct: u64, filled: usize, amount: &str) -> (shown:
    String)
    ensures
        shown@ == detail(*file, pct, filled, amount@),
{
    match &file.status {
        DashboardFileStatus::Verifying => {
            let mut shown = gauge(file, pct, filled);
            shown.append("  verify");
            shown
        },
        DashboardFileStatus::Downloading => {
            let mut shown = gauge(file, pct, filled);
            if file.speed > 0 {
                shown.append("  ");
                shown.append(amount);
                shown.append("/s");
            } else {
                shown.append("  active");
            }
            shown
        },
        DashboardFileStatus::Queued => "queued".to_owned(),
        DashboardFileStatus::Complete => joined(amount, "  done"),
        DashboardFileStatus::Error { message } => message.clone(),
    }
}

/// Whether anybody sees what is published. The terminal itself is one of its observers.
pub fn is_observed(ui_mode: DashboardUiMode, receivers: usize) -> (observed: bool)
    ensures
        observed == (receivers > if ui_mode == DashboardUiMode::Tui {
            1int
        } else {
            0int
        }),
{
    match ui_mode {
        DashboardUiMode::Tui => receivers > 1,
        DashboardUiMode::Headless | DashboardUiMode::Attached => receivers > 0,
    }
}

/// What a published state depends on.
#[derive(Clone, Copy, Debug, PartialEq, Eq, Structural)]
pub struct DashboardCacheKey {
    pub revision: u64,
    pub ui_mode: DashboardUiMode,
    pub read_only: bool,
}

/// The state that was published last, as bytes.
pub struct DashboardCache {
    pub key: Option<DashboardCacheKey>,
    pub bytes: Vec<u8>,
}

impl DashboardCache {
    /// Nothing published yet.
    pub fn new() -> (cache: DashboardCache)
        ensures
            cache.key is None,
            cache.bytes@.len() == 0,
    {
        DashboardCache { key: None, bytes: Vec::new() }
    }

    /// Whether the bytes can be published again.
    pub fn is_current(&self, key: DashboardCacheKey) -> (current: bool)
        ensures
            current == (self.key == Some(key)),
    {
        match self.key {
            Some(held) => held == key,
            None => false,
        }
    }

    /// Holds newer bytes.
    pub fn store(&mut self, key: DashboardCacheKey, bytes: Vec<u8>)
        ensures
            final(self).key == Some(key),
            final(self).bytes == bytes,
    {
        self.key = Some(key);
        self.bytes = bytes;
    }
}

/// However the list of rows changes, the selection stays on a row.
pub proof fn law_selection_stays_on_a_row(selected: Option<usize>, rows: nat)
    requires
        rows <= usize::MAX,
    ensures
        rows > 0 ==> clamped(selected, rows) is Some && clamped(selected, rows)->0 < rows,
        clamped(clamped(selected, rows), rows) == clamped(selected, rows),
        rows == 0 ==> clamped(selected, rows) is None,
{
}

} // verus!
