//! How the application is turned into what is published of it.

use vstd::prelude::*;

use crate::app::App;
use crate::commands::{self, package_positions};
use crate::dashboard::{
    self, DashboardFileRow, DashboardFileStatus, DashboardMetrics, DashboardPackageRow,
    DashboardRow, DashboardTotals, DashboardUiMode, DownloadDashboardState, FileRowModel,
    PackageRowModel, TuiRow,
};
use crate::ids::{FileId, FileIdMap, PackageId};
use crate::model::{FileEntry, FileState, FileStatus, PackageState, PackageStatus, TransientRow};
use crate::packages::{self, find_package};
use crate::settings::DownloadConfig;
use crate::text::{self, split, starts_with};

verus! {

/// The share of bytes in whole percent, at most a hundred.
pub open spec fn share(downloaded: u64, size: u64) -> u64 {
    if size == 0 {
        0
    } else {
        let scaled = if downloaded * 100 > u64::MAX {
            u64::MAX as int
        } else {
            downloaded * 100
        };
        if scaled / size as int > 100 {
            100
        } else {
            (scaled / size as int) as u64
        }
    }
}

/// The share of bytes in whole percent, at most a hundred.
pub fn percent(downloaded: u64, size: u64) -> (pct: u64)
    ensures
        pct == share(downloaded, size),
        pct <= 100,
{
    if size == 0 {
        return 0;
    }
    let scaled: u64 = if downloaded > u64::MAX / 100 {
        u64::MAX
    } else {
        downloaded * 100
    };
    let whole: u64 = scaled / size;
    if whole > 100 {
        100
    } else {
        whole
    }
}

/// Whether a label is an address.
pub open spec fn is_address(label: Seq<char>) -> bool {
    text::begins_with(label, "http://"@) || text::begins_with(label, "https://"@)
}

/// Whether a label is an address.
fn looks_like_address(label: &str) -> (address: bool)
    ensures
        address == is_address(label@),
{
    starts_with(label, "http://") || starts_with(label, "https://")
}

/// The first piece that is not empty, else the whole.
pub open spec fn first_filled(parts: Seq<Seq<char>>, whole: Seq<char>) -> Seq<char>
    decreases parts.len(),
{
    if parts.len() == 0 {
        whole
    } else if parts[0].len() > 0 {
        parts[0]
    } else {
        first_filled(parts.drop_first(), whole)
    }
}

/// The outermost folder of a path, else the path itself.
pub fn folder_label_from_path(path: &str) -> (label: String)
    ensures
        label@ == first_filled(text::pieces(path@, '/'), path@),
{
    let parts = split(path, '/');
    let mut i: usize = 0;
    let ghost all = text::views(parts@);
    assert(all.skip(0) =~= all);
    while i < parts.len()
        invariant
            i <= parts@.len(),
            all == text::views(parts@),
            all == text::pieces(path@, '/'),
            first_filled(all, path@) == first_filled(all.skip(i as int), path@),
        decreases parts.len() - i,
    {
        assert(all.skip(i as int).drop_first() =~= all.skip(i as int + 1));
        assert(all.skip(i as int)[0] == parts@[i as int]@);
        if !parts[i].as_str().is_empty() {
            return parts[i].clone();
        }
        i += 1;
    }
    path.to_owned()
}

/// The text before the first slash of a path, where there is any.
pub open spec fn folder(path: Seq<char>) -> Option<Seq<char>> {
    let first = text::pieces(path, '/')[0];
    if first.len() > 0 {
        Some(first)
    } else {
        None
    }
}

/// The text before the first slash of a path, where there is any.
fn first_folder(path: &str) -> (first: Option<String>)
    ensures
        dashboard::optional(first) == folder(path@),
{
    let parts = split(path, '/');
    assert(text::views(parts@)[0] == parts@[0]@);
    if parts[0].as_str().is_empty() {
        None
    } else {
        Some(parts[0].clone())
    }
}

/// The folder that all files of a package lie in, as far as they lie in any, and whether they
/// disagree.
pub open spec fn common_folder(files: Seq<FileState>) -> (Option<Seq<char>>, bool)
    decreases files.len(),
{
    if files.len() == 0 {
        (None, false)
    } else {
        let (known, conflict) = common_folder(files.drop_last());
        match (known, folder(files.last().path@)) {
            (None, found) => (found, conflict),
            (Some(held), Some(found)) => (known, conflict || held != found),
            (Some(_), None) => (known, conflict),
        }
    }
}

/// The bytes of files as they are shown.
pub open spec fn shown_sum(files: Seq<FileState>) -> u64
    decreases files.len(),
{
    if files.len() == 0 {
        0
    } else {
        crate::runtime::capped_sum(shown_sum(files.drop_last()), files.last().shown_bytes())
    }
}

/// The sizes of files.
pub open spec fn size_sum(files: Seq<FileState>) -> u64
    decreases files.len(),
{
    if files.len() == 0 {
        0
    } else {
        crate::runtime::capped_sum(size_sum(files.drop_last()), files.last().size)
    }
}

/// How many files are complete.
pub open spec fn complete_count(files: Seq<FileState>) -> nat
    decreases files.len(),
{
    if files.len() == 0 {
        0
    } else {
        complete_count(files.drop_last()) + if files.last().lifecycle is Complete {
            1nat
        } else {
            0nat
        }
    }
}

/// Whether something is done with a file.
pub open spec fn busy(app: App, file: FileState) -> bool {
    file.lifecycle is Downloading || app.tracking@.verifies(file.id@)
}

/// Whether something is done with one of the files.
pub open spec fn any_busy(app: App, files: Seq<FileState>) -> bool {
    exists|i: int| 0 <= i < files.len() && busy(app, #[trigger] files[i])
}

/// How a package with its files is published.
pub open spec fn package_row(
    app: App,
    package: PackageState,
    files: Seq<FileState>,
) -> PackageRowModel {
    PackageRowModel {
        id: package.id.text(),
        source_url: if files.len() == 0 {
            Seq::empty()
        } else {
            files[0].source_url@
        },
        display_name: package.display_name@,
        status: if any_busy(app, files) {
            PackageStatus::Downloading
        } else {
            package.status
        },
        file_ids: packages::names(files),
        present_files: files.len(),
        completed_files: complete_count(files),
        downloaded_bytes: shown_sum(files),
        total_bytes: size_sum(files),
        percent: share(shown_sum(files), size_sum(files)),
        expanded: app.expanded_packages@.contains(package.id) || package.status
            == PackageStatus::Failed,
        folder_label: if common_folder(files).1 {
            None
        } else {
            common_folder(files).0
        },
        error: dashboard::optional(package.error),
    }
}

/// How packages are published: those that have files, in their order.
pub open spec fn package_rows(app: App, list: Seq<PackageState>) -> Seq<PackageRowModel>
    decreases list.len(),
{
    if list.len() == 0 {
        Seq::empty()
    } else {
        let earlier = package_rows(app, list.drop_last());
        let files = commands::package_files(app.core_state, list.last().id);
        if files.len() > 0 {
            earlier.push(package_row(app, list.last(), files))
        } else {
            earlier
        }
    }
}

/// The bytes of a row that stands for a package of its own: never all of them before it is
/// complete.
pub open spec fn lone_bytes(file: FileEntry) -> u64 {
    if file.status is Complete {
        file.size
    } else if file.downloaded < file.size {
        file.downloaded
    } else if file.size > 0 {
        (file.size - 1) as u64
    } else {
        0
    }
}

/// How a row is published that stands for a package of its own.
pub open spec fn lone_row(app: App, file: FileEntry) -> PackageRowModel {
    PackageRowModel {
        id: file.id@,
        source_url: if app.overlays(file.id@) && app.overlay(file.id@) is PendingUrl {
            app.overlay(file.id@)->source_url@
        } else {
            file.id@
        },
        display_name: file.name@,
        status: match file.status {
            FileStatus::Error(_) => PackageStatus::Failed,
            FileStatus::Downloading => PackageStatus::Downloading,
            FileStatus::Complete => PackageStatus::Complete,
            FileStatus::Queued => PackageStatus::Queued,
        },
        file_ids: seq![file.id@],
        present_files: 1,
        completed_files: if file.status is Complete {
            1
        } else {
            0
        },
        downloaded_bytes: lone_bytes(file),
        total_bytes: file.size,
        percent: share(lone_bytes(file), file.size),
        expanded: false,
        folder_label: None,
        error: match file.status {
            FileStatus::Error(message) => Some(message@),
            _ => None,
        },
    }
}

/// What published packages say.
pub open spec fn packages_shown(rows: Seq<DashboardPackageRow>) -> Seq<PackageRowModel> {
    rows.map_values(|row: DashboardPackageRow| row@)
}

/// What published files say.
pub open spec fn files_shown(rows: Seq<DashboardFileRow>) -> Seq<FileRowModel> {
    rows.map_values(|row: DashboardFileRow| row@)
}

/// How the files of the application are published.
pub open spec fn file_row(app: App, speeds: Map<Seq<char>, u64>, file: FileEntry) -> FileRowModel {
    FileRowModel {
        id: file.id@,
        package_id: if app.core_state.has(file.id@) {
            app.core_state.file(file.id@).package_id.text()
        } else if app.overlays(file.id@) && app.overlay(file.id@) is PendingUrl {
            app.overlay(file.id@)->source_url@
        } else {
            Seq::empty()
        },
        name: file.name@,
        size: file.size,
        downloaded: file.downloaded,
        speed: if speeds.dom().contains(file.id@) {
            speeds[file.id@]
        } else {
            0
        },
        status: if app.tracking@.verifies(file.id@) {
            DashboardFileStatus::Verifying
        } else {
            DashboardFileStatus::published(file.status)
        },
        package_label: app.label_of(file.id@),
    }
}

/// How a row on the screen is published.
pub open spec fn publishes_row(row: DashboardRow, shown: TuiRow) -> bool {
    match (row, shown) {
        (DashboardRow::Package { package_id }, TuiRow::Package(id)) => package_id@ == id.text(),
        (
            DashboardRow::File { package_id, file_id },
            TuiRow::File { package_id: id, file_id: file },
        ) => file_id == file && package_id@ == match id {
            Some(id) => id.text(),
            None => Seq::empty(),
        },
        _ => false,
    }
}

impl App {
    /// The label of the package that a file belongs to: the name of the package unless that is
    /// an address, else the outermost folder of the file.
    pub open spec fn label_of(&self, id: Seq<char>) -> Option<Seq<char>> {
        if self.core_state.has(id) {
            let file = self.core_state.file(id);
            let folder = first_filled(text::pieces(file.path@, '/'), file.path@);
            match self.package(file.package_id) {
                Some(package) => if is_address(package.display_name@) {
                    Some(folder)
                } else {
                    Some(package.display_name@)
                },
                None => Some(folder),
            }
        } else if self.overlays(id) {
            let row = self.overlay(id);
            let name = row.entry().name@;
            match row {
                TransientRow::PendingUrl { source_url, .. } => if is_address(source_url@) {
                    Some(first_filled(text::pieces(name, '/'), name))
                } else {
                    Some(source_url@)
                },
                TransientRow::UiError { .. } => Some(
                    first_filled(text::pieces(name, '/'), name),
                ),
            }
        } else {
            None
        }
    }

    /// The label of the package that a file belongs to.
    pub fn package_label_for_file(&self, id: &FileId) -> (label: Option<String>)
        requires
            self.wf(),
        ensures
            dashboard::optional(label) == self.label_of(id@),
    {
        if let Some(file) = self.core_state.get_file(id) {
            if let Some(package) = find_package(&self.core_state.packages, file.package_id) {
                if !looks_like_address(&package.display_name) {
                    return Some(package.display_name.clone());
                }
            }
            return Some(folder_label_from_path(&file.path));
        }
        match self.overlay_files.find(id) {
            Some(at) => {
                assert(self.overlay_files.keys()[at as int] == id@);
                let row = self.overlay_files.value(at);
                if let Some(source_url) = row.source_url() {
                    if !looks_like_address(source_url) {
                        return Some(source_url.clone());
                    }
                }
                Some(folder_label_from_path(&row.file().name))
            },
            None => None,
        }
    }

    /// The address of an overlay row that waits to be looked up.
    fn overlay_source(&self, id: &FileId) -> (source: Option<String>)
        requires
            self.wf(),
        ensures
            match source {
                Some(url) => self.overlays(id@) && self.overlay(id@) is PendingUrl && url@
                    == self.overlay(id@)->source_url@,
                None => !(self.overlays(id@) && self.overlay(id@) is PendingUrl),
            },
    {
        match self.overlay_files.find(id) {
            Some(at) => {
                assert(self.overlay_files.keys()[at as int] == id@);
                match self.overlay_files.value(at).source_url() {
                    Some(url) => Some(url.clone()),
                    None => None,
                }
            },
            None => None,
        }
    }

    /// Whether a package is shown with its files.
    fn is_expanded(&self, package_id: PackageId) -> (expanded: bool)
        ensures
            expanded == self.expanded_packages@.contains(package_id),
    {
        let mut i: usize = 0;
        while i < self.expanded_packages.len()
            invariant
                i <= self.expanded_packages@.len(),
                forall|k: int| 0 <= k < i ==> self.expanded_packages@[k] != package_id,
            decreases self.expanded_packages.len() - i,
        {
            if self.expanded_packages[i] == package_id {
                return true;
            }
            i += 1;
        }
        false
    }

    /// What a package with its files says.
    fn project_package(&self, package: &PackageState, at: &Vec<usize>) -> (row: DashboardPackageRow)
        requires
            self.wf(),
            at@.len() == commands::package_files(self.core_state, package.id).len(),
            forall|k: int|
                0 <= k < at@.len() ==> (#[trigger] at@[k]) < self.core_state.files.values().len()
                    && self.core_state.files.values()[at@[k] as int] == commands::package_files(
                    self.core_state,
                    package.id,
                )[k],
        ensures
            row@ == package_row(
                *self,
                *package,
                commands::package_files(self.core_state, package.id),
            ),
    {
        let ghost files = commands::package_files(self.core_state, package.id);
        let mut source_url = String::new();
        let mut file_ids: Vec<String> = Vec::new();
        let mut completed: usize = 0;
        let mut downloaded: u64 = 0;
        let mut total: u64 = 0;
        let mut active = false;
        let mut common: Option<String> = None;
        let mut conflict = false;
        let mut k: usize = 0;
        proof {
            assert(text::views(file_ids@) =~= packages::names(files.take(0)));
            assert(source_url@ =~= Seq::<char>::empty());
        }
        while k < at.len()
            invariant
                self.wf(),
                files == commands::package_files(self.core_state, package.id),
                at@.len() == files.len(),
                forall|j: int|
                    0 <= j < at@.len() ==> (#[trigger] at@[j])
                        < self.core_state.files.values().len()
                        && self.core_state.files.values()[at@[j] as int] == files[j],
                k <= at@.len(),
                source_url@ == (if k == 0 {
                    Seq::empty()
                } else {
                    files[0].source_url@
                }),
                text::views(file_ids@) == packages::names(files.take(k as int)),
                completed == complete_count(files.take(k as int)),
                completed <= k,
                downloaded == shown_sum(files.take(k as int)),
                total == size_sum(files.take(k as int)),
                active == any_busy(*self, files.take(k as int)),
                (dashboard::optional(common), conflict) == common_folder(files.take(k as int)),
            decreases at.len() - k,
        {
            let file = self.core_state.files.value(at[k]);
            let ghost before = files.take(k as int);
            let ghost after = files.take(k as int + 1);
            proof {
                assert(after.drop_last() =~= before);
                assert(after.last() == *file);
                assert(packages::names(after) =~= packages::names(before).push(file.id@));
                if any_busy(*self, before) {
                    let i = choose|i: int| 0 <= i < before.len() && busy(*self, before[i]);
                    assert(after[i] == before[i]);
                }
                if any_busy(*self, after) && !busy(*self, *file) {
                    let i = choose|i: int| 0 <= i < after.len() && busy(*self, after[i]);
                    assert(before[i] == after[i]);
                }
                if busy(*self, *file) {
                    assert(busy(*self, after[k as int]));
                }
            }
            if k == 0 {
                source_url = file.source_url.clone();
            }
            let ghost ids_before = text::views(file_ids@);
            file_ids.push(file.id.clone());
            assert(text::views(file_ids@) =~= ids_before.push(file.id@));
            if file.lifecycle.is_downloading() || self.tracking.is_verification_active(&file.id) {
                active = true;
            }
            let found = first_folder(&file.path);
            match (&common, found) {
                (None, found) => {
                    common = found;
                },
                (Some(held), Some(found)) => {
                    if *held.as_str() != *found.as_str() {
                        conflict = true;
                    }
                },
                (Some(_), None) => {},
            }
            if file.lifecycle.is_complete() {
                completed += 1;
            }
            downloaded = downloaded.saturating_add(file.visible_bytes());
            total = total.saturating_add(file.size);
            k += 1;
        }
        assert(files.take(k as int) =~= files);
        let error = match &package.error {
            Some(error) => Some(error.clone()),
            None => None,
        };
        let row = DashboardPackageRow {
            id: package.id.to_text(),
            source_url,
            display_name: package.display_name.clone(),
            status: if active {
                PackageStatus::Downloading
            } else {
                package.status
            },
            file_ids,
            present_files: at.len(),
            completed_files: completed,
            downloaded_bytes: downloaded,
            total_bytes: total,
            percent: percent(downloaded, total),
            expanded: self.is_expanded(package.id) || package.status == PackageStatus::Failed,
            folder_label: if conflict {
                None
            } else {
                common
            },
            error,
        };
        assert(row@ =~= package_row(*self, *package, files));
        row
    }

    /// What a row says that stands for a package of its own.
    fn project_lone(&self, file: &FileEntry) -> (row: DashboardPackageRow)
        requires
            self.wf(),
        ensures
            row@ == lone_row(*self, *file),
    {
        let downloaded: u64 = match &file.status {
            FileStatus::Complete => file.size,
            _ => if file.downloaded < file.size {
                file.downloaded
            } else if file.size > 0 {
                file.size - 1
            } else {
                0
            },
        };
        let complete = matches!(file.status, FileStatus::Complete);
        let mut file_ids: Vec<String> = Vec::new();
        file_ids.push(file.id.clone());
        assert(text::views(file_ids@) =~= seq![file.id@]);
        let source_url = match self.overlay_source(&file.id) {
            Some(url) => url,
            None => file.id.clone(),
        };
        let row = DashboardPackageRow {
            id: file.id.clone(),
            source_url,
            display_name: file.name.clone(),
            status: match &file.status {
                FileStatus::Error(_) => PackageStatus::Failed,
                FileStatus::Downloading => PackageStatus::Downloading,
                FileStatus::Complete => PackageStatus::Complete,
                FileStatus::Queued => PackageStatus::Queued,
            },
            file_ids,
            present_files: 1,
            completed_files: if complete {
                1
            } else {
                0
            },
            downloaded_bytes: downloaded,
            total_bytes: file.size,
            percent: percent(downloaded, file.size),
            expanded: false,
            folder_label: None,
            error: match &file.status {
                FileStatus::Error(message) => Some(message.clone()),
                _ => None,
            },
        };
        assert(row@ =~= lone_row(*self, *file));
        row
    }

    /// The packages as they are published: those of the core that have files; where the core
    /// knows none, every row as a package of its own.
    pub fn dashboard_packages(&self) -> (rows: Vec<DashboardPackageRow>)
        requires
            self.wf(),
        ensures
            packages_shown(rows@) == self.packages_published(),
    {
        let mut rows: Vec<DashboardPackageRow> = Vec::new();
        let mut i: usize = 0;
        proof {
            assert(packages_shown(rows@) =~= Seq::empty());
        }
        if self.core_state.packages.len() > 0 {
            let ghost list = self.core_state.packages@;
            while i < self.core_state.packages.len()
                invariant
                    self.wf(),
                    list == self.core_state.packages@,
                    i <= list.len(),
                    packages_shown(rows@) == package_rows(*self, list.take(i as int)),
                decreases list.len() - i,
            {
                let package = &self.core_state.packages[i];
                let ghost before = packages_shown(rows@);
                assert(list.take(i as int + 1).drop_last() =~= list.take(i as int));
                let at = package_positions(&self.core_state, package.id);
                if at.len() > 0 {
                    let row = self.project_package(package, &at);
                    let ghost shown = row@;
                    rows.push(row);
                    assert(packages_shown(rows@) =~= before.push(shown));
                }
                i += 1;
            }
            assert(list.take(i as int) =~= list);
            return rows;
        }
        while i < self.files.len()
            invariant
                self.wf(),
                i <= self.files@.len(),
                rows@.len() == i,
                forall|k: int| 0 <= k < i ==> (#[trigger] rows@[k])@ == lone_row(*self, self.files@[k]),
            decreases self.files.len() - i,
        {
            rows.push(self.project_lone(&self.files[i]));
            i += 1;
        }
        assert(packages_shown(rows@) =~= self.packages_published());
        rows
    }

    /// The packages as they are published.
    pub open spec fn packages_published(&self) -> Seq<PackageRowModel> {
        if self.core_state.packages@.len() > 0 {
            package_rows(*self, self.core_state.packages@)
        } else {
            self.files@.map_values(|file: FileEntry| lone_row(*self, file))
        }
    }

    /// What everything adds up to: the files of the current run as the core counts them, where it
    /// knows any.
    pub fn dashboard_totals(&self) -> (totals: DashboardTotals)
        requires
            self.wf(),
        ensures
            totals == self.totals_published(),
    {
        let run = self.core_state.totals;
        let known = self.core_state.files.len() > 0;
        DashboardTotals {
            total_downloaded: self.total_downloaded,
            total_size: self.total_size,
            files_completed: self.files_completed,
            files_total: self.files_total,
            current_speed: self.current_speed,
            run_total_bytes: if known {
                run.run_total_bytes
            } else {
                self.total_size
            },
            run_completed_bytes: if known {
                run.run_completed_bytes
            } else {
                self.total_downloaded
            },
            run_file_total: if known {
                run.run_file_total
            } else {
                self.files_total
            },
            run_file_completed: if known {
                run.run_file_completed
            } else {
                self.files_completed
            },
        }
    }

    /// What everything adds up to.
    pub open spec fn totals_published(&self) -> DashboardTotals {
        let run = self.core_state.totals;
        let known = self.core_state.files.keys().len() > 0;
        DashboardTotals {
            total_downloaded: self.total_downloaded,
            total_size: self.total_size,
            files_completed: self.files_completed,
            files_total: self.files_total,
            current_speed: self.current_speed,
            run_total_bytes: if known {
                run.run_total_bytes
            } else {
                self.total_size
            },
            run_completed_bytes: if known {
                run.run_completed_bytes
            } else {
                self.total_downloaded
            },
            run_file_total: if known {
                run.run_file_total
            } else {
                self.files_total
            },
            run_file_completed: if known {
                run.run_file_completed
            } else {
                self.files_completed
            },
        }
    }

    /// What a file says. `speeds` holds the speeds of files.
    pub fn project_file(&self, speeds: &FileIdMap<u64>, file: &FileEntry) -> (row: DashboardFileRow)
        requires
            self.wf(),
        ensures
            row@ == file_row(*self, speeds@, *file),
    {
        let package_id = match self.core_state.get_file(&file.id) {
            Some(known) => known.package_id.to_text(),
            None => match self.overlay_source(&file.id) {
                Some(url) => url,
                None => String::new(),
            },
        };
        let speed: u64 = match speeds.get(&file.id) {
            Some(speed) => *speed,
            None => 0,
        };
        let status = if self.tracking.is_verification_active(&file.id) {
            DashboardFileStatus::Verifying
        } else {
            DashboardFileStatus::of(&file.status)
        };
        let row = DashboardFileRow {
            id: file.id.clone(),
            package_id,
            name: file.name.clone(),
            size: file.size,
            downloaded: file.downloaded,
            speed,
            status,
            package_label: self.package_label_for_file(&file.id),
        };
        assert(row@ =~= file_row(*self, speeds@, *file));
        row
    }

    /// How the rows on the screen are published.
    fn project_rows(&self, rows: &Vec<TuiRow>) -> (published: Vec<DashboardRow>)
        ensures
            published@.len() == rows@.len(),
            forall|k: int| 0 <= k < rows@.len() ==> publishes_row(#[trigger] published@[k], rows@[k]),
    {
        let mut published: Vec<DashboardRow> = Vec::new();
        let mut i: usize = 0;
        while i < rows.len()
            invariant
                i <= rows@.len(),
                published@.len() == i,
                forall|k: int| 0 <= k < i ==> publishes_row(#[trigger] published@[k], rows@[k]),
            decreases rows.len() - i,
        {
            let row = match &rows[i] {
                TuiRow::Package(id) => DashboardRow::Package { package_id: id.to_text() },
                TuiRow::File { package_id, file_id } => DashboardRow::File {
                    package_id: match package_id {
                        Some(id) => id.to_text(),
                        None => String::new(),
                    },
                    file_id: file_id.clone(),
                },
            };
            published.push(row);
            i += 1;
        }
        published
    }

    /// The application as it is published. `speeds` holds the speeds of files, `rows` the rows on
    /// the screen.
    pub fn dashboard_state(
        &self,
        ui_mode: DashboardUiMode,
        read_only: bool,
        speeds: &FileIdMap<u64>,
        rows: &Vec<TuiRow>,
    ) -> (state: DownloadDashboardState)
        requires
            self.wf(),
        ensures
            state.authenticated == self.authenticated,
            state.paused == self.paused,
            state.logging_in == self.login.logging_in,
            state.login_error == self.login.error,
            state.popup == self.popup,
            state.ui_mode == ui_mode,
            state.read_only == read_only,
            state.status == self.status,
            packages_shown(state.packages@) == self.packages_published(),
            files_shown(state.files@) == self.files@.map_values(
                |file: FileEntry| file_row(*self, speeds@, file),
            ),
            state.rows@.len() == rows@.len(),
            forall|k: int|
                0 <= k < rows@.len() ==> publishes_row(#[trigger] state.rows@[k], rows@[k]),
            state.totals == self.totals_published(),
            state.metrics == (DashboardMetrics {
                cpu_usage_bits: self.cpu_usage_bits,
                memory_rss: self.memory_rss,
                api_port: self.api_port,
            }),
            state.config == self.config.config,
    {
        let mut files: Vec<DashboardFileRow> = Vec::new();
        let mut i: usize = 0;
        while i < self.files.len()
            invariant
                self.wf(),
                i <= self.files@.len(),
                files@.len() == i,
                forall|k: int|
                    0 <= k < i ==> (#[trigger] files@[k])@ == file_row(*self, speeds@, self.files@[k]),
            decreases self.files.len() - i,
        {
            files.push(self.project_file(speeds, &self.files[i]));
            i += 1;
        }
        proof {
            assert(files_shown(files@) =~= self.files@.map_values(
                |file: FileEntry| file_row(*self, speeds@, file),
            ));
        }
        let login_error = match &self.login.error {
            Some(error) => Some(error.clone()),
            None => None,
        };
        let config = &self.config.config;
        let path = match &config.path {
            Some(path) => Some(path.clone()),
            None => None,
        };
        DownloadDashboardState {
            authenticated: self.authenticated,
            paused: self.paused,
            logging_in: self.login.logging_in,
            login_error,
            popup: self.popup,
            ui_mode,
            read_only,
            status: self.status.clone(),
            packages: self.dashboard_packages(),
            files,
            rows: self.project_rows(rows),
            totals: self.dashboard_totals(),
            metrics: DashboardMetrics {
                cpu_usage_bits: self.cpu_usage_bits,
                memory_rss: self.memory_rss,
                api_port: self.api_port,
            },
            config: DownloadConfig {
                chunks_per_file: config.chunks_per_file,
                mega_chunks_per_request: config.mega_chunks_per_request,
                concurrent_files: config.concurrent_files,
                force_overwrite: config.force_overwrite,
                cleanup_on_error: config.cleanup_on_error,
                path,
            },
        }
    }
}

/// No more bytes are published of a row on its own than it has, and all of them only once it is
/// complete.
pub proof fn law_lone_rows_show_no_more_than_they_have(app: App, file: FileEntry)
    ensures
        lone_row(app, file).downloaded_bytes <= lone_row(app, file).total_bytes,
        file.size > 0 && !(file.status is Complete) ==> lone_row(app, file).downloaded_bytes
            < file.size,
        lone_row(app, file).percent <= 100,
{
}

/// A package without files is not published.
pub proof fn law_published_packages_have_files(app: App, list: Seq<PackageState>)
    ensures
        forall|k: int|
            0 <= k < package_rows(app, list).len() ==> (#[trigger] package_rows(
                app,
                list,
            )[k]).present_files > 0,
        package_rows(app, list).len() <= list.len(),
    decreases list.len(),
{
    if list.len() > 0 {
        law_published_packages_have_files(app, list.drop_last());
        let earlier = package_rows(app, list.drop_last());
        assert forall|k: int| 0 <= k < package_rows(app, list).len() implies (
        #[trigger] package_rows(app, list)[k]).present_files > 0 by {
            if k < earlier.len() {
                assert(package_rows(app, list)[k] == earlier[k]);
            }
        }
    }
}

} // verus!
