//! What holds of everything that is published.

use vstd::prelude::*;

use crate::app::App;
use crate::commands;
use crate::dashboard::{self, DashboardFileRow, DashboardFileStatus, DownloadDashboardState};
use crate::model::{FileEntry, FileState, FileStatus, PackageState, PackageStatus};
use crate::packages;
use crate::projection;
use crate::text;

verus! {

/// One more file raises the bytes of a published package by exactly that file's size, and its
/// completed bytes by what is shown of the file, as long as the sums fit.
pub proof fn law_one_more_file_adds_its_bytes(
    app: App,
    package: PackageState,
    files: Seq<FileState>,
    file: FileState,
)
    ensures
        ({
            let before = projection::package_row(app, package, files);
            let after = projection::package_row(app, package, files.push(file));
            let shown = if file.lifecycle is Complete {
                file.size
            } else {
                file.progress.displayed_bytes
            };
            &&& before.total_bytes + file.size <= u64::MAX ==> after.total_bytes
                == before.total_bytes + file.size
            &&& before.total_bytes + file.size > u64::MAX ==> after.total_bytes == u64::MAX
            &&& before.downloaded_bytes + shown <= u64::MAX ==> after.downloaded_bytes
                == before.downloaded_bytes + shown
            &&& before.downloaded_bytes + shown > u64::MAX ==> after.downloaded_bytes == u64::MAX
            &&& after.present_files == before.present_files + 1
            &&& after.completed_files == before.completed_files + if file.lifecycle is Complete {
                1int
            } else {
                0int
            }
            &&& after.file_ids == before.file_ids.push(file.id@)
        }),
{
    assert(files.push(file).drop_last() =~= files);
    assert(packages::names(files.push(file)) =~= packages::names(files).push(file.id@));
}

/// A published package without files has no bytes.
pub proof fn law_no_files_have_no_bytes(app: App, package: PackageState)
    ensures
        ({
            let row = projection::package_row(app, package, Seq::empty());
            &&& row.total_bytes == 0
            &&& row.downloaded_bytes == 0
            &&& row.present_files == 0
            &&& row.completed_files == 0
            &&& row.percent == 0
        }),
{
}

/// What a published package adds up to does not depend on how its files are put together: it is
/// what two parts of them add up to, in either order.
pub proof fn law_package_bytes_are_sums_of_parts(
    app: App,
    package: PackageState,
    a: Seq<FileState>,
    b: Seq<FileState>,
)
    ensures
        ({
            let first = projection::package_row(app, package, a);
            let second = projection::package_row(app, package, b);
            let whole = projection::package_row(app, package, a + b);
            let turned = projection::package_row(app, package, b + a);
            &&& whole.total_bytes == turned.total_bytes
            &&& whole.downloaded_bytes == turned.downloaded_bytes
            &&& whole.completed_files == turned.completed_files
            &&& whole.percent == turned.percent
            &&& first.total_bytes + second.total_bytes <= u64::MAX ==> whole.total_bytes
                == first.total_bytes + second.total_bytes
            &&& first.downloaded_bytes + second.downloaded_bytes <= u64::MAX
                ==> whole.downloaded_bytes == first.downloaded_bytes + second.downloaded_bytes
            &&& whole.completed_files == first.completed_files + second.completed_files
            &&& whole.present_files == a.len() + b.len()
        }),
{
    lemma_sums(a, b);
    lemma_sums(b, a);
}

/// Sums over two parts.
proof fn lemma_sums(a: Seq<FileState>, b: Seq<FileState>)
    ensures
        projection::size_sum(a + b) == (if projection::size_sum(a) + projection::size_sum(b)
            > u64::MAX {
            u64::MAX as int
        } else {
            projection::size_sum(a) + projection::size_sum(b)
        }),
        projection::shown_sum(a + b) == (if projection::shown_sum(a) + projection::shown_sum(b)
            > u64::MAX {
            u64::MAX as int
        } else {
            projection::shown_sum(a) + projection::shown_sum(b)
        }),
        projection::complete_count(a + b) == projection::complete_count(a)
            + projection::complete_count(b),
    decreases b.len(),
{
    if b.len() == 0 {
        assert(a + b =~= a);
    } else {
        lemma_sums(a, b.drop_last());
        assert((a + b).drop_last() =~= a + b.drop_last());
        assert((a + b).last() == b.last());
    }
}

/// The percentage of a published package is the share of its bytes that is complete, rounded
/// down: all of it exactly where all bytes are complete, and never more.
pub proof fn law_percent_is_the_share_of_bytes(
    app: App,
    package: PackageState,
    files: Seq<FileState>,
)
    ensures
        ({
            let row = projection::package_row(app, package, files);
            &&& row.percent <= 100
            &&& row.total_bytes == 0 ==> row.percent == 0
            &&& row.total_bytes > 0 && row.downloaded_bytes >= row.total_bytes
                && row.downloaded_bytes * 100 <= u64::MAX ==> row.percent == 100
            &&& row.total_bytes > 0 && row.downloaded_bytes < row.total_bytes
                && row.downloaded_bytes * 100 <= u64::MAX ==> {
                &&& row.percent * row.total_bytes <= row.downloaded_bytes * 100
                &&& row.downloaded_bytes * 100 < (row.percent + 1) * row.total_bytes
                &&& row.percent < 100
            }
        }),
{
    let row = projection::package_row(app, package, files);
    law_share_is_rounded_down(row.downloaded_bytes, row.total_bytes);
}

/// A share in percent is what it says, rounded down.
pub proof fn law_share_is_rounded_down(downloaded: u64, size: u64)
    ensures
        projection::share(downloaded, size) <= 100,
        size == 0 ==> projection::share(downloaded, size) == 0,
        size > 0 && downloaded >= size && downloaded * 100 <= u64::MAX ==> projection::share(
            downloaded,
            size,
        ) == 100,
        size > 0 && downloaded < size && downloaded * 100 <= u64::MAX ==> {
            &&& projection::share(downloaded, size) * size <= downloaded * 100
            &&& downloaded * 100 < (projection::share(downloaded, size) + 1) * size
            &&& projection::share(downloaded, size) < 100
        },
{
    if size > 0 && downloaded * 100 <= u64::MAX {
        let scaled = downloaded * 100;
        let whole = scaled / size as int;
        vstd::arithmetic::div_mod::lemma_fundamental_div_mod(scaled, size as int);
        vstd::arithmetic::div_mod::lemma_mod_bound(scaled, size as int);
        assert(whole * size <= scaled && scaled < (whole + 1) * size) by (nonlinear_arith)
            requires
                scaled == size as int * whole + scaled % size as int,
                0 <= scaled % size as int,
                scaled % (size as int) < size,
        ;
        if downloaded >= size {
            assert(whole >= 100) by (nonlinear_arith)
                requires
                    scaled < (whole + 1) * size,
                    scaled >= 100 * size,
                    size > 0,
            ;
        } else {
            assert(whole < 100) by (nonlinear_arith)
                requires
                    whole * size <= scaled,
                    scaled < 100 * size,
                    size > 0,
            ;
            assert(whole >= 0) by (nonlinear_arith)
                requires
                    scaled < (whole + 1) * size,
                    scaled >= 0,
                    size > 0,
            ;
        }
    }
}

/// A published package shows that it is downloading exactly where something is done with one of
/// its files, or the core says so.
pub proof fn law_busy_files_make_busy_packages(
    app: App,
    package: PackageState,
    files: Seq<FileState>,
)
    ensures
        projection::package_row(app, package, files).status == PackageStatus::Downloading
            <==> package.status == PackageStatus::Downloading || exists|k: int|
            0 <= k < files.len() && ((#[trigger] files[k]).lifecycle is Downloading || (
            app.tracking@.targets.dom().contains(files[k].id@)
                && app.tracking@.inflight.contains(files[k].id@))),
        (forall|k: int|
            0 <= k < files.len() ==> !((#[trigger] files[k]).lifecycle is Downloading)
                && !app.tracking@.inflight.contains(files[k].id@)) ==> projection::package_row(
            app,
            package,
            files,
        ).status == package.status,
{
    if projection::any_busy(app, files) {
        let k = choose|k: int| 0 <= k < files.len() && projection::busy(app, #[trigger] files[k]);
        assert(files[k].lifecycle is Downloading || app.tracking@.verifies(files[k].id@));
    }
    if exists|k: int|
        0 <= k < files.len() && ((#[trigger] files[k]).lifecycle is Downloading || (
        app.tracking@.targets.dom().contains(files[k].id@) && app.tracking@.inflight.contains(
            files[k].id@,
        ))) {
        let k = choose|k: int|
            0 <= k < files.len() && ((#[trigger] files[k]).lifecycle is Downloading || (
            app.tracking@.targets.dom().contains(files[k].id@) && app.tracking@.inflight.contains(
                files[k].id@,
            )));
        assert(projection::busy(app, files[k]));
    }
}

/// Packages are published in their order, each that has files once and under its own identity,
/// and none that has none.
pub proof fn law_packages_with_files_are_published_in_order(
    app: App,
    earlier: Seq<PackageState>,
    package: PackageState,
    later: Seq<PackageState>,
)
    ensures
        projection::package_rows(app, earlier + later) == projection::package_rows(app, earlier)
            + projection::package_rows(app, later),
        ({
            let files = app.core_state.files.values().filter(
                |file: FileState| file.package_id == package.id,
            );
            let rows = projection::package_rows(app, seq![package]);
            &&& files.len() == 0 ==> rows.len() == 0
            &&& files.len() > 0 ==> {
                &&& rows.len() == 1
                &&& rows[0].id == package.id.text()
                &&& rows[0].display_name == package.display_name@
                &&& rows[0].present_files == files.len()
                &&& rows[0].file_ids == files.map_values(|file: FileState| file.id@)
                &&& rows[0].source_url == files[0].source_url@
            }
        }),
    decreases later.len(),
{
    reveal_with_fuel(projection::package_rows, 2);
    if later.len() == 0 {
        assert(earlier + later =~= earlier);
        assert(projection::package_rows(app, earlier) + projection::package_rows(app, later)
            =~= projection::package_rows(app, earlier));
    } else {
        law_packages_with_files_are_published_in_order(app, earlier, package, later.drop_last());
        assert((earlier + later).drop_last() =~= earlier + later.drop_last());
        assert((earlier + later).last() == later.last());
        assert(projection::package_rows(app, earlier + later) =~= projection::package_rows(
            app,
            earlier,
        ) + projection::package_rows(app, later));
    }
    let files = app.core_state.files.values().filter(
        |file: FileState| file.package_id == package.id,
    );
    let named = commands::in_package(package.id);
    let plain = |file: FileState| file.package_id == package.id;
    assert(named =~= plain);
    assert(files == commands::package_files(app.core_state, package.id));
    assert(seq![package].drop_last() =~= Seq::empty());
    assert(seq![package].last() == package);
    assert(packages::names(files) =~= files.map_values(|file: FileState| file.id@));
}

/// A published file says what its row says, and that it is verified exactly while it is.
pub proof fn law_published_files_say_what_is_shown(
    app: App,
    speeds: Map<Seq<char>, u64>,
    file: FileEntry,
)
    ensures
        ({
            let row = projection::file_row(app, speeds, file);
            let verified = app.tracking@.targets.dom().contains(file.id@)
                && app.tracking@.inflight.contains(file.id@);
            &&& row.id == file.id@
            &&& row.name == file.name@
            &&& row.size == file.size
            &&& row.downloaded == file.downloaded
            &&& speeds.dom().contains(file.id@) ==> row.speed == speeds[file.id@]
            &&& !speeds.dom().contains(file.id@) ==> row.speed == 0
            &&& row.status is Verifying <==> verified
            &&& !verified ==> {
                &&& row.status is Queued <==> file.status is Queued
                &&& row.status is Downloading <==> file.status is Downloading
                &&& row.status is Complete <==> file.status is Complete
                &&& row.status is Error <==> file.status is Error
                &&& file.status matches FileStatus::Error(message) ==> row.status
                    == (DashboardFileStatus::Error { message })
            }
            &&& app.core_state.has(file.id@) ==> row.package_id == app.core_state.file(
                file.id@,
            ).package_id.text()
        }),
{
}

/// The totals of the run are those of the core wherever it knows a file, and the speed and the
/// counts are those of the application.
pub proof fn law_totals_are_those_of_the_core(app: App)
    ensures
        ({
            let totals = app.totals_published();
            &&& totals.total_size == app.total_size
            &&& totals.total_downloaded == app.total_downloaded
            &&& totals.files_total == app.files_total
            &&& totals.files_completed == app.files_completed
            &&& totals.current_speed == app.current_speed
            &&& app.core_state.files.keys().len() > 0 ==> {
                &&& totals.run_total_bytes == app.core_state.totals.run_total_bytes
                &&& totals.run_completed_bytes == app.core_state.totals.run_completed_bytes
                &&& totals.run_file_total == app.core_state.totals.run_file_total
                &&& totals.run_file_completed == app.core_state.totals.run_file_completed
            }
            &&& app.core_state.files.keys().len() == 0 ==> {
                &&& totals.run_total_bytes == totals.total_size
                &&& totals.run_completed_bytes == totals.total_downloaded
                &&& totals.run_file_total == totals.files_total
                &&& totals.run_file_completed == totals.files_completed
            }
        }),
{
}

/// Where the core knows packages, what is published are the packages; else every row is a package
/// of its own, with all of the row's bytes, in the order of the rows.
pub proof fn law_rows_stand_for_packages_where_there_are_none(app: App, k: int)
    requires
        app.core_state.packages@.len() == 0,
        0 <= k < app.files@.len(),
    ensures
        app.packages_published().len() == app.files@.len(),
        app.packages_published()[k].id == app.files@[k].id@,
        app.packages_published()[k].display_name == app.files@[k].name@,
        app.packages_published()[k].file_ids == seq![app.files@[k].id@],
        app.packages_published()[k].total_bytes == app.files@[k].size,
        app.packages_published()[k].present_files == 1,
        app.packages_published()[k].completed_files == (if app.files@[k].status is Complete {
            1nat
        } else {
            0nat
        }),
        app.files@[k].status is Complete ==> app.packages_published()[k].downloaded_bytes
            == app.files@[k].size,
        !(app.files@[k].status is Complete) && app.files@[k].downloaded < app.files@[k].size
            ==> app.packages_published()[k].downloaded_bytes == app.files@[k].downloaded,
        !app.packages_published()[k].expanded,
        app.packages_published()[k].folder_label is None,
        app.packages_published()[k].error is Some <==> app.files@[k].status is Error,
        app.packages_published()[k].status == PackageStatus::Failed <==> app.files@[k].status is Error,
        app.packages_published()[k].status == PackageStatus::Complete
            <==> app.files@[k].status is Complete,
        app.packages_published()[k].status == PackageStatus::Downloading
            <==> app.files@[k].status is Downloading,
{
}

/// A label is the name of the package that a known file belongs to, unless that is an address;
/// then it is the outermost folder that the file lies in.
pub proof fn law_files_are_labelled_by_their_package_or_folder(
    app: App,
    id: Seq<char>,
    folder: Seq<char>,
    rest: Seq<char>,
)
    requires
        app.core_state.has(id),
        app.core_state.file(id).path@ == folder + seq!['/'] + rest,
        folder.len() > 0,
        forall|k: int| 0 <= k < folder.len() ==> folder[k] != '/',
    ensures
        match app.package(app.core_state.file(id).package_id) {
            Some(package) => if text::begins_with(package.display_name@, "http://"@)
                || text::begins_with(package.display_name@, "https://"@) {
                app.label_of(id) == Some(folder)
            } else {
                app.label_of(id) == Some(package.display_name@)
            },
            None => app.label_of(id) == Some(folder),
        },
{
    lemma_first_piece(folder, rest);
}

/// The first piece of a path is what stands before its first separator.
proof fn lemma_first_piece(folder: Seq<char>, rest: Seq<char>)
    requires
        forall|k: int| 0 <= k < folder.len() ==> folder[k] != '/',
    ensures
        text::pieces(folder + seq!['/'] + rest, '/').len() > 0,
        text::pieces(folder + seq!['/'] + rest, '/')[0] == folder,
        text::pieces(folder + seq!['/'] + rest, '/').len() > 1,
    decreases rest.len(),
{
    let path = folder + seq!['/'] + rest;
    if rest.len() == 0 {
        lemma_one_piece(folder);
        assert(path.drop_last() =~= folder);
        assert(path.last() == '/');
    } else {
        lemma_first_piece(folder, rest.drop_last());
        assert(path.drop_last() =~= folder + seq!['/'] + rest.drop_last());
    }
}

/// A text without separators is one piece.
proof fn lemma_one_piece(folder: Seq<char>)
    requires
        forall|k: int| 0 <= k < folder.len() ==> folder[k] != '/',
    ensures
        text::pieces(folder, '/') == seq![folder],
    decreases folder.len(),
{
    if folder.len() == 0 {
        assert(folder =~= Seq::empty());
    } else {
        lemma_one_piece(folder.drop_last());
        assert(folder.drop_last().push(folder.last()) =~= folder);
        assert(text::pieces(folder, '/') =~= seq![folder]);
    }
}

/// What is done is said to be active exactly where bytes are transferred or something is done with
/// a file; else the files that wait are counted.
pub proof fn law_activity_counts_what_waits(
    state: DownloadDashboardState,
    files: Seq<DashboardFileRow>,
    file: DashboardFileRow,
)
    ensures
        state.totals.current_speed > 0 ==> dashboard::activity(state) == "active"@,
        (exists|k: int|
            0 <= k < state.files@.len() && ((#[trigger] state.files@[k]).status is Downloading
                || state.files@[k].status is Verifying)) ==> dashboard::activity(state)
            == "active"@,
        dashboard::queued_count(Seq::empty()) == 0,
        dashboard::queued_count(files.push(file)) == dashboard::queued_count(files) + (
        if file.status is Queued {
            1int
        } else {
            0int
        }),
        state.totals.current_speed == 0 && (forall|k: int|
            0 <= k < state.files@.len() ==> !((#[trigger] state.files@[k]).status is Downloading)
                && !(state.files@[k].status is Verifying)) ==> dashboard::activity(state) == (
        if dashboard::queued_count(state.files@) > 0 {
            text::decimal(dashboard::queued_count(state.files@)) + " queued"@
        } else {
            "idle"@
        }),
{
    assert(files.push(file).drop_last() =~= files);
    if exists|k: int|
        0 <= k < state.files@.len() && ((#[trigger] state.files@[k]).status is Downloading
            || state.files@[k].status is Verifying) {
        let k = choose|k: int|
            0 <= k < state.files@.len() && ((#[trigger] state.files@[k]).status is Downloading
                || state.files@[k].status is Verifying);
        assert(state.files@[k].status is Downloading || state.files@[k].status is Verifying);
        assert(dashboard::is_busy(state));
    }
}

/// A bar has as many cells as it is wide, and the filled ones stand before the others.
pub proof fn law_bars_fill_from_the_left(filled: nat, width: nat, i: int)
    requires
        0 <= i < width,
    ensures
        dashboard::bar(filled, width).len() == width,
        (dashboard::bar(filled, width)[i] == '\u{2588}') == (i < filled),
        dashboard::bar(filled, width)[i] == '\u{2588}' || dashboard::bar(filled, width)[i]
            == '\u{2591}',
{
}

/// A selection that there is a row for stays where it is; one behind the last row moves to it,
/// and without a selection the first row is selected.
pub proof fn law_selections_move_no_further_than_they_must(selected: Option<usize>, rows: nat)
    requires
        0 < rows <= usize::MAX,
    ensures
        selected is None ==> dashboard::clamped(selected, rows) == Some(0usize),
        selected matches Some(at) ==> {
            &&& at < rows ==> dashboard::clamped(selected, rows) == Some(at)
            &&& at >= rows ==> dashboard::clamped(selected, rows) == Some((rows - 1) as usize)
        },
{
}

/// The first piece of a path is what stands before its first slash.
proof fn lemma_before_slash(head: Seq<char>, rest: Seq<char>)
    requires
        forall|k: int| 0 <= k < head.len() ==> #[trigger] head[k] != '/',
    ensures
        text::pieces(head + seq!['/'] + rest, '/')[0] == head,
        text::pieces(head, '/')[0] == head,
{
    crate::text_laws::law_pieces_stand_between_separators(head, rest, '/');
}

/// What the files of a package agree on.
proof fn lemma_common_folder(files: Seq<FileState>, k: int)
    requires
        0 <= k < files.len(),
        projection::folder(files[k].path@) is Some,
    ensures
        projection::common_folder(files).0 is Some,
        !projection::common_folder(files).1 ==> projection::common_folder(files).0
            == projection::folder(files[k].path@),
    decreases files.len(),
{
    let earlier = files.drop_last();
    if k < earlier.len() {
        assert(earlier[k] == files[k]);
        lemma_common_folder(earlier, k);
    }
}

/// Files that lie in one folder do not disagree.
proof fn lemma_agreeing_folders(files: Seq<FileState>, folder: Seq<char>)
    requires
        forall|k: int|
            0 <= k < files.len() ==> projection::folder((#[trigger] files[k]).path@) == Some(folder),
    ensures
        !projection::common_folder(files).1,
        files.len() > 0 ==> projection::common_folder(files).0 == Some(folder),
        files.len() == 0 ==> projection::common_folder(files).0 is None,
    decreases files.len(),
{
    if files.len() > 0 {
        let earlier = files.drop_last();
        assert forall|k: int| 0 <= k < earlier.len() implies projection::folder(
            (#[trigger] earlier[k]).path@,
        ) == Some(folder) by {
            assert(earlier[k] == files[k]);
        }
        lemma_agreeing_folders(earlier, folder);
        assert(files[files.len() - 1] == files.last());
    }
}

/// A package is labelled by a folder exactly where its files lie in it: where all of them do, it is,
/// and where two of them lie in different folders, it is by none.
pub proof fn law_packages_are_labelled_by_their_common_folder(
    app: App,
    package: PackageState,
    files: Seq<FileState>,
    folder: Seq<char>,
    j: int,
    k: int,
)
    requires
        folder.len() > 0,
        forall|m: int| 0 <= m < folder.len() ==> #[trigger] folder[m] != '/',
        0 <= j < files.len(),
        0 <= k < files.len(),
    ensures
        (forall|m: int|
            0 <= m < files.len() ==> text::begins_with(
                (#[trigger] files[m]).path@,
                folder + seq!['/'],
            )) ==> projection::package_row(app, package, files).folder_label == Some(folder),
        text::begins_with(files[j].path@, folder + seq!['/']) && files[k].path@.len() > 0
            && files[k].path@[0] != '/' && files[k].path@ != folder && !text::begins_with(
            files[k].path@,
            folder + seq!['/'],
        ) ==> projection::package_row(app, package, files).folder_label is None,
{
    let row = projection::package_row(app, package, files);
    if forall|m: int|
        0 <= m < files.len() ==> text::begins_with(
            (#[trigger] files[m]).path@,
            folder + seq!['/'],
        ) {
        assert forall|m: int| 0 <= m < files.len() implies projection::folder(
            (#[trigger] files[m]).path@,
        ) == Some(folder) by {
            lemma_folder_of(files[m].path@, folder);
        }
        lemma_agreeing_folders(files, folder);
    }
    if text::begins_with(files[j].path@, folder + seq!['/']) && files[k].path@.len() > 0
        && files[k].path@[0] != '/' && files[k].path@ != folder && !text::begins_with(
        files[k].path@,
        folder + seq!['/'],
    ) {
        lemma_folder_of(files[j].path@, folder);
        lemma_other_folder(files[k].path@, folder);
        lemma_common_folder(files, j);
        lemma_common_folder(files, k);
    }
}

/// A path that begins with a folder lies in it.
proof fn lemma_folder_of(path: Seq<char>, folder: Seq<char>)
    requires
        folder.len() > 0,
        forall|m: int| 0 <= m < folder.len() ==> #[trigger] folder[m] != '/',
        text::begins_with(path, folder + seq!['/']),
    ensures
        projection::folder(path) == Some(folder),
{
    let rest = path.skip(folder.len() as int + 1);
    assert(path =~= path.take(folder.len() as int + 1) + rest);
    assert(path =~= folder + seq!['/'] + rest);
    lemma_before_slash(folder, rest);
}

/// A path that begins otherwise lies in another folder.
proof fn lemma_other_folder(path: Seq<char>, folder: Seq<char>)
    requires
        path.len() > 0,
        path[0] != '/',
        path != folder,
        !text::begins_with(path, folder + seq!['/']),
    ensures
        projection::folder(path) is Some,
        projection::folder(path) != Some(folder),
{
    if forall|k: int| 0 <= k < path.len() ==> #[trigger] path[k] != '/' {
        lemma_before_slash(path, path);
    } else {
        let at = lemma_first_slash(path, 0);
        let head = path.take(at);
        let rest = path.skip(at + 1);
        assert(path =~= head + seq!['/'] + rest);
        lemma_before_slash(head, rest);
        if head == folder {
            assert(path.take(at + 1) =~= folder + seq!['/']);
        }
    }
}

/// Where a text has its first slash from a position on.
proof fn lemma_first_slash(text: Seq<char>, from: int) -> (at: int)
    requires
        0 <= from <= text.len(),
        forall|k: int| 0 <= k < from ==> #[trigger] text[k] != '/',
        exists|k: int| 0 <= k < text.len() && #[trigger] text[k] == '/',
    ensures
        0 <= at < text.len(),
        text[at] == '/',
        forall|k: int| 0 <= k < at ==> #[trigger] text[k] != '/',
    decreases text.len() - from,
{
    if from < text.len() && text[from] == '/' {
        from
    } else {
        lemma_first_slash(text, from + 1)
    }
}

/// Files at the root lie in no folder: a package that has only such files is labelled by none.
pub proof fn law_files_at_the_root_lie_in_no_folder(
    app: App,
    package: PackageState,
    files: Seq<FileState>,
)
    requires
        forall|m: int|
            0 <= m < files.len() ==> (#[trigger] files[m]).path@.len() > 0 && files[m].path@[0]
                == '/',
    ensures
        projection::package_row(app, package, files).folder_label is None,
{
    lemma_no_folder(files);
}

/// Where no file lies in a folder there is none to agree on.
proof fn lemma_no_folder(files: Seq<FileState>)
    requires
        forall|m: int|
            0 <= m < files.len() ==> (#[trigger] files[m]).path@.len() > 0 && files[m].path@[0]
                == '/',
    ensures
        projection::common_folder(files).0 is None,
        !projection::common_folder(files).1,
    decreases files.len(),
{
    if files.len() > 0 {
        let earlier = files.drop_last();
        assert forall|m: int| 0 <= m < earlier.len() implies (
        #[trigger] earlier[m]).path@.len() > 0 && earlier[m].path@[0] == '/' by {
            assert(earlier[m] == files[m]);
        }
        lemma_no_folder(earlier);
        let path = files[files.len() - 1].path@;
        let none = Seq::<char>::empty();
        assert(path =~= none + seq!['/'] + path.skip(1));
        lemma_before_slash(none, path.skip(1));
    }
}

} // verus!
