//! The rows on the screen, kept until what they depend on changes, and the speeds in them.

use vstd::prelude::*;

use crate::app::App;
use crate::dashboard::TuiRow;
use crate::model::FileEntry;
use crate::settings::{SortDirection, SortKey};

verus! {

/// What the rows on the screen depend on.
#[derive(Clone, Copy, Debug, PartialEq, Eq, Structural)]
pub struct VisibleRowsCacheKey {
    pub files_len: usize,
    pub core_files_len: usize,
    pub core_packages_len: usize,
    pub overlay_files_len: usize,
    pub expanded_hash: u64,
    pub sort_key: u8,
    pub sort_direction: u8,
}

/// The number of a sort key.
pub open spec fn key_number(key: SortKey) -> u8 {
    match key {
        SortKey::Queue => 0,
        SortKey::Status => 1,
        SortKey::Name => 2,
        SortKey::Percent => 3,
    }
}

/// The number of a direction.
pub open spec fn direction_number(direction: SortDirection) -> u8 {
    match direction {
        SortDirection::Asc => 0,
        SortDirection::Desc => 1,
    }
}

/// Rows that were built once.
pub struct VisibleRowsCache {
    pub key: Option<VisibleRowsCacheKey>,
    pub rows: Vec<TuiRow>,
}

impl VisibleRowsCache {
    /// Nothing built yet.
    pub fn new() -> (cache: VisibleRowsCache)
        ensures
            cache.key is None,
            cache.rows@.len() == 0,
    {
        VisibleRowsCache { key: None, rows: Vec::new() }
    }

    /// Whether the rows can still be shown.
    pub fn is_fresh(&self, key: VisibleRowsCacheKey) -> (fresh: bool)
        ensures
            fresh == (self.key == Some(key)),
    {
        match self.key {
            Some(held) => held == key,
            None => false,
        }
    }

    /// Keeps rows that were built anew.
    pub fn store(&mut self, key: VisibleRowsCacheKey, rows: Vec<TuiRow>)
        ensures
            final(self).key == Some(key),
            final(self).rows == rows,
    {
        self.key = Some(key);
        self.rows = rows;
    }

    /// The row that is selected, where there is one.
    pub fn selected_row(&self, selected: Option<usize>) -> (row: Option<&TuiRow>)
        ensures
            match row {
                Some(found) => selected is Some && selected->0 < self.rows@.len() && *found
                    == self.rows@[selected->0 as int],
                None => selected is None || selected->0 >= self.rows@.len(),
            },
    {
        match selected {
            Some(at) => {
                if at < self.rows.len() {
                    Some(&self.rows[at])
                } else {
                    None
                }
            },
            None => None,
        }
    }
}

impl App {
    /// What the rows on the screen depend on; `expanded_hash` stands for the packages that are
    /// shown with their files.
    pub fn visible_rows_cache_key(&self, expanded_hash: u64) -> (key: VisibleRowsCacheKey)
        requires
            self.wf(),
        ensures
            key.files_len == self.files@.len(),
            key.core_files_len == self.core_state.files.keys().len(),
            key.core_packages_len == self.core_state.packages@.len(),
            key.overlay_files_len == self.overlay_files.keys().len(),
            key.expanded_hash == expanded_hash,
            key.sort_key == key_number(self.sort.key),
            key.sort_direction == direction_number(self.sort.direction),
    {
        VisibleRowsCacheKey {
            files_len: self.files.len(),
            core_files_len: self.core_state.files.len(),
            core_packages_len: self.core_state.packages.len(),
            overlay_files_len: self.overlay_files.len(),
            expanded_hash,
            sort_key: match self.sort.key {
                SortKey::Queue => 0,
                SortKey::Status => 1,
                SortKey::Name => 2,
                SortKey::Percent => 3,
            },
            sort_direction: match self.sort.direction {
                SortDirection::Asc => 0,
                SortDirection::Desc => 1,
            },
        }
    }

    /// Shows the speed of everything, as it was measured; nothing where nothing is transferred.
    pub fn update_current_speed(&mut self, measured: u64)
        ensures
            *final(self) == (App {
                current_speed: if old(self).core_state.totals.run_file_downloading > 0 {
                    measured
                } else {
                    0
                },
                ..*old(self)
            }),
    {
        self.current_speed = if self.core_state.totals.run_file_downloading > 0 {
            measured
        } else {
            0
        };
    }
}

/// The speed that is shown of a file, as it was measured; none where it is not transferred.
pub fn shown_speed(file: &FileEntry, measured: u64) -> (speed: u64)
    ensures
        speed == (if file.status is Downloading {
            measured
        } else {
            0
        }),
{
    if file.status.is_downloading() {
        measured
    } else {
        0
    }
}

/// Rows are shown again exactly as long as nothing that they depend on has changed.
pub proof fn law_rows_are_kept_until_their_key_changes(
    held: VisibleRowsCacheKey,
    key: VisibleRowsCacheKey,
)
    ensures
        held == key <==> {
            &&& held.files_len == key.files_len
            &&& held.core_files_len == key.core_files_len
            &&& held.core_packages_len == key.core_packages_len
            &&& held.overlay_files_len == key.overlay_files_len
            &&& held.expanded_hash == key.expanded_hash
            &&& held.sort_key == key.sort_key
            &&& held.sort_direction == key.sort_direction
        },
        forall|a: SortKey, b: SortKey| key_number(a) == key_number(b) ==> a == b,
        forall|a: SortDirection, b: SortDirection|
            direction_number(a) == direction_number(b) ==> a == b,
{
}

} // verus!
