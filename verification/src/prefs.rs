//! What the preferences window shows and stores: the rows of its combo
//! boxes for the refresh interval, the theme and the language, and the run
//! filters as they are saved.
use vstd::prelude::*;
use crate::filters::RunFilters;

verus! {

/// The colour scheme the user chose.
#[derive(Debug, Clone, Copy, PartialEq, Eq, Structural)]
pub enum ThemePreference {
    System,
    Light,
    Dark,
}

/// The language the user chose.
#[derive(Debug, Clone, Copy, PartialEq, Eq, Structural)]
pub enum LanguagePreference {
    System,
    En,
    ZhHans,
    Hi,
    Es,
    Fr,
    Ar,
    Bn,
    PtBr,
    Ru,
    Ur,
}

/// The row of the theme combo box for a theme.
pub open spec fn theme_index(theme: ThemePreference) -> u32 {
    match theme {
        ThemePreference::System => 0,
        ThemePreference::Light => 1,
        ThemePreference::Dark => 2,
    }
}

/// The row showing `theme`.
pub fn theme_to_index(theme: ThemePreference) -> (r: u32)
    ensures
        r == theme_index(theme),
{
    match theme {
        ThemePreference::System => 0,
        ThemePreference::Light => 1,
        ThemePreference::Dark => 2,
    }
}

/// The theme of a row; a row past the list reads as the system theme.
pub open spec fn theme_of_index(index: u32) -> ThemePreference {
    if index == 1 {
        ThemePreference::Light
    } else if index == 2 {
        ThemePreference::Dark
    } else {
        ThemePreference::System
    }
}

/// The theme a row stands for.
pub fn index_to_theme(index: u32) -> (r: ThemePreference)
    ensures
        r == theme_of_index(index),
{
    match index {
        1 => ThemePreference::Light,
        2 => ThemePreference::Dark,
        _ => ThemePreference::System,
    }
}

/// The row of the language combo box for a language.
pub open spec fn language_index(language: LanguagePreference) -> u32 {
    match language {
        LanguagePreference::System => 0,
        LanguagePreference::En => 1,
        LanguagePreference::ZhHans => 2,
        LanguagePreference::Hi => 3,
        LanguagePreference::Es => 4,
        LanguagePreference::Fr => 5,
        LanguagePreference::Ar => 6,
        LanguagePreference::Bn => 7,
        LanguagePreference::PtBr => 8,
        LanguagePreference::Ru => 9,
        LanguagePreference::Ur => 10,
    }
}

/// The row showing `language`.
pub fn language_to_index(language: LanguagePreference) -> (r: u32)
    ensures
        r == language_index(language),
{
    match language {
        LanguagePreference::System => 0,
        LanguagePreference::En => 1,
        LanguagePreference::ZhHans => 2,
        LanguagePreference::Hi => 3,
        LanguagePreference::Es => 4,
        LanguagePreference::Fr => 5,
        LanguagePreference::Ar => 6,
        LanguagePreference::Bn => 7,
        LanguagePreference::PtBr => 8,
        LanguagePreference::Ru => 9,
        LanguagePreference::Ur => 10,
    }
}

/// The language of a row; a row past the list reads as the system language.
pub open spec fn language_of_index(index: u32) -> LanguagePreference {
    if index == 1 {
        LanguagePreference::En
    } else if index == 2 {
        LanguagePreference::ZhHans
    } else if index == 3 {
        LanguagePreference::Hi
    } else if index == 4 {
        LanguagePreference::Es
    } else if index == 5 {
        LanguagePreference::Fr
    } else if index == 6 {
        LanguagePreference::Ar
    } else if index == 7 {
        LanguagePreference::Bn
    } else if index == 8 {
        LanguagePreference::PtBr
    } else if index == 9 {
        LanguagePreference::Ru
    } else if index == 10 {
        LanguagePreference::Ur
    } else {
        LanguagePreference::System
    }
}

/// The language a row stands for.
pub fn index_to_language(index: u32) -> (r: LanguagePreference)
    ensures
        r == language_of_index(index),
{
    match index {
        1 => LanguagePreference::En,
        2 => LanguagePreference::ZhHans,
        3 => LanguagePreference::Hi,
        4 => LanguagePreference::Es,
        5 => LanguagePreference::Fr,
        6 => LanguagePreference::Ar,
        7 => LanguagePreference::Bn,
        8 => LanguagePreference::PtBr,
        9 => LanguagePreference::Ru,
        10 => LanguagePreference::Ur,
        _ => LanguagePreference::System,
    }
}

/// The row of the refresh combo box for an interval in seconds: 2, 5, 10
/// and 30 seconds have rows; any other interval shows as 10 seconds.
pub open spec fn refresh_index(interval: u64) -> u32 {
    if interval == 2 {
        0
    } else if interval == 5 {
        1
    } else if interval == 30 {
        3
    } else {
        2
    }
}

/// The row showing a refresh interval.
pub fn refresh_interval_to_index(interval: u64) -> (r: u32)
    ensures
        r == refresh_index(interval),
{
    match interval {
        2 => 0,
        5 => 1,
        10 => 2,
        30 => 3,
        _ => 2,
    }
}

/// The interval of a row, in seconds; a row past the list reads as 10.
pub open spec fn refresh_interval_of(index: u32) -> u64 {
    if index == 0 {
        2
    } else if index == 1 {
        5
    } else if index == 3 {
        30
    } else {
        10
    }
}

/// The refresh interval a row stands for.
pub fn index_to_refresh_interval(index: u32) -> (r: u64)
    ensures
        r == refresh_interval_of(index),
{
    match index {
        0 => 2,
        1 => 5,
        2 => 10,
        3 => 30,
        _ => 10,
    }
}

/// Reading back the row a choice is shown in gives the choice: for every
/// theme, every language, and every interval that has a row; and every row
/// shows the choice it stands for.
pub proof fn lemma_preference_rows_round_trip(
    theme: ThemePreference,
    language: LanguagePreference,
    interval: u64,
    row: u32,
)
    ensures
        theme_of_index(theme_index(theme)) == theme,
        language_of_index(language_index(language)) == language,
        (interval == 2 || interval == 5 || interval == 10 || interval == 30) ==> refresh_interval_of(
            refresh_index(interval),
        ) == interval,
        row <= 3 ==> refresh_index(refresh_interval_of(row)) == row,
        row <= 2 ==> theme_index(theme_of_index(row)) == row,
        row <= 10 ==> language_index(language_of_index(row)) == row,
{
}

/// The run filters as the preferences store them.
#[derive(Debug, Clone, Copy, PartialEq, Eq, Structural)]
pub struct RunFilterPreferences {
    pub show_success: bool,
    pub show_failed: bool,
    pub show_running: bool,
    pub default_branch_only: bool,
}

/// The filters that stored preferences describe.
pub open spec fn filters_of(prefs: RunFilterPreferences) -> RunFilters {
    RunFilters {
        include_success: prefs.show_success,
        include_failed: prefs.show_failed,
        include_running: prefs.show_running,
    }
}

/// The preferences that store a set of filters (never limited to the
/// default branch).
pub open spec fn preferences_of(filters: RunFilters) -> RunFilterPreferences {
    RunFilterPreferences {
        show_success: filters.include_success,
        show_failed: filters.include_failed,
        show_running: filters.include_running,
        default_branch_only: false,
    }
}

/// The filters that stored preferences describe.
pub fn filters_from_preferences(prefs: RunFilterPreferences) -> (r: RunFilters)
    ensures
        r == filters_of(prefs),
{
    RunFilters {
        include_success: prefs.show_success,
        include_failed: prefs.show_failed,
        include_running: prefs.show_running,
    }
}

/// The preferences that store a set of filters.
pub fn preferences_from_filters(filters: RunFilters) -> (r: RunFilterPreferences)
    ensures
        r == preferences_of(filters),
{
    RunFilterPreferences {
        show_success: filters.include_success,
        show_failed: filters.include_failed,
        show_running: filters.include_running,
        default_branch_only: false,
    }
}

/// Storing filters and reading them back gives the same filters.
pub proof fn lemma_filters_round_trip(filters: RunFilters)
    ensures
        filters_of(preferences_of(filters)) == filters,
{
}

} // verus!
