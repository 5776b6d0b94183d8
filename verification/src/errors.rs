//! Why a settings check, an archive plan or a copy plan was refused.
use vstd::prelude::*;
use crate::text::{concat2, concat3, push_char, string_from};

verus! {

#[derive(Debug, Clone, PartialEq, Eq)]
pub enum SortedError {
    EmptyDestinationRoot,
    DestinationRootNotDirectory(String),
    EmptyDateFormat,
    TrailingPercent,
    UnsupportedSpecifier(char),
    DeviceUnavailable,
    MountPathMissing(String),
    EmptyTheme,
    EmptyDeviceName,
    ArchiveDestinationExists(String),
    SourceRootMissing(String),
    NotUnderRoot(String),
    NoConfigDirectory,
    NoSourceSelected,
    NoSourceToImport,
    NoSourceFolder,
}

/// The mathematical model of a `SortedError`.
pub enum ErrorView {
    EmptyDestinationRoot,
    DestinationRootNotDirectory(Seq<char>),
    EmptyDateFormat,
    TrailingPercent,
    UnsupportedSpecifier(char),
    DeviceUnavailable,
    MountPathMissing(Seq<char>),
    EmptyTheme,
    EmptyDeviceName,
    ArchiveDestinationExists(Seq<char>),
    SourceRootMissing(Seq<char>),
    NotUnderRoot(Seq<char>),
    NoConfigDirectory,
    NoSourceSelected,
    NoSourceToImport,
    NoSourceFolder,
}

impl View for SortedError {
    type V = ErrorView;

    open spec fn view(&self) -> ErrorView {
        match self {
            SortedError::EmptyDestinationRoot => ErrorView::EmptyDestinationRoot,
            SortedError::DestinationRootNotDirectory(p) => ErrorView::DestinationRootNotDirectory(
                p@,
            ),
            SortedError::EmptyDateFormat => ErrorView::EmptyDateFormat,
            SortedError::TrailingPercent => ErrorView::TrailingPercent,
            SortedError::UnsupportedSpecifier(c) => ErrorView::UnsupportedSpecifier(*c),
            SortedError::DeviceUnavailable => ErrorView::DeviceUnavailable,
            SortedError::MountPathMissing(p) => ErrorView::MountPathMissing(p@),
            SortedError::EmptyTheme => ErrorView::EmptyTheme,
            SortedError::EmptyDeviceName => ErrorView::EmptyDeviceName,
            SortedError::ArchiveDestinationExists(p) => ErrorView::ArchiveDestinationExists(p@),
            SortedError::SourceRootMissing(p) => ErrorView::SourceRootMissing(p@),
            SortedError::NotUnderRoot(p) => ErrorView::NotUnderRoot(p@),
            SortedError::NoConfigDirectory => ErrorView::NoConfigDirectory,
            SortedError::NoSourceSelected => ErrorView::NoSourceSelected,
            SortedError::NoSourceToImport => ErrorView::NoSourceToImport,
            SortedError::NoSourceFolder => ErrorView::NoSourceFolder,
        }
    }
}

/// The text shown for an error.
pub open spec fn error_text(e: ErrorView) -> Seq<char> {
    match e {
        ErrorView::EmptyDestinationRoot => "destination root cannot be empty"@,
        ErrorView::DestinationRootNotDirectory(p) => "destination root "@ + p
            + " is not a directory"@,
        ErrorView::EmptyDateFormat => "date format cannot be empty"@,
        ErrorView::TrailingPercent => "date format cannot end with a trailing %"@,
        ErrorView::UnsupportedSpecifier(c) => "unsupported date format specifier: %"@.push(c),
        ErrorView::DeviceUnavailable => "selected device is unavailable"@,
        ErrorView::MountPathMissing(p) => "selected device mount path "@ + p + " is missing"@,
        ErrorView::EmptyTheme => "theme must contain at least one valid path character"@,
        ErrorView::EmptyDeviceName => "device name must contain at least one valid path character"@,
        ErrorView::ArchiveDestinationExists(p) => "archive destination "@ + p
            + " already exists"@,
        ErrorView::SourceRootMissing(p) => "device mount path "@ + p + " does not exist"@,
        ErrorView::NotUnderRoot(p) => "failed to compute relative path for "@ + p,
        ErrorView::NoConfigDirectory => "unable to resolve a platform config directory"@,
        ErrorView::NoSourceSelected => "select a source before continuing"@,
        ErrorView::NoSourceToImport => "select a source before importing"@,
        ErrorView::NoSourceFolder => "pick a source folder before importing"@,
    }
}

impl SortedError {
    /// The text shown for this error.
    pub fn message(&self) -> (r: String)
        ensures
            r@ == error_text(self@),
    {
        match self {
            SortedError::EmptyDestinationRoot => string_from("destination root cannot be empty"),
            SortedError::DestinationRootNotDirectory(p) => concat3(
                "destination root ",
                p.as_str(),
                " is not a directory",
            ),
            SortedError::EmptyDateFormat => string_from("date format cannot be empty"),
            SortedError::TrailingPercent => string_from("date format cannot end with a trailing %"),
            SortedError::UnsupportedSpecifier(c) => {
                let mut s = string_from("unsupported date format specifier: %");
                push_char(&mut s, *c);
                s
            },
            SortedError::DeviceUnavailable => string_from("selected device is unavailable"),
            SortedError::MountPathMissing(p) => concat3(
                "selected device mount path ",
                p.as_str(),
                " is missing",
            ),
            SortedError::EmptyTheme => string_from(
                "theme must contain at least one valid path character",
            ),
            SortedError::EmptyDeviceName => string_from(
                "device name must contain at least one valid path character",
            ),
            SortedError::ArchiveDestinationExists(p) => concat3(
                "archive destination ",
                p.as_str(),
                " already exists",
            ),
            SortedError::SourceRootMissing(p) => concat3(
                "device mount path ",
                p.as_str(),
                " does not exist",
            ),
            SortedError::NotUnderRoot(p) => concat2(
                "failed to compute relative path for ",
                p.as_str(),
            ),
            SortedError::NoConfigDirectory => string_from(
                "unable to resolve a platform config directory",
            ),
            SortedError::NoSourceSelected => string_from("select a source before continuing"),
            SortedError::NoSourceToImport => string_from("select a source before importing"),
            SortedError::NoSourceFolder => string_from("pick a source folder before importing"),
        }
    }
}

} // verus!
