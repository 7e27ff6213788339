use std::path::PathBuf;
use vstd::prelude::*;

use crate::text::same_text;

verus! {

/// `std::path::PathBuf`, carried through as an opaque value.
#[verifier::external_type_specification]
#[verifier::external_body]
pub struct ExPathBuf(std::path::PathBuf);

/// `PathBuf::clone` of std gives back a path equal to the one it was called on.
pub assume_specification[ <std::path::PathBuf as Clone>::clone ](path: &std::path::PathBuf) -> (copy:
    std::path::PathBuf)
    ensures
        copy == *path,
;

/// An executable image that belongs to a game.
#[derive(Debug, PartialEq, Eq)]
pub struct Rom {
    path: PathBuf,
}

impl Clone for Rom {
    fn clone(&self) -> (copy: Self)
        ensures
            copy == *self,
    {
        Self { path: self.path.clone() }
    }
}

/// What a `Rom` holds.
pub ghost struct RomView {
    pub path: PathBuf,
}

impl View for Rom {
    type V = RomView;

    closed spec fn view(&self) -> RomView {
        RomView { path: self.path }
    }
}

/// Whether a file with the extension `extension`, in lower case, is an
/// executable image.
pub open spec fn rom_extension(extension: Seq<char>) -> bool {
    extension == "d64"@ || extension == "t64"@ || extension == "prg"@ || extension == "crt"@
}

impl Rom {
    /// Whether a file with the extension `extension`, given in lower case, is
    /// an executable image.
    pub fn is_rom_extension(extension: &str) -> (is_rom: bool)
        ensures
            is_rom == rom_extension(extension@),
    {
        same_text(extension, "d64") || same_text(extension, "t64") || same_text(extension, "prg")
            || same_text(extension, "crt")
    }

    pub fn new(path: PathBuf) -> (rom: Self)
        ensures
            rom@ == (RomView { path }),
    {
        Self { path }
    }

    pub fn path(&self) -> (path: &PathBuf)
        ensures
            *path == self@.path,
    {
        &self.path
    }
}

} // verus!
