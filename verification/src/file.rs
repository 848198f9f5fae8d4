use vstd::prelude::*;

verus! {

/// The kinds of file a POSIX mode word can describe.
#[derive(PartialEq, Eq, Structural, Copy, Clone, Debug)]
pub enum FileType {
    Unknown,
    Regular,
    Directory,
    CharacterSpecial,
    BlockSpecial,
    Fifo,
    Symlink,
    Socket,
}

/// The POSIX file-type bit field of a mode word, and its defined values.
pub const MODE_TYPE_MASK: u32 = 0o170000;

pub const MODE_REGULAR: u32 = 0o100000;

pub const MODE_DIRECTORY: u32 = 0o040000;

pub const MODE_CHARACTER_SPECIAL: u32 = 0o020000;

pub const MODE_BLOCK_SPECIAL: u32 = 0o060000;

pub const MODE_FIFO: u32 = 0o010000;

pub const MODE_SYMLINK: u32 = 0o120000;

pub const MODE_SOCKET: u32 = 0o140000;

/// The file type that a mode word's type bits name.
pub open spec fn spec_file_type_of_mode(mode: u32) -> FileType {
    let bits = mode & MODE_TYPE_MASK;
    if bits == MODE_REGULAR {
        FileType::Regular
    } else if bits == MODE_DIRECTORY {
        FileType::Directory
    } else if bits == MODE_CHARACTER_SPECIAL {
        FileType::CharacterSpecial
    } else if bits == MODE_BLOCK_SPECIAL {
        FileType::BlockSpecial
    } else if bits == MODE_FIFO {
        FileType::Fifo
    } else if bits == MODE_SYMLINK {
        FileType::Symlink
    } else if bits == MODE_SOCKET {
        FileType::Socket
    } else {
        FileType::Unknown
    }
}

/// Classifies a POSIX `st_mode` word by its file-type bits.
pub fn file_type_of_mode(mode: u32) -> (t: FileType)
    ensures
        t == spec_file_type_of_mode(mode),
{
    let bits = mode & MODE_TYPE_MASK;
    if bits == MODE_REGULAR {
        FileType::Regular
    } else if bits == MODE_DIRECTORY {
        FileType::Directory
    } else if bits == MODE_CHARACTER_SPECIAL {
        FileType::CharacterSpecial
    } else if bits == MODE_BLOCK_SPECIAL {
        FileType::BlockSpecial
    } else if bits == MODE_FIFO {
        FileType::Fifo
    } else if bits == MODE_SYMLINK {
        FileType::Symlink
    } else if bits == MODE_SOCKET {
        FileType::Socket
    } else {
        FileType::Unknown
    }
}

} // verus!
