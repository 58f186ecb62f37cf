//! Telling programs from plain files by their first four bytes.

use vstd::prelude::*;

verus! {

/// What the first bytes of a file say about it.
#[derive(Clone, Copy, Debug, PartialEq, Eq, Structural)]
pub enum Classification {
    /// The file starts with the ELF magic number.
    Binary,
    /// The file starts with an interpreter line.
    Script,
    /// Neither of the two.
    Plain,
}

/// The magic number that opens an ELF file: `0x7F 'E' 'L' 'F'`.
pub open spec fn elf_magic() -> Seq<u8> {
    seq![0x7Fu8, 0x45u8, 0x4Cu8, 0x46u8]
}

/// The two bytes that open an interpreter line: `'#' '!'`.
pub open spec fn shebang() -> Seq<u8> {
    seq![0x23u8, 0x21u8]
}

/// The class of a file that starts with `bytes`.
pub open spec fn classification(bytes: Seq<u8>) -> Classification {
    if bytes == elf_magic() {
        Classification::Binary
    } else if bytes.len() >= 2 && bytes.take(2) == shebang() {
        Classification::Script
    } else {
        Classification::Plain
    }
}

/// Classifies a file by its first four bytes.
pub fn classify(prefix: &[u8; 4]) -> (class: Classification)
    ensures
        class == classification(prefix@),
{
    let b0: u8 = prefix[0];
    let b1: u8 = prefix[1];
    let b2: u8 = prefix[2];
    let b3: u8 = prefix[3];
    proof {
        let head = prefix@.take(2);
        assert(head.len() == 2 && head[0] == b0 && head[1] == b1);
        assert(elf_magic().len() == 4 && elf_magic()[0] == 0x7F && elf_magic()[1] == 0x45
            && elf_magic()[2] == 0x4C && elf_magic()[3] == 0x46);
        assert(shebang().len() == 2 && shebang()[0] == 0x23 && shebang()[1] == 0x21);
    }
    if b0 == 0x7F && b1 == 0x45 && b2 == 0x4C && b3 == 0x46 {
        assert(prefix@ =~= elf_magic());
        Classification::Binary
    } else if b0 == 0x23 && b1 == 0x21 {
        assert(prefix@.take(2) =~= shebang());
        Classification::Script
    } else {
        Classification::Plain
    }
}

} // verus!
