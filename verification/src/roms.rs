//! A ROM bundled with the emulator: a file name and the program bytes.

use vstd::prelude::*;

verus! {

/// When `s` ends with `suffix`, the part of `s` before it, otherwise
/// `None` (as `str::strip_suffix` does), over the characters of the strings.
fn strip_suffix<'a>(s: &'a str, suffix: &str) -> (stripped: Option<&'a str>)
    ensures
        match stripped {
            Some(prefix) => prefix@ + suffix@ == s@,
            None => !ends_with(s@, suffix@),
        },
{
    let n = s.unicode_len();
    let k = suffix.unicode_len();
    if k > n {
        return None;
    }
    let start = n - k;
    let mut i: usize = 0;
    while i < k
        invariant
            n == s@.len(),
            k == suffix@.len(),
            start == n - k,
            i <= k,
            forall|j: int| 0 <= j < i ==> #[trigger] s@[start + j] == suffix@[j],
        decreases k - i,
    {
        if s.get_char(start + i) != suffix.get_char(i) {
            assert(s@.subrange(start as int, n as int)[i as int] != suffix@[i as int]);
            return None;
        }
        i += 1;
    }
    let prefix = s.substring_char(0, start);
    assert forall|j: int| start <= j < n implies (prefix@ + suffix@)[j] == s@[j] by {
        assert(s@[start + (j - start)] == suffix@[j - start]);
    }
    assert(prefix@ + suffix@ =~= s@);
    Some(prefix)
}

/// Whether `s` ends with `suffix`.
pub open spec fn ends_with(s: Seq<char>, suffix: Seq<char>) -> bool {
    suffix.len() <= s.len() && s.subrange(s.len() - suffix.len(), s.len() as int) == suffix
}

/// The name shown for a ROM file name: without its ".ch8" extension, when
/// it has one.
pub open spec fn display_name(file: Seq<char>) -> Seq<char> {
    if ends_with(file, ".ch8"@) {
        file.subrange(0, file.len() - 4)
    } else {
        file
    }
}

/// Struct to hold ROM data
#[derive(Debug, Clone, Copy)]
pub struct ROM {
    name: &'static str,
    data: &'static [u8],
}

impl ROM {
    /// A ROM of the given file name and program bytes.
    pub fn new(name: &'static str, data: &'static [u8]) -> (rom: ROM)
        ensures
            rom.file_name() == name@,
            rom.bytes() == data@,
    {
        ROM { name, data }
    }

    /// The file name of the ROM.
    pub closed spec fn file_name(&self) -> Seq<char> {
        self.name@
    }

    /// The program bytes of the ROM.
    pub closed spec fn bytes(&self) -> Seq<u8> {
        self.data@
    }

    /// Get the name of the ROM: the file name without ".ch8".
    pub fn get_name(&self) -> (name: &str)
        ensures
            name@ == display_name(self.file_name()),
    {
        proof { reveal_strlit(".ch8"); }
        match strip_suffix(self.name, ".ch8") {
            Some(prefix) => {
                assert(self.name@.subrange(self.name@.len() - 4, self.name@.len() as int) =~= ".ch8"@);
                assert(self.name@.subrange(0, self.name@.len() - 4) =~= prefix@);
                prefix
            },
            None => self.name,
        }
    }

    /// Get the data of the ROM
    pub fn get_data(&self) -> (data: &[u8])
        ensures
            data@ == self.bytes(),
    {
        self.data
    }
}

} // verus!
