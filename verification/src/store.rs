//! The files of an index directory: which of them hold the crates to be
//! loaded, and which crate each of them holds.

use crate::text::{chars_of, same_text, text_of, texts};
use crate::types::CrateMetadata;
use vstd::prelude::*;

verus! {

/// A file that holds a crate.
#[derive(Debug, Clone, PartialEq, Eq)]
pub struct CrateFile {
    /// The name of the file.
    pub file: String,
    /// The name of the crate: the name of the file without its ending.
    pub name: String,
    /// True of a file in the binary form, false of one in JSON.
    pub binary: bool,
}

/// A [`CrateFile`] as a mathematical value.
pub struct CrateFileView {
    pub file: Seq<char>,
    pub name: Seq<char>,
    pub binary: bool,
}

impl View for CrateFile {
    type V = CrateFileView;

    open spec fn view(&self) -> CrateFileView {
        CrateFileView { file: self.file@, name: self.name@, binary: self.binary }
    }
}

/// The position of the dot before the ending of a file name, among the
/// first `n` characters: the last dot that is not the first character.
pub open spec fn ending_dot(name: Seq<char>, n: int) -> Option<int>
    decreases n,
{
    if n <= 1 {
        None
    } else if name[n - 1] == '.' {
        Some(n - 1)
    } else {
        ending_dot(name, n - 1)
    }
}

/// The name of a file without its ending.
pub open spec fn stem(name: Seq<char>) -> Seq<char> {
    match ending_dot(name, name.len() as int) {
        Some(i) => name.take(i),
        None => name,
    }
}

/// The ending of a file name, without the dot.
pub open spec fn ending(name: Seq<char>) -> Option<Seq<char>> {
    match ending_dot(name, name.len() as int) {
        Some(i) => Some(name.skip(i + 1)),
        None => None,
    }
}

/// True if `name` ends with `tail`.
pub open spec fn ends_with(name: Seq<char>, tail: Seq<char>) -> bool {
    tail.len() <= name.len() && name.skip(name.len() - tail.len()) == tail
}

/// True if the file `name` is among `names` in the binary form too.
pub open spec fn has_binary_twin(names: Seq<Seq<char>>, name: Seq<char>) -> bool {
    names.contains(stem(name) + ".bin"@)
}

/// True if the file `name` holds a crate to be loaded: a file that ends
/// in `.bin`, or one that ends in `.json` and has no twin in the binary
/// form; a file of parents is none.
pub open spec fn holds_crate(names: Seq<Seq<char>>, name: Seq<char>) -> bool {
    &&& !ends_with(name, ".parents.bin"@)
    &&& ending(name) == Some("bin"@) || (ending(name) == Some("json"@) && !has_binary_twin(
        names,
        name,
    ))
}

/// The files among the first `n` of `names` that hold a crate to be
/// loaded, in their order.
pub open spec fn crate_files_of(names: Seq<Seq<char>>, n: int) -> Seq<CrateFileView>
    decreases n,
{
    if n <= 0 {
        Seq::empty()
    } else if holds_crate(names, names[n - 1]) {
        crate_files_of(names, n - 1).push(
            CrateFileView {
                file: names[n - 1],
                name: stem(names[n - 1]),
                binary: ending(names[n - 1]) == Some("bin"@),
            },
        )
    } else {
        crate_files_of(names, n - 1)
    }
}

/// The position of the dot before the ending of a file name.
fn find_ending_dot(chars: &Vec<char>) -> (r: Option<usize>)
    ensures
        match ending_dot(chars@, chars@.len() as int) {
            Some(i) => r matches Some(d) && d == i && 0 < d < chars@.len(),
            None => r is None,
        },
{
    let mut n: usize = chars.len();
    while n > 1
        invariant
            n <= chars@.len(),
            ending_dot(chars@, chars@.len() as int) == ending_dot(chars@, n as int),
        decreases n,
    {
        if chars[n - 1] == '.' {
            return Some(n - 1);
        }
        n = n - 1;
    }
    None
}

/// True if `chars` ends with `tail`.
fn has_tail(chars: &Vec<char>, tail: &str) -> (r: bool)
    ensures
        r == ends_with(chars@, tail@),
{
    let end = chars_of(tail);
    if end.len() > chars.len() {
        return false;
    }
    let total = chars.len();
    let offset = total - end.len();
    let mut i: usize = 0;
    while i < end.len()
        invariant
            i <= end.len(),
            end@ == tail@,
            total == chars@.len(),
            offset + end@.len() == chars@.len(),
            forall|j: int| 0 <= j < i ==> chars@[offset + j] == end@[j],
        decreases end.len() - i,
    {
        if chars[offset + i] != end[i] {
            return false;
        }
        i = i + 1;
    }
    assert(chars@.skip(chars@.len() - tail@.len()) =~= tail@);
    true
}

/// The files among `names` that hold a crate to be loaded.
pub fn crate_files(names: &Vec<String>) -> (r: Vec<CrateFile>)
    ensures
        r@.map_values(|f: CrateFile| f@) == crate_files_of(texts(names@), names@.len() as int),
{
    let ghost all = texts(names@);
    let mut out: Vec<CrateFile> = Vec::new();
    let mut i: usize = 0;
    while i < names.len()
        invariant
            i <= names.len(),
            all == texts(names@),
            out@.map_values(|f: CrateFile| f@) == crate_files_of(all, i as int),
        decreases names.len() - i,
    {
        let name = &names[i];
        let chars = chars_of(name.as_str());
        let total = chars.len();
        if !has_tail(&chars, ".parents.bin") {
            if let Some(dot) = find_ending_dot(&chars) {
                let end = text_of(chars.as_slice(), dot + 1, chars.len());
                let binary = same_text(end.as_str(), "bin");
                let json = same_text(end.as_str(), "json");
                let mut load = binary;
                proof {
                    reveal_strlit("bin");
                    reveal_strlit("json");
                    assert("json"@.len() == 4);
                }
                if json {
                    let mut twin = text_of(chars.as_slice(), 0, dot);
                    twin.push_str(".bin");
                    let mut found = false;
                    let mut j: usize = 0;
                    while j < names.len()
                        invariant
                            j <= names.len(),
                            all == texts(names@),
                            found == exists|k: int| 0 <= k < j && #[trigger] all[k] == twin@,
                        decreases names.len() - j,
                    {
                        if same_text(names[j].as_str(), twin.as_str()) {
                            assert(all[j as int] == twin@);
                            found = true;
                        }
                        j = j + 1;
                    }
                    assert(found == all.contains(twin@));
                    load = !found;
                }
                if load {
                    let file = CrateFile {
                        file: name.clone(),
                        name: text_of(chars.as_slice(), 0, dot),
                        binary,
                    };
                    out.push(file);
                }
            }
        }
        i = i + 1;
    }
    out
}

impl CrateMetadata {
    /// The name of the file that holds the parents of the crate.
    pub fn parents_file(&self) -> (r: String)
        ensures
            r@ == self.text() + ".parents.bin"@,
    {
        let mut out = self.display();
        out.push_str(".parents.bin");
        out
    }
}

} // verus!
