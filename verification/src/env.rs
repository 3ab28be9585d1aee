//! Executable lookup: which of the files found along the search path can be
//! run.

use vstd::prelude::*;

verus! {

/// An executable: the name it is called by and where it lies.
#[derive(Debug, PartialEq, Eq, PartialOrd, Ord)]
pub struct Exe {
    pub name: String,
    pub path: String,
}

/// An executable as a value.
pub struct ExeView {
    pub name: Seq<char>,
    pub path: Seq<char>,
}

impl View for Exe {
    type V = ExeView;

    open spec fn view(&self) -> ExeView {
        ExeView { name: self.name@, path: self.path@ }
    }
}

impl Clone for Exe {
    fn clone(&self) -> (r: Self)
        ensures
            r@ == self@,
    {
        Exe { name: self.name.clone(), path: self.path.clone() }
    }
}

impl Exe {
    /// The name the executable is called by.
    pub fn get_name(&self) -> (r: String)
        ensures
            r@ == self@.name,
    {
        self.name.clone()
    }

    /// Where the executable lies.
    pub fn get_path(&self) -> (r: String)
        ensures
            r@ == self@.path,
    {
        self.path.clone()
    }
}

/// What the file system says of one path.
pub struct FileFacts {
    /// The path as text, where it is valid Unicode.
    pub path: Option<String>,
    /// The last component of the path as text, where there is one and it is
    /// valid Unicode.
    pub name: Option<String>,
    /// Whether the path leads to a regular file.
    pub is_file: bool,
    /// The permission bits of the file, where its metadata could be read.
    pub mode: Option<u32>,
}

/// The facts of a path as a value.
pub struct FileFactsView {
    pub path: Option<Seq<char>>,
    pub name: Option<Seq<char>>,
    pub is_file: bool,
    pub mode: Option<u32>,
}

impl View for FileFacts {
    type V = FileFactsView;

    open spec fn view(&self) -> FileFactsView {
        FileFactsView {
            path: match self.path {
                Some(path) => Some(path@),
                None => None,
            },
            name: match self.name {
                Some(name) => Some(name@),
                None => None,
            },
            is_file: self.is_file,
            mode: self.mode,
        }
    }
}

/// The facts of a list of paths, in order.
pub open spec fn facts(files: Seq<FileFacts>) -> Seq<FileFactsView> {
    Seq::new(files.len(), |i: int| files[i]@)
}

/// The permission bits that let the owner, the group or anyone else run a
/// file.
pub const EXECUTE_BITS: u32 = 0o111;

/// A path is an executable when it leads to a regular file whose path and
/// name are text and which someone may run.
pub open spec fn if_exe_spec(file: FileFactsView) -> Option<ExeView> {
    if file.is_file && file.path is Some && file.mode is Some && file.mode->0 & EXECUTE_BITS != 0
        && file.name is Some {
        Some(ExeView { name: file.name->0, path: file.path->0 })
    } else {
        None
    }
}

/// The executable that a path leads to, if it leads to one.
pub fn if_exe(file: &FileFacts) -> (r: Option<Exe>)
    ensures
        match if_exe_spec(file@) {
            Some(exe) => r is Some && r->Some_0@ == exe,
            None => r is None,
        },
{
    if !file.is_file {
        return None;
    }
    let path = match &file.path {
        Some(path) => path,
        None => {
            return None;
        },
    };
    let mode = match file.mode {
        Some(mode) => mode,
        None => {
            return None;
        },
    };
    if mode & EXECUTE_BITS != 0 {
        if let Some(name) = &file.name {
            return Some(Exe { name: name.clone(), path: path.clone() });
        }
    }
    None
}

/// The place of the first path that leads to an executable.
pub open spec fn first_exe_index(files: Seq<FileFactsView>) -> Option<int>
    decreases files.len(),
{
    if files.len() == 0 {
        None
    } else if if_exe_spec(files[0]) is Some {
        Some(0)
    } else {
        match first_exe_index(files.skip(1)) {
            Some(i) => Some(i + 1),
            None => None,
        }
    }
}

/// The path under which a command is found: `probes` holds, for each
/// directory of the search path in turn, the facts of the command's name
/// inside it, and the first that is an executable wins.
pub open spec fn if_executable_spec(probes: Seq<FileFactsView>) -> Option<Seq<char>> {
    match first_exe_index(probes) {
        Some(i) => probes[i].path,
        None => None,
    }
}

/// The first of the probes is found, none before it is an executable, and
/// where nothing is found no probe is one.
pub proof fn lemma_first_exe_index(files: Seq<FileFactsView>)
    ensures
        match first_exe_index(files) {
            Some(i) => {
                &&& 0 <= i < files.len()
                &&& if_exe_spec(files[i]) is Some
                &&& forall|j: int| 0 <= j < i ==> if_exe_spec(#[trigger] files[j]) is None
            },
            None => forall|j: int| 0 <= j < files.len() ==> if_exe_spec(#[trigger] files[j]) is None,
        },
    decreases files.len(),
{
    if files.len() > 0 && if_exe_spec(files[0]) is None {
        let rest = files.skip(1);
        lemma_first_exe_index(rest);
        match first_exe_index(rest) {
            Some(i) => {
                assert(rest[i] == files[i + 1]);
                assert forall|j: int| 0 <= j < i + 1 implies if_exe_spec(
                    #[trigger] files[j],
                ) is None by {
                    if j > 0 {
                        assert(rest[j - 1] == files[j]);
                    }
                }
            },
            None => {
                assert forall|j: int| 0 <= j < files.len() implies if_exe_spec(
                    #[trigger] files[j],
                ) is None by {
                    if j > 0 {
                        assert(rest[j - 1] == files[j]);
                    }
                }
            },
        }
    }
}

/// Looks a command up along the search path, given what was found under its
/// name in each directory.
pub fn if_executable(probes: &Vec<FileFacts>) -> (r: Option<String>)
    ensures
        match if_executable_spec(facts(probes@)) {
            Some(path) => r is Some && r->Some_0@ == path,
            None => r is None,
        },
{
    let ghost all = facts(probes@);
    let mut i: usize = 0;
    assert(all.skip(0) =~= all);
    while i < probes.len()
        invariant
            i <= probes.len(),
            all == facts(probes@),
            first_exe_index(all) == match first_exe_index(all.skip(i as int)) {
                Some(k) => Some(k + i),
                None => None,
            },
        decreases probes.len() - i,
    {
        assert(all.skip(i as int)[0] == probes@[i as int]@);
        assert(all.skip(i as int).skip(1) =~= all.skip(i + 1));
        if let Some(exe) = if_exe(&probes[i]) {
            return Some(exe.path);
        }
        i += 1;
    }
    None
}

/// The executables among the files, in the order of the files.
pub open spec fn exes_of(files: Seq<FileFactsView>) -> Seq<ExeView>
    decreases files.len(),
{
    if files.len() == 0 {
        Seq::empty()
    } else {
        let before = exes_of(files.drop_last());
        match if_exe_spec(files.last()) {
            Some(exe) => before.push(exe),
            None => before,
        }
    }
}

/// The executables of a list, in order.
pub open spec fn exe_views(exes: Seq<Exe>) -> Seq<ExeView> {
    Seq::new(exes.len(), |i: int| exes[i]@)
}

/// All executables among the entries of the search path's directories.
pub fn find_exes(entries: &Vec<FileFacts>) -> (r: Vec<Exe>)
    ensures
        exe_views(r@) == exes_of(facts(entries@)),
{
    let ghost all = facts(entries@);
    let mut exes: Vec<Exe> = Vec::new();
    let mut i: usize = 0;
    assert(all.take(0).len() == 0);
    assert(exe_views(exes@) =~= exes_of(all.take(0)));
    while i < entries.len()
        invariant
            i <= entries.len(),
            all == facts(entries@),
            exe_views(exes@) == exes_of(all.take(i as int)),
        decreases entries.len() - i,
    {
        let ghost before = exe_views(exes@);
        proof {
            assert(all.take(i + 1).drop_last() =~= all.take(i as int));
            assert(all.take(i + 1).last() == entries@[i as int]@);
        }
        if let Some(exe) = if_exe(&entries[i]) {
            exes.push(exe);
            assert(exe_views(exes@) =~= before.push(exe@));
        }
        i += 1;
    }
    assert(all.take(entries.len() as int) =~= all);
    exes
}

} // verus!
