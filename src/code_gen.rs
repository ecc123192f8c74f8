use vstd::prelude::*;

verus! {

/// Why code generation failed.
#[derive(Clone, Debug, PartialEq, Eq)]
pub enum CodeGenerationError {
    /// The linker failed, with its diagnostic output.
    LinkerError(String),
    /// Linking the group module into the file module failed.
    ModuleLinkerError(String),
    UnknownTargetTriple(String),
    CouldNotCreateTargetMachine,
    /// Writing the temporary object file failed, with the underlying cause.
    CouldNotCreateObjectFile(String),
    CodeGenerationError(String),
    /// The target's data layout has a pointer width or alignment that code generation does not
    /// support.
    UnsupportedTarget,
    /// The program refers to a struct, function or expression that does not exist.
    InvalidProgram,
    /// A type that reaches code generation has no native representation (a value struct that
    /// contains itself, or one too large for the runtime's descriptors).
    UnsupportedType,
}

/// The index of the last occurrence of `c` in `s`, or -1.
pub open spec fn last_index_of(s: Seq<char>, c: char) -> int
    decreases s.len(),
{
    if s.len() == 0 {
        -1
    } else if s.last() == c {
        s.len() - 1
    } else {
        last_index_of(s.drop_last(), c)
    }
}

proof fn lemma_last_index_bounds(s: Seq<char>, c: char)
    ensures
        -1 <= last_index_of(s, c) < s.len(),
        last_index_of(s, c) >= 0 ==> s[last_index_of(s, c)] == c,
    decreases s.len(),
{
    if s.len() > 0 && s.last() != c {
        lemma_last_index_bounds(s.drop_last(), c);
    }
}

/// The last component of a `/`-separated path.
pub open spec fn file_name_of(path: Seq<char>) -> Seq<char> {
    path.subrange(last_index_of(path, '/') + 1, path.len() as int)
}

/// A file name without its extension: everything before the last `.`, unless that `.` is the
/// first character.
pub open spec fn file_stem_of(name: Seq<char>) -> Seq<char> {
    if last_index_of(name, '.') <= 0 {
        name
    } else {
        name.subrange(0, last_index_of(name, '.'))
    }
}

/// The path of the assembly built from the source file at `src_path`: the file's stem with the
/// `munlib` extension, inside `out_dir` when one is given. `None` when the path names no file.
pub open spec fn assembly_path_of(src_path: Seq<char>, out_dir: Option<Seq<char>>) -> Option<
    Seq<char>,
> {
    let name = file_name_of(src_path);
    if name.len() == 0 || name == "."@ || name == ".."@ {
        None
    } else {
        let file = file_stem_of(name) + ".munlib"@;
        match out_dir {
            None => Some(file),
            Some(d) => if d.len() == 0 {
                Some(file)
            } else if d.last() == '/' {
                Some(d + file)
            } else {
                Some(d + "/"@ + file)
            },
        }
    }
}

pub open spec fn dir_view(d: Option<&str>) -> Option<Seq<char>> {
    match d {
        Some(d) => Some(d@),
        None => None,
    }
}

fn last_index(s: &str, c: char) -> (r: Option<usize>)
    ensures
        match r {
            Some(i) => i == last_index_of(s@, c),
            None => last_index_of(s@, c) == -1,
        },
{
    let n = s.unicode_len();
    let mut i: usize = n;
    assert(s@.take(n as int) =~= s@);
    while i > 0
        invariant
            n == s@.len(),
            0 <= i <= n,
            last_index_of(s@, c) == last_index_of(s@.take(i as int), c),
        decreases i,
    {
        assert(s@.take(i as int).drop_last() =~= s@.take(i - 1));
        if s.get_char(i - 1) == c {
            return Some(i - 1);
        }
        i = i - 1;
    }
    None
}

fn chars_equal(a: &str, b: &str) -> (r: bool)
    ensures
        r == (a@ == b@),
{
    let n = a.unicode_len();
    if n != b.unicode_len() {
        return false;
    }
    let mut i: usize = 0;
    while i < n
        invariant
            n == a@.len() == b@.len(),
            0 <= i <= n,
            forall|j: int| 0 <= j < i ==> a@[j] == b@[j],
        decreases n - i,
    {
        if a.get_char(i) != b.get_char(i) {
            return false;
        }
        i = i + 1;
    }
    assert(a@ =~= b@);
    true
}

/// The path of the assembly built from `src_path` (see `assembly_path_of`).
pub fn assembly_output_path(src_path: &str, out_dir: Option<&str>) -> (r: Option<String>)
    ensures
        r matches Some(p) ==> assembly_path_of(src_path@, dir_view(out_dir)) == Some(p@),
        r is None ==> assembly_path_of(src_path@, dir_view(out_dir)) is None,
{
    let n = src_path.unicode_len();
    proof {
        lemma_last_index_bounds(src_path@, '/');
    }
    let start = match last_index(src_path, '/') {
        Some(i) => i + 1,
        None => 0,
    };
    let name = src_path.substring_char(start, n);
    assert(name@ == file_name_of(src_path@));
    let name_len = name.unicode_len();
    if name_len == 0 || chars_equal(name, ".") || chars_equal(name, "..") {
        return None;
    }
    proof {
        lemma_last_index_bounds(name@, '.');
    }
    let stem = match last_index(name, '.') {
        Some(d) => if d == 0 {
            name
        } else {
            name.substring_char(0, d)
        },
        None => name,
    };
    let file = String::from_str(stem).concat(".munlib");
    match out_dir {
        None => Some(file),
        Some(d) => {
            let dl = d.unicode_len();
            if dl == 0 {
                Some(file)
            } else if d.get_char(dl - 1) == '/' {
                Some(String::from_str(d).concat(file.as_str()))
            } else {
                Some(String::from_str(d).concat("/").concat(file.as_str()))
            }
        },
    }
}

} // verus!
