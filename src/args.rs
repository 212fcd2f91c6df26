use vstd::prelude::*;

verus! {

/// The settings of one run.
#[derive(Debug, Default, PartialEq)]
pub struct Args {
    /// Firmware image.
    pub bios_path: String,
    /// Path to the emulator executable.
    pub qemu_path: String,
    /// Size of the image in megabytes.
    pub size: u64,
    /// Host directory mirrored into the image and synced back after the run.
    pub persistant_data: Option<String>,
    /// The UEFI executable.
    pub efi_exe: String,
    /// Additional arguments for the emulator.
    pub qemu_args: Vec<String>,
    /// Boot the executable directly instead of from the UEFI shell.
    pub boot: bool,
    /// Extra files for the image, each `outer:inner` or just `outer`.
    pub add_file: Vec<String>,
}

/// Why an extra-file argument could not be read.
#[derive(Clone, Copy, Debug, PartialEq, Eq, Structural)]
pub enum AddFileError {
    /// The argument has no `:` and its path has no final file name.
    InvalidOuterFile,
}

/// The index of the first `:` in `s`, or -1 when there is none.
pub open spec fn first_colon(s: Seq<char>) -> int
    decreases s.len(),
{
    if s.len() == 0 {
        -1
    } else if s[0] == ':' {
        0
    } else if first_colon(s.drop_first()) < 0 {
        -1
    } else {
        first_colon(s.drop_first()) + 1
    }
}

/// The index of the last `/` in `s`, or -1 when there is none.
pub open spec fn last_slash(s: Seq<char>) -> int
    decreases s.len(),
{
    if s.len() == 0 {
        -1
    } else if s.last() == '/' {
        s.len() - 1
    } else {
        last_slash(s.drop_last())
    }
}

/// The last component of the path `s`: empty and `.` components are passed
/// over; a path that ends in `..` or has no component has none.
pub open spec fn file_name_spec(s: Seq<char>) -> Option<Seq<char>>
    decreases s.len(),
{
    let j = last_slash(s);
    let seg = s.subrange(j + 1, s.len() as int);
    if seg.len() == 0 || seg == "."@ {
        if j < 0 || j >= s.len() {
            None
        } else {
            file_name_spec(s.subrange(0, j))
        }
    } else if seg == ".."@ {
        None
    } else {
        Some(seg)
    }
}

/// What an extra-file argument names: the host file and its path in the image.
pub open spec fn add_file_spec(s: Seq<char>) -> Result<(Seq<char>, Seq<char>), AddFileError> {
    let k = first_colon(s);
    if k >= 0 {
        Ok((s.subrange(0, k), s.subrange(k + 1, s.len() as int)))
    } else {
        match file_name_spec(s) {
            Some(n) => Ok((s, n)),
            None => Err(AddFileError::InvalidOuterFile),
        }
    }
}

pub open spec fn pair_view(r: Result<(String, String), AddFileError>) -> Result<(Seq<char>, Seq<char>), AddFileError> {
    match r {
        Ok((a, b)) => Ok((a@, b@)),
        Err(e) => Err(e),
    }
}

proof fn lemma_first_colon(s: Seq<char>, k: int)
    requires
        0 <= k <= s.len(),
        forall|m: int| 0 <= m < k ==> s[m] != ':',
    ensures
        k < s.len() && s[k] == ':' ==> first_colon(s) == k,
        k == s.len() ==> first_colon(s) == -1,
    decreases k,
{
    if k > 0 {
        lemma_first_colon(s.drop_first(), k - 1);
    }
}

proof fn lemma_last_slash_range(s: Seq<char>)
    ensures
        -1 <= last_slash(s) < s.len(),
        last_slash(s) >= 0 ==> s[last_slash(s)] == '/',
    decreases s.len(),
{
    if s.len() > 0 && s.last() != '/' {
        lemma_last_slash_range(s.drop_last());
    }
}

/// The index of the last `/` before `end`.
fn find_last_slash(s: &str, end: usize) -> (r: Option<usize>)
    requires
        end <= s@.len(),
    ensures
        r matches Some(j) ==> last_slash(s@.subrange(0, end as int)) == j,
        r is None ==> last_slash(s@.subrange(0, end as int)) == -1,
{
    let mut k: usize = end;
    while k > 0 && s.get_char(k - 1) != '/'
        invariant
            k <= end <= s@.len(),
            last_slash(s@.subrange(0, end as int)) == last_slash(s@.subrange(0, k as int)),
        decreases k,
    {
        proof {
            let t = s@.subrange(0, k as int);
            assert(t.drop_last() =~= s@.subrange(0, k - 1));
        }
        k = k - 1;
    }
    if k == 0 {
        assert(s@.subrange(0, 0).len() == 0);
        None
    } else {
        Some(k - 1)
    }
}

/// The last component of the path `s`, as `file_name_spec` states it.
fn file_name(s: &str) -> (r: Option<String>)
    ensures
        r matches Some(n) ==> file_name_spec(s@) == Some(n@),
        r is None ==> file_name_spec(s@) is None,
{
    let len = s.unicode_len();
    let mut end: usize = len;
    assert(s@.subrange(0, len as int) =~= s@);
    loop
        invariant
            end <= s@.len(),
            len == s@.len(),
            file_name_spec(s@) == file_name_spec(s@.subrange(0, end as int)),
        decreases end,
    {
        let ghost p = s@.subrange(0, end as int);
        let j = find_last_slash(s, end);
        proof {
            lemma_last_slash_range(p);
        }
        let start: usize = match j {
            Some(j) => j + 1,
            None => 0,
        };
        let seg = s.substring_char(start, end).to_owned();
        assert(seg@ =~= p.subrange(last_slash(p) + 1, p.len() as int));
        if seg.unicode_len() == 0 || seg == ".".to_owned() {
            match j {
                None => {
                    return None;
                },
                Some(j) => {
                    assert(p.subrange(0, j as int) =~= s@.subrange(0, j as int));
                    end = j;
                },
            }
        } else if seg == "..".to_owned() {
            return None;
        } else {
            return Some(seg);
        }
    }
}

/// Reads one extra-file argument: `outer:inner` splits at the first `:`; a
/// plain `outer` goes into the image under its last path component.
pub fn parse_add_file(s: &str) -> (r: Result<(String, String), AddFileError>)
    ensures
        pair_view(r) == add_file_spec(s@),
{
    let len = s.unicode_len();
    let mut k: usize = 0;
    while k < len && s.get_char(k) != ':'
        invariant
            k <= len == s@.len(),
            forall|m: int| 0 <= m < k ==> s@[m] != ':',
        decreases len - k,
    {
        k = k + 1;
    }
    proof {
        lemma_first_colon(s@, k as int);
    }
    if k < len {
        let outer = s.substring_char(0, k).to_owned();
        let inner = s.substring_char(k + 1, len).to_owned();
        Ok((outer, inner))
    } else {
        match file_name(s) {
            Some(n) => Ok((s.to_owned(), n)),
            None => Err(AddFileError::InvalidOuterFile),
        }
    }
}

impl Args {
    /// Reads every extra-file argument, in order.
    pub fn parse_add_file_args(&self) -> (r: Vec<Result<(String, String), AddFileError>>)
        ensures
            r.len() == self.add_file.len(),
            forall|i: int|
                0 <= i < r.len() ==> pair_view(#[trigger] r[i]) == add_file_spec(self.add_file[i]@),
    {
        let mut r: Vec<Result<(String, String), AddFileError>> = Vec::new();
        let mut i: usize = 0;
        while i < self.add_file.len()
            invariant
                i <= self.add_file.len(),
                r.len() == i,
                forall|m: int|
                    0 <= m < i ==> pair_view(#[trigger] r[m]) == add_file_spec(self.add_file[m]@),
            decreases self.add_file.len() - i,
        {
            r.push(parse_add_file(self.add_file[i].as_str()));
            i = i + 1;
        }
        r
    }
}

} // verus!
