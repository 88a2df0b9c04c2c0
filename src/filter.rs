use vstd::prelude::*;
use vstd::string::StrSliceExecFns;
use crate::casing::{lower_of, to_lower};

verus! {

/// The text with its leading dots removed.
pub open spec fn strip_dots(s: Seq<char>) -> Seq<char>
    decreases s.len(),
{
    if s.len() > 0 && s[0] == '.' {
        strip_dots(s.subrange(1, s.len() as int))
    } else {
        s
    }
}

/// The extension of a path, as `Path::extension` gives it.
pub uninterp spec fn path_extension(p: Seq<char>) -> Option<Seq<char>>;

/// Relies on std::path::Path::extension: the result depends on the path text alone.
#[verifier::external_body]
fn extension_of(path: &str) -> (r: Option<String>)
    ensures
        match path_extension(path@) {
            Some(e) => r is Some && r.unwrap()@ == e,
            None => r is None,
        },
{
    std::path::Path::new(path).extension().map(|e| e.to_string_lossy().into_owned())
}

/// An optional allow-list of file extensions, compared without case.
pub struct FileFilter {
    extensions: Option<Vec<String>>,
}

pub open spec fn normalized_list(exts: Seq<String>) -> Seq<Seq<char>> {
    exts.map_values(|e: String| lower_of(strip_dots(e@)))
}

fn trim_leading_dots(s: &str) -> (r: &str)
    ensures
        r@ == strip_dots(s@),
{
    let n = s.unicode_len();
    let mut k: usize = 0;
    assert(s@.subrange(0, n as int) =~= s@);
    while k < n && s.get_char(k) == '.'
        invariant
            n == s@.len(),
            k <= n,
            strip_dots(s@) == strip_dots(s@.subrange(k as int, n as int)),
        decreases n - k,
    {
        assert(s@.subrange(k as int, n as int).subrange(1, (n - k) as int) =~= s@.subrange(k + 1, n as int));
        k += 1;
    }
    s.substring_char(k, n)
}

impl FileFilter {
    pub closed spec fn allowed(&self) -> Option<Seq<Seq<char>>> {
        match self.extensions {
            Some(v) => Some(v@.map_values(|e: String| e@)),
            None => None,
        }
    }

    /// Builds the filter; each extension loses its leading dots and is
    /// lowercased. No list means every file is included.
    pub fn new(extensions: Option<Vec<String>>) -> (r: FileFilter)
        ensures
            match extensions {
                None => r.allowed() is None,
                Some(v) => r.allowed() == Some(normalized_list(v@)),
            },
    {
        match extensions {
            None => FileFilter { extensions: None },
            Some(exts) => {
                let mut out: Vec<String> = Vec::new();
                let mut i: usize = 0;
                while i < exts.len()
                    invariant
                        i <= exts@.len(),
                        out@.len() == i,
                        forall|q: int| 0 <= q < i ==> (#[trigger] out@[q])@ == lower_of(strip_dots(exts@[q]@)),
                    decreases exts@.len() - i,
                {
                    let trimmed = trim_leading_dots(exts[i].as_str());
                    out.push(to_lower(trimmed));
                    i += 1;
                }
                let r = FileFilter { extensions: Some(out) };
                assert(r.allowed().unwrap() =~= normalized_list(exts@));
                r
            },
        }
    }

    /// Whether a file with extension `ext` passes the filter.
    pub fn accepts_extension(&self, ext: Option<String>) -> (r: bool)
        ensures
            r == match self.allowed() {
                None => true,
                Some(list) => ext is Some && list.contains(lower_of(ext.unwrap()@)),
            },
    {
        match &self.extensions {
            None => true,
            Some(list) => match &ext {
                None => false,
                Some(e) => {
                    let lower = to_lower(e.as_str());
                    let ghost l = self.allowed().unwrap();
                    assert(l == list@.map_values(|s: String| s@));
                    let mut i: usize = 0;
                    while i < list.len()
                        invariant
                            i <= list@.len(),
                            l.len() == list@.len(),
                            self.allowed() == Some(l),
                            ext is Some && lower@ == lower_of(ext.unwrap()@),
                            l == list@.map_values(|s: String| s@),
                            forall|q: int| 0 <= q < i ==> l[q] != lower@,
                        decreases list@.len() - i,
                    {
                        if list[i] == lower {
                            assert(l[i as int] == lower@);
                            assert(l.contains(lower@));
                            return true;
                        }
                        i += 1;
                    }
                    false
                },
            },
        }
    }

    /// Whether the file at `path` passes the filter.
    pub fn should_include(&self, path: &str) -> (r: bool)
        ensures
            r == match self.allowed() {
                None => true,
                Some(list) => path_extension(path@) is Some && list.contains(
                    lower_of(path_extension(path@).unwrap()),
                ),
            },
    {
        self.accepts_extension(extension_of(path))
    }
}

} // verus!
