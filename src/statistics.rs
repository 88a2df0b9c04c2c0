use vstd::prelude::*;
use crate::detection::{copy_encoding, FileEncoding};

verus! {

/// One scanned file: where it is, its name, and what was detected.
#[derive(Debug, Clone)]
pub struct FileReport {
    pub path: String,
    pub name: String,
    pub encoding: FileEncoding,
}

/// How many files carry one encoding result.
#[derive(Debug, Clone)]
pub struct EncodingStat {
    pub encoding: String,
    pub bom: Option<String>,
    pub count: usize,
}

impl EncodingStat {
    pub open spec fn key(&self) -> (Seq<char>, Option<Seq<char>>) {
        (self.encoding@, crate::detection::opt_text_view(self.bom))
    }
}

/// The totals, the per-file list and the frequency table of a scan, the
/// table ordered by descending count.
#[derive(Debug)]
pub struct ScanReport {
    pub total_files: usize,
    pub files: Vec<FileReport>,
    pub encoding_stats: Vec<EncodingStat>,
}

/// How many of the files carry the encoding result `key`.
pub open spec fn count_of(files: Seq<FileReport>, key: (Seq<char>, Option<Seq<char>>)) -> nat
    decreases files.len(),
{
    if files.len() == 0 {
        0
    } else {
        count_of(files.drop_last(), key) + if files.last().encoding@ == key {
            1nat
        } else {
            0nat
        }
    }
}

pub open spec fn sum_of(s: Seq<usize>) -> nat
    decreases s.len(),
{
    if s.len() == 0 {
        0
    } else {
        sum_of(s.drop_last()) + s.last() as nat
    }
}

/// Changing one entry changes the sum by the difference.
pub proof fn lemma_sum_update(s: Seq<usize>, j: int, v: usize)
    requires
        0 <= j < s.len(),
    ensures
        sum_of(s.update(j, v)) + s[j] == sum_of(s) + v,
    decreases s.len(),
{
    let t = s.update(j, v);
    if j < s.len() - 1 {
        assert(t.drop_last() =~= s.drop_last().update(j, v));
        lemma_sum_update(s.drop_last(), j, v);
    } else {
        assert(t.drop_last() =~= s.drop_last());
    }
}

/// Counting over one more file adds one exactly when it carries the key.
pub proof fn lemma_count_push(files: Seq<FileReport>, r: FileReport, key: (Seq<char>, Option<Seq<char>>))
    ensures
        count_of(files.push(r), key) == count_of(files, key) + if r.encoding@ == key {
            1nat
        } else {
            0nat
        },
{
    assert(files.push(r).drop_last() =~= files);
}

/// No entry exceeds the sum.
pub proof fn lemma_entry_le_sum(s: Seq<usize>, j: int)
    requires
        0 <= j < s.len(),
    ensures
        s[j] <= sum_of(s),
    decreases s.len(),
{
    if j < s.len() - 1 {
        lemma_entry_le_sum(s.drop_last(), j);
    }
}

/// The frequency table of a scan, built one file at a time.
pub struct Statistics {
    total_files: usize,
    keys: Vec<FileEncoding>,
    counts: Vec<usize>,
    files: Vec<FileReport>,
}

impl Statistics {
    pub closed spec fn total(&self) -> nat {
        self.total_files as nat
    }

    pub closed spec fn file_list(&self) -> Seq<FileReport> {
        self.files@
    }

    pub closed spec fn key_list(&self) -> Seq<(Seq<char>, Option<Seq<char>>)> {
        self.keys@.map_values(|k: FileEncoding| k@)
    }

    pub closed spec fn count_list(&self) -> Seq<usize> {
        self.counts@
    }

    /// Every file is counted once under its encoding result: the table has
    /// one entry per distinct result, ordered by descending count, and its
    /// counts add up to the number of files.
    pub closed spec fn wf(&self) -> bool {
        &&& self.total_files == self.files@.len()
        &&& self.keys@.len() == self.counts@.len()
        &&& forall|i: int| 0 <= i < self.counts@.len() ==> self.counts@[i] == count_of(self.files@, self.keys@[i]@)
        &&& forall|i: int| 0 <= i < self.counts@.len() ==> self.counts@[i] >= 1
        &&& forall|i: int, j: int| 0 <= i < j < self.keys@.len() ==> self.keys@[i]@ != self.keys@[j]@
        &&& forall|f: int| 0 <= f < self.files@.len() ==> exists|i: int| 0 <= i < self.keys@.len() && self.keys@[i]@ == (#[trigger] self.files@[f]).encoding@
        &&& forall|i: int, j: int| 0 <= i < j < self.counts@.len() ==> self.counts@[i] >= self.counts@[j]
        &&& sum_of(self.counts@) == self.total_files
    }

    pub fn new() -> (r: Statistics)
        ensures
            r.wf(),
            r.total() == 0,
            r.file_list().len() == 0,
            r.key_list().len() == 0,
    {
        Statistics { total_files: 0, keys: Vec::new(), counts: Vec::new(), files: Vec::new() }
    }

    /// Records one file: it joins the file list and its encoding result's
    /// count grows by one, a new result entering the table with count one.
    pub fn add_file(&mut self, path: String, name: String, encoding: FileEncoding)
        requires
            old(self).wf(),
            old(self).total() < usize::MAX,
        ensures
            final(self).wf(),
            final(self).total() == old(self).total() + 1,
            final(self).file_list() == old(self).file_list().push(
                (FileReport { path, name, encoding }),
            ),
    {
        let ghost old_files = self.files@;
        let ghost old_keys = self.keys@;
        let ghost old_counts = self.counts@;
        let report = FileReport { path, name, encoding };
        let ghost key = report.encoding@;
        let n = self.keys.len();
        let mut j: usize = 0;
        while j < n
            invariant
                n == self.keys@.len(),
                self.keys@ == old_keys,
                j <= n,
                key == report.encoding@,
                forall|q: int| 0 <= q < j ==> old_keys[q]@ != key,
            ensures
                j <= n,
                self.keys@ == old_keys,
                forall|q: int| 0 <= q < j ==> old_keys[q]@ != key,
                j < n ==> old_keys[j as int]@ == key,
            decreases n - j,
        {
            if self.keys[j] == report.encoding {
                break;
            }
            j += 1;
        }
        let ghost kv = report.encoding@;
        let copy = copy_encoding(&report.encoding);
        self.total_files = self.total_files + 1;
        self.files.push(report);
        let ghost new_files = self.files@;
        assert(new_files == old_files.push(report));
        assert forall|k: (Seq<char>, Option<Seq<char>>)| count_of(new_files, k) == count_of(old_files, k) + if kv == k {
            1nat
        } else {
            0nat
        } by {
            lemma_count_push(old_files, report, k);
        }
        if j < n {
            let c = self.counts[j];
            proof {
                lemma_entry_le_sum(old_counts, j as int);
            }
            let mut p: usize = 0;
            while p < j && self.counts[p] > c
                invariant
                    p <= j,
                    j < n,
                    n == self.counts@.len(),
                    self.counts@ == old_counts,
                    c == old_counts[j as int],
                    forall|q: int| 0 <= q < p ==> old_counts[q] > c,
                decreases j - p,
            {
                p += 1;
            }
            if p < j {
                let kj = copy_encoding(&self.keys[j]);
                let kp = copy_encoding(&self.keys[p]);
                self.keys[p] = kj;
                self.keys[j] = kp;
                self.counts[j] = c;
                self.counts[p] = c + 1;
                proof {
                    assert(old_counts[p as int] == c);
                    lemma_sum_update(old_counts, p as int, (c + 1) as usize);
                    assert(self.counts@ == old_counts.update(p as int, (c + 1) as usize));
                    assert forall|q: int| p <= q <= j implies old_counts[q] == c by {}
                    assert forall|f: int| 0 <= f < new_files.len() implies exists|i: int| 0 <= i < self.keys@.len() && self.keys@[i]@ == (#[trigger] new_files[f]).encoding@ by {
                        if f < old_files.len() {
                            assert(new_files[f] == old_files[f]);
                            let i = choose|i: int| 0 <= i < old_keys.len() && old_keys[i]@ == (#[trigger] old_files[f]).encoding@;
                            if i == p {
                                assert(self.keys@[j as int]@ == old_keys[i]@);
                            } else if i == j {
                                assert(self.keys@[p as int]@ == old_keys[i]@);
                            } else {
                                assert(self.keys@[i]@ == old_keys[i]@);
                            }
                        } else {
                            assert(self.keys@[p as int]@ == kv);
                        }
                    }
                }
            } else {
                self.counts[j] = c + 1;
                proof {
                    lemma_sum_update(old_counts, j as int, (c + 1) as usize);
                    assert forall|f: int| 0 <= f < new_files.len() implies exists|i: int| 0 <= i < self.keys@.len() && self.keys@[i]@ == (#[trigger] new_files[f]).encoding@ by {
                        if f < old_files.len() {
                            assert(new_files[f] == old_files[f]);
                        } else {
                            assert(self.keys@[j as int]@ == kv);
                        }
                    }
                }
            }
        } else {
            self.keys.push(copy);
            self.counts.push(1);
            proof {
                assert(self.counts@.drop_last() =~= old_counts);
                assert(count_of(old_files, kv) == 0) by {
                    lemma_absent_key_count(old_files, kv, old_keys);
                }
                assert forall|f: int| 0 <= f < new_files.len() implies exists|i: int| 0 <= i < self.keys@.len() && self.keys@[i]@ == (#[trigger] new_files[f]).encoding@ by {
                    if f < old_files.len() {
                        assert(new_files[f] == old_files[f]);
                        let i = choose|i: int| 0 <= i < old_keys.len() && old_keys[i]@ == (#[trigger] old_files[f]).encoding@;
                        assert(self.keys@[i]@ == old_keys[i]@);
                    } else {
                        assert(self.keys@[n as int]@ == kv);
                    }
                }
            }
        }
    }
}

pub open spec fn stat_counts(stats: Seq<EncodingStat>) -> Seq<usize> {
    stats.map_values(|st: EncodingStat| st.count)
}

/// A copy of a file record with the same path, name and result.
pub fn copy_report(f: &FileReport) -> (r: FileReport)
    ensures
        r.path == f.path,
        r.name == f.name,
        r.encoding@ == f.encoding@,
{
    FileReport { path: f.path.clone(), name: f.name.clone(), encoding: copy_encoding(&f.encoding) }
}

impl Statistics {
    /// The scan report: the number of files, the files in the order they were
    /// added, and one entry per distinct encoding result with its count,
    /// by descending count. The counts add up to the number of files.
    pub fn generate_report(&self) -> (r: ScanReport)
        requires
            self.wf(),
        ensures
            r.total_files == self.total(),
            r.files@.len() == self.file_list().len(),
            forall|i: int| 0 <= i < r.files@.len() ==> r.files@[i].path == self.file_list()[i].path
                && r.files@[i].name == self.file_list()[i].name && r.files@[i].encoding@
                == self.file_list()[i].encoding@,
            forall|i: int| 0 <= i < r.encoding_stats@.len() ==> r.encoding_stats@[i].count
                == count_of(self.file_list(), r.encoding_stats@[i].key()),
            forall|i: int| 0 <= i < r.encoding_stats@.len() ==> r.encoding_stats@[i].count >= 1,
            forall|i: int, j: int| 0 <= i < j < r.encoding_stats@.len() ==> r.encoding_stats@[i].key()
                != r.encoding_stats@[j].key(),
            forall|i: int, j: int| 0 <= i < j < r.encoding_stats@.len() ==> r.encoding_stats@[i].count
                >= r.encoding_stats@[j].count,
            forall|f: int| 0 <= f < self.file_list().len() ==> exists|i: int| 0 <= i < r.encoding_stats@.len()
                && r.encoding_stats@[i].key() == (#[trigger] self.file_list()[f]).encoding@,
            sum_of(stat_counts(r.encoding_stats@)) == r.total_files,
    {
        let n = self.keys.len();
        let mut stats: Vec<EncodingStat> = Vec::new();
        let mut i: usize = 0;
        while i < n
            invariant
                self.wf(),
                n == self.keys@.len(),
                i <= n,
                stats@.len() == i,
                forall|q: int| 0 <= q < i ==> (#[trigger] stats@[q]).key() == self.keys@[q]@ && stats@[q].count == self.counts@[q],
            decreases n - i,
        {
            let e = copy_encoding(&self.keys[i]);
            let ghost before = stats@;
            let st = EncodingStat { encoding: e.encoding, bom: e.bom, count: self.counts[i] };
            assert(st.key() == self.keys@[i as int]@);
            stats.push(st);
            assert forall|q: int| 0 <= q < i + 1 implies stats@[q].key() == self.keys@[q]@ && stats@[q].count == self.counts@[q] by {
                if q < i {
                    assert(stats@[q] == before[q]);
                } else {
                    assert(stats@[q] == st);
                }
            }
            i += 1;
        }
        let m = self.files.len();
        let mut files: Vec<FileReport> = Vec::new();
        let mut k: usize = 0;
        while k < m
            invariant
                m == self.files@.len(),
                k <= m,
                files@.len() == k,
                forall|q: int| 0 <= q < k ==> files@[q].path == self.files@[q].path && files@[q].name
                    == self.files@[q].name && files@[q].encoding@ == self.files@[q].encoding@,
            decreases m - k,
        {
            files.push(copy_report(&self.files[k]));
            k += 1;
        }
        assert(stat_counts(stats@) =~= self.counts@);
        assert forall|f: int| 0 <= f < self.files@.len() implies exists|i: int| 0 <= i < stats@.len()
            && stats@[i].key() == (#[trigger] self.files@[f]).encoding@ by {
            let i = choose|i: int| 0 <= i < self.keys@.len() && self.keys@[i]@ == (#[trigger] self.files@[f]).encoding@;
            assert(stats@[i].key() == self.keys@[i]@);
        }
        assert forall|q: int| 0 <= q < stats@.len() implies stats@[q].count == count_of(self.files@, stats@[q].key()) by {
            assert(stats@[q].key() == self.keys@[q]@);
        }
        ScanReport { total_files: self.total_files, files, encoding_stats: stats }
    }
}

/// A key that no file carries has count zero.
pub proof fn lemma_absent_key_count(files: Seq<FileReport>, key: (Seq<char>, Option<Seq<char>>), keys: Seq<FileEncoding>)
    requires
        forall|f: int| 0 <= f < files.len() ==> exists|i: int| 0 <= i < keys.len() && keys[i]@ == (#[trigger] files[f]).encoding@,
        forall|i: int| 0 <= i < keys.len() ==> keys[i]@ != key,
    ensures
        count_of(files, key) == 0,
    decreases files.len(),
{
    if files.len() > 0 {
        let last = files.len() - 1;
        assert(files[last] == files.last());
        let i = choose|i: int| 0 <= i < keys.len() && keys[i]@ == (#[trigger] files[last]).encoding@;
        assert forall|f: int| 0 <= f < files.drop_last().len() implies exists|i: int| 0 <= i < keys.len() && keys[i]@ == (#[trigger] files.drop_last()[f]).encoding@ by {
            assert(files.drop_last()[f] == files[f]);
        }
        lemma_absent_key_count(files.drop_last(), key, keys);
    }
}

} // verus!
