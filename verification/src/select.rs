//! File selection: walks' results are filtered against the include and
//! exclude patterns and the size cap, given their path within the archive,
//! and sorted so the outcome is deterministic for a given input set.
//!
//! The caller walks the file system and hands every regular file it saw as a
//! [`CandidateFile`]; everything the selector decides is computed here from
//! those plain values.

use vstd::prelude::*;
use vstd::multiset::Multiset;
use crate::patterns::{PatternSet, pattern_set_matches};
use crate::text::{chars_of, lemma_lex_le_total, lemma_lex_le_trans, lex_le, str_le, string_from_chars};

verus! {

/// A path separator; backslashes are normalized away in archive names.
pub open spec fn is_sep(c: char) -> bool {
    c == '/' || c == '\\'
}

/// The path with its trailing separators removed.
pub open spec fn trim_trailing_seps(s: Seq<char>) -> Seq<char>
    decreases s.len(),
{
    if s.len() > 0 && is_sep(s[s.len() - 1]) {
        trim_trailing_seps(s.take(s.len() - 1))
    } else {
        s
    }
}

/// The path with trailing separators and trailing `.` components removed,
/// step by step from the end: `docs/./` names the same entry as `docs`.
pub open spec fn trim_trailing_dots(s: Seq<char>) -> Seq<char>
    decreases s.len(),
{
    if s.len() > 0 && is_sep(s[s.len() - 1]) {
        trim_trailing_dots(s.take(s.len() - 1))
    } else if s.len() >= 2 && s[s.len() - 1] == '.' && is_sep(s[s.len() - 2]) {
        trim_trailing_dots(s.take(s.len() - 1))
    } else {
        s
    }
}

/// The length of the prefix up to and including the last separator: the part
/// naming the parent directory.  Zero when the path has no separator.
pub open spec fn parent_prefix_len(s: Seq<char>) -> int
    decreases s.len(),
{
    if s.len() == 0 {
        0
    } else if is_sep(s[s.len() - 1]) {
        s.len() as int
    } else {
        parent_prefix_len(s.take(s.len() - 1))
    }
}

/// Every backslash replaced by a forward slash.
pub open spec fn normalize_seps(s: Seq<char>) -> Seq<char> {
    s.map_values(|c: char| if c == '\\' { '/' } else { c })
}

/// All leading `./` runs removed.
pub open spec fn strip_dot_slash(s: Seq<char>) -> Seq<char>
    decreases s.len(),
{
    if s.len() >= 2 && s[0] == '.' && s[1] == '/' {
        strip_dot_slash(s.skip(2))
    } else {
        s
    }
}

/// Whether position `i` starts a `..` path segment.
pub open spec fn has_dotdot_at(s: Seq<char>, i: int) -> bool {
    &&& 0 <= i
    &&& i + 2 <= s.len()
    &&& s[i] == '.'
    &&& s[i + 1] == '.'
    &&& (i == 0 || s[i - 1] == '/')
    &&& (i + 2 == s.len() || s[i + 2] == '/')
}

/// A name that can stand inside an archive: non-empty, relative, and never
/// escaping the archive root.
pub open spec fn valid_entry_name(s: Seq<char>) -> bool {
    &&& s.len() > 0
    &&& s[0] != '/'
    &&& forall|i: int| !has_dotdot_at(s, i)
}

/// The path-within-archive of a file, relative to the input root's parent:
/// the parent prefix is stripped, separators are normalized to `/` and
/// leading `./` runs are removed.  Nothing is produced when the file does
/// not lie under the root's parent or the name would be empty or escape the
/// root.
pub open spec fn spec_archive_name(root: Seq<char>, full: Seq<char>) -> Option<Seq<char>> {
    let r = trim_trailing_seps(root);
    let pl = parent_prefix_len(r);
    if pl <= full.len() && full.take(pl) == r.take(pl) {
        let name = strip_dot_slash(normalize_seps(full.skip(pl)));
        if valid_entry_name(name) {
            Some(name)
        } else {
            None
        }
    } else {
        None
    }
}

fn dot_slash_at(nm: &Vec<char>, st: usize) -> (r: bool)
    ensures
        r == (st + 2 <= nm@.len() && nm@[st as int] == '.' && nm@[st as int + 1] == '/'),
{
    if st < nm.len() && nm.len() - st >= 2 {
        let a = nm[st];
        let b = nm[st + 1];
        a == '.' && b == '/'
    } else {
        false
    }
}

fn is_sep_char(c: char) -> (r: bool)
    ensures
        r == is_sep(c),
{
    c == '/' || c == '\\'
}

/// Computes the length of the root path once trailing separators are gone,
/// and the length of its parent prefix.
pub(crate) fn root_prefix_lens(rv: &Vec<char>) -> (r: (usize, usize))
    ensures
        rv@.take(r.0 as int) == trim_trailing_seps(rv@),
        r.1 as int == parent_prefix_len(trim_trailing_seps(rv@)),
        r.1 <= r.0 <= rv@.len(),
{
    let mut t_end: usize = rv.len();
    proof {
        assert(rv@.take(rv@.len() as int) =~= rv@);
    }
    while t_end > 0 && is_sep_char(rv[t_end - 1])
        invariant
            t_end <= rv@.len(),
            trim_trailing_seps(rv@) == trim_trailing_seps(rv@.take(t_end as int)),
        decreases t_end,
    {
        proof {
            assert(rv@.take(t_end as int).take(t_end - 1) =~= rv@.take(t_end - 1));
        }
        t_end = t_end - 1;
    }
    proof {
        assert(trim_trailing_seps(rv@.take(t_end as int)) == rv@.take(t_end as int));
    }
    let ghost trimmed = rv@.take(t_end as int);
    let mut pl: usize = t_end;
    while pl > 0 && !is_sep_char(rv[pl - 1])
        invariant
            pl <= t_end <= rv@.len(),
            trimmed == rv@.take(t_end as int),
            trimmed == trim_trailing_seps(rv@),
            parent_prefix_len(trimmed) == parent_prefix_len(rv@.take(pl as int)),
        decreases pl,
    {
        proof {
            assert(rv@.take(pl as int).take(pl - 1) =~= rv@.take(pl - 1));
            assert(rv@.take(pl as int)[pl - 1] == rv@[pl - 1]);
        }
        pl = pl - 1;
    }
    proof {
        if pl > 0 {
            assert(rv@.take(pl as int)[pl - 1] == rv@[pl - 1]);
            assert(parent_prefix_len(rv@.take(pl as int)) == pl as int);
        } else {
            assert(rv@.take(0).len() == 0);
        }
    }
    (t_end, pl)
}

fn base_trimmable(rv: &Vec<char>, t: usize) -> (r: bool)
    requires
        t <= rv@.len(),
    ensures
        r == (t > 0 && (is_sep(rv@[t - 1]) || (t >= 2 && rv@[t - 1] == '.' && is_sep(
            rv@[t - 2],
        )))),
{
    if t == 0 {
        return false;
    }
    let last = rv[t - 1];
    if last == '/' || last == '\\' {
        return true;
    }
    if last == '.' && t >= 2 {
        let prev = rv[t - 2];
        return prev == '/' || prev == '\\';
    }
    false
}

/// Computes the length of the path once trailing separators and trailing
/// `.` components are gone, and the length of its parent prefix.
pub(crate) fn base_bounds(rv: &Vec<char>) -> (r: (usize, usize))
    ensures
        rv@.take(r.0 as int) == trim_trailing_dots(rv@),
        r.1 as int == parent_prefix_len(trim_trailing_dots(rv@)),
        r.1 <= r.0 <= rv@.len(),
{
    let mut t: usize = rv.len();
    proof {
        assert(rv@.take(rv@.len() as int) =~= rv@);
    }
    while base_trimmable(rv, t)
        invariant
            t <= rv@.len(),
            trim_trailing_dots(rv@) == trim_trailing_dots(rv@.take(t as int)),
        decreases t,
    {
        proof {
            assert(rv@.take(t as int).take(t - 1) =~= rv@.take(t - 1));
            assert(rv@.take(t as int)[t - 1] == rv@[t - 1]);
            if t >= 2 {
                assert(rv@.take(t as int)[t - 2] == rv@[t - 2]);
            }
        }
        t = t - 1;
    }
    proof {
        assert(trim_trailing_dots(rv@.take(t as int)) == rv@.take(t as int)) by {
            if t > 0 {
                assert(rv@.take(t as int)[t - 1] == rv@[t - 1]);
                if t >= 2 {
                    assert(rv@.take(t as int)[t - 2] == rv@[t - 2]);
                }
            }
        }
    }
    let ghost trimmed = rv@.take(t as int);
    let mut pl: usize = t;
    while pl > 0 && !is_sep_char(rv[pl - 1])
        invariant
            pl <= t <= rv@.len(),
            trimmed == rv@.take(t as int),
            trimmed == trim_trailing_dots(rv@),
            parent_prefix_len(trimmed) == parent_prefix_len(rv@.take(pl as int)),
        decreases pl,
    {
        proof {
            assert(rv@.take(pl as int).take(pl - 1) =~= rv@.take(pl - 1));
            assert(rv@.take(pl as int)[pl - 1] == rv@[pl - 1]);
        }
        pl = pl - 1;
    }
    proof {
        if pl > 0 {
            assert(rv@.take(pl as int)[pl - 1] == rv@[pl - 1]);
            assert(parent_prefix_len(rv@.take(pl as int)) == pl as int);
        } else {
            assert(rv@.take(0int).len() == 0);
        }
    }
    (t, pl)
}

/// Computes the path-within-archive of `full` relative to `root`'s parent.
pub fn archive_name_of(root: &str, full: &str) -> (r: Option<String>)
    ensures
        r is Some <==> spec_archive_name(root@, full@) is Some,
        r matches Some(s) ==> (spec_archive_name(root@, full@) matches Some(n) && s@ == n),
{
    let rv = chars_of(root);
    let fv = chars_of(full);
    let (t_end, pl) = root_prefix_lens(&rv);
    let ghost trimmed = trim_trailing_seps(root@);
    if pl > fv.len() {
        return None;
    }
    let mut i: usize = 0;
    while i < pl
        invariant
            i <= pl <= fv@.len(),
            pl <= t_end <= rv@.len(),
            rv@ == root@,
            fv@ == full@,
            trimmed == trim_trailing_seps(root@),
            trimmed == root@.take(t_end as int),
            pl as int == parent_prefix_len(trimmed),
            forall|k: int| 0 <= k < i ==> full@[k] == root@[k],
        decreases pl - i,
    {
        if rv[i] != fv[i] {
            proof {
                assert(trimmed.take(pl as int)[i as int] == root@[i as int]);
                assert(full@.take(pl as int)[i as int] == full@[i as int]);
                assert(full@.take(pl as int) != trimmed.take(pl as int));
            }
            return None;
        }
        i = i + 1;
    }
    proof {
        assert(full@.take(pl as int) =~= trimmed.take(pl as int)) by {
            assert(forall|k: int| 0 <= k < pl ==> full@.take(pl as int)[k] == full@[k]);
            assert(forall|k: int| 0 <= k < pl ==> trimmed.take(pl as int)[k] == root@[k]);
        }
    }
    // Normalize separators of the part below the parent prefix.
    let mut nm: Vec<char> = Vec::new();
    let mut k: usize = pl;
    while k < fv.len()
        invariant
            pl <= k <= fv@.len(),
            fv@ == full@,
            nm@.len() == k - pl,
            forall|x: int| 0 <= x < nm@.len() ==> nm@[x] == (if full@[pl + x] == '\\' {
                '/'
            } else {
                full@[pl + x]
            }),
        decreases fv.len() - k,
    {
        let c = fv[k];
        if c == '\\' {
            nm.push('/');
        } else {
            nm.push(c);
        }
        k = k + 1;
    }
    proof {
        assert(nm@ =~= normalize_seps(full@.skip(pl as int)));
    }
    // Remove leading `./` runs.
    proof {
        assert(nm@.skip(0) =~= nm@);
    }
    let mut st: usize = 0;
    while dot_slash_at(&nm, st)
        invariant
            st <= nm@.len(),
            strip_dot_slash(nm@) == strip_dot_slash(nm@.skip(st as int)),
        decreases nm.len() - st,
    {
        proof {
            assert(nm@.skip(st as int).len() >= 2);
            assert(nm@.skip(st as int)[0] == nm@[st as int]);
            assert(nm@.skip(st as int)[1] == nm@[st + 1]);
            assert(nm@.skip(st as int).skip(2) =~= nm@.skip(st + 2));
        }
        st = st + 2;
    }
    proof {
        assert(nm@.skip(st as int).len() < 2 || !(nm@.skip(st as int)[0] == '.'
            && nm@.skip(st as int)[1] == '/')) by {
            if nm@.skip(st as int).len() >= 2 {
                assert(nm@.skip(st as int)[0] == nm@[st as int]);
                assert(nm@.skip(st as int)[1] == nm@[st + 1]);
            }
        }
        assert(strip_dot_slash(nm@.skip(st as int)) == nm@.skip(st as int));
    }
    let mut name: Vec<char> = Vec::new();
    let mut k2: usize = st;
    while k2 < nm.len()
        invariant
            st <= k2 <= nm@.len(),
            name@ == nm@.subrange(st as int, k2 as int),
        decreases nm.len() - k2,
    {
        name.push(nm[k2]);
        proof {
            assert(nm@.subrange(st as int, k2 as int).push(nm@[k2 as int]) =~= nm@.subrange(
                st as int,
                k2 + 1 as int,
            ));
        }
        k2 = k2 + 1;
    }
    proof {
        assert(name@ =~= nm@.skip(st as int));
    }
    let ghost nmv = name@;
    proof {
        assert(nmv == strip_dot_slash(normalize_seps(full@.skip(pl as int))));
        assert(spec_archive_name(root@, full@) == (if valid_entry_name(nmv) {
            Some(nmv)
        } else {
            Option::<Seq<char>>::None
        }));
    }
    let ghost want = spec_archive_name(root@, full@);
    // The name has to be non-empty, relative, and free of `..` segments.
    if name.len() == 0 {
        return None;
    }
    if name[0] == '/' {
        return None;
    }
    let mut j: usize = 0;
    while j < name.len()
        invariant
            j <= name@.len(),
            name@ == nmv,
            want == spec_archive_name(root@, full@),
            want == (if valid_entry_name(nmv) {
                Some(nmv)
            } else {
                Option::<Seq<char>>::None
            }),
            forall|x: int| x < j ==> !has_dotdot_at(nmv, x),
        decreases name.len() - j,
    {
        let dd = name[j] == '.' && j + 1 < name.len() && name[j + 1] == '.' && (j == 0 || {
            let prev = name[j - 1];
            prev == '/'
        }) && (j + 2 >= name.len() || {
            let next = name[j + 2];
            next == '/'
        });
        if dd {
            proof {
                assert(has_dotdot_at(nmv, j as int));
            }
            return None;
        }
        proof {
            assert(!has_dotdot_at(nmv, j as int));
        }
        j = j + 1;
    }
    proof {
        assert(forall|x: int| !has_dotdot_at(nmv, x)) by {
            assert(forall|x: int| x >= nmv.len() ==> !has_dotdot_at(nmv, x));
        }
        assert(valid_entry_name(nmv));
    }
    Some(string_from_chars(&name))
}

/// One regular file the walk saw: its path in string form and its size in
/// bytes as read from its metadata.
#[derive(Clone, Debug)]
pub struct CandidateFile {
    pub path: String,
    pub size: u64,
}

/// An input unit to be archived: where it lies on disk, its size, and the
/// name it carries inside the archive.
#[derive(Debug)]
pub struct FileEntry {
    pub source_path: String,
    pub size: u64,
    pub path_in_archive: String,
}

/// The mathematical shadow of a [`FileEntry`].
pub ghost struct EntryView {
    pub source_path: Seq<char>,
    pub size: u64,
    pub path_in_archive: Seq<char>,
}

impl View for FileEntry {
    type V = EntryView;

    open spec fn view(&self) -> EntryView {
        EntryView {
            source_path: self.source_path@,
            size: self.size,
            path_in_archive: self.path_in_archive@,
        }
    }
}

/// The views of a sequence of entries.
pub open spec fn views_of(s: Seq<FileEntry>) -> Seq<EntryView> {
    s.map_values(|e: FileEntry| e@)
}

/// A file is eligible exactly when its path matches the include set, does
/// not match the exclude set, and its size is within the cap if one is set.
pub open spec fn spec_eligible(
    include_set: PatternSet,
    exclude_set: PatternSet,
    max_size: Option<u64>,
    path: Seq<char>,
    size: u64,
) -> bool {
    &&& pattern_set_matches(include_set, path)
    &&& !pattern_set_matches(exclude_set, path)
    &&& (max_size matches Some(cap) ==> size <= cap)
}

/// Decides eligibility of one file; the caller reads the size from the
/// file's metadata, never its content.
pub fn is_file_valid(
    path: &str,
    include_set: &PatternSet,
    exclude_set: &PatternSet,
    max_size: Option<u64>,
    size: u64,
) -> (r: bool)
    ensures
        r == spec_eligible(*include_set, *exclude_set, max_size, path@, size),
{
    if !include_set.matches(path) {
        return false;
    }
    if exclude_set.matches(path) {
        return false;
    }
    match max_size {
        Some(cap) => size <= cap,
        None => true,
    }
}

/// Whether a candidate survives selection: it is eligible and a
/// path-within-archive can be computed for it.
pub open spec fn spec_keep(
    include_set: PatternSet,
    exclude_set: PatternSet,
    max_size: Option<u64>,
    root: Seq<char>,
    c: CandidateFile,
) -> bool {
    &&& spec_eligible(include_set, exclude_set, max_size, c.path@, c.size)
    &&& spec_archive_name(root, c.path@) is Some
}

/// The entry a surviving candidate turns into.
pub open spec fn spec_entry_of(root: Seq<char>, c: CandidateFile) -> EntryView {
    EntryView {
        source_path: c.path@,
        size: c.size,
        path_in_archive: spec_archive_name(root, c.path@).unwrap(),
    }
}

/// The surviving candidates, in input order.
pub open spec fn spec_gather(
    cands: Seq<CandidateFile>,
    include_set: PatternSet,
    exclude_set: PatternSet,
    max_size: Option<u64>,
    root: Seq<char>,
) -> Seq<EntryView>
    decreases cands.len(),
{
    if cands.len() == 0 {
        Seq::empty()
    } else {
        let rest = spec_gather(cands.drop_last(), include_set, exclude_set, max_size, root);
        if spec_keep(include_set, exclude_set, max_size, root, cands.last()) {
            rest.push(spec_entry_of(root, cands.last()))
        } else {
            rest
        }
    }
}

/// The total size of a sequence of entries.
pub open spec fn spec_size_sum(s: Seq<EntryView>) -> int
    decreases s.len(),
{
    if s.len() == 0 {
        0
    } else {
        spec_size_sum(s.drop_last()) + s.last().size
    }
}

/// The total size of a sequence of candidates.
pub open spec fn spec_cand_size_sum(s: Seq<CandidateFile>) -> int
    decreases s.len(),
{
    if s.len() == 0 {
        0
    } else {
        spec_cand_size_sum(s.drop_last()) + s.last().size
    }
}

proof fn lemma_size_sum_nonneg(s: Seq<EntryView>)
    ensures
        spec_size_sum(s) >= 0,
    decreases s.len(),
{
    if s.len() > 0 {
        lemma_size_sum_nonneg(s.drop_last());
    }
}

proof fn lemma_cand_sum_prefix(s: Seq<CandidateFile>, i: int)
    requires
        0 <= i <= s.len(),
    ensures
        spec_cand_size_sum(s.take(i)) <= spec_cand_size_sum(s),
    decreases s.len(),
{
    if i == s.len() {
        assert(s.take(i) =~= s);
    } else {
        assert(s.drop_last() =~= s.take(s.len() - 1));
        assert(s.take(i) =~= s.drop_last().take(i));
        lemma_cand_sum_prefix(s.drop_last(), i);
    }
}

proof fn lemma_gather_sum(
    cands: Seq<CandidateFile>,
    include_set: PatternSet,
    exclude_set: PatternSet,
    max_size: Option<u64>,
    root: Seq<char>,
)
    ensures
        0 <= spec_size_sum(spec_gather(cands, include_set, exclude_set, max_size, root))
            <= spec_cand_size_sum(cands),
    decreases cands.len(),
{
    if cands.len() == 0 {
    } else {
        lemma_gather_sum(cands.drop_last(), include_set, exclude_set, max_size, root);
        let rest = spec_gather(cands.drop_last(), include_set, exclude_set, max_size, root);
        lemma_size_sum_nonneg(rest);
        if spec_keep(include_set, exclude_set, max_size, root, cands.last()) {
            let whole = rest.push(spec_entry_of(root, cands.last()));
            assert(whole.drop_last() =~= rest);
        }
    }
}

/// Order on entries: by path-within-archive.
pub open spec fn entry_le(a: EntryView, b: EntryView) -> bool {
    lex_le(a.path_in_archive, b.path_in_archive)
}

/// Inserts an entry into a sorted sequence, after every entry that compares
/// less-or-equal, so that entries with equal names keep their input order.
pub open spec fn spec_insert_sorted(s: Seq<EntryView>, e: EntryView) -> Seq<EntryView>
    decreases s.len(),
{
    if s.len() == 0 {
        seq![e]
    } else if entry_le(s[0], e) {
        seq![s[0]] + spec_insert_sorted(s.skip(1), e)
    } else {
        seq![e] + s
    }
}

/// Stable insertion sort of entries by path-within-archive.
pub open spec fn spec_sort_entries(s: Seq<EntryView>) -> Seq<EntryView>
    decreases s.len(),
{
    if s.len() == 0 {
        Seq::empty()
    } else {
        spec_insert_sorted(spec_sort_entries(s.drop_last()), s.last())
    }
}

/// Everything the selector decides, as one function of its inputs: the
/// surviving candidates in input order, stably sorted by
/// path-within-archive.
pub open spec fn spec_select(
    cands: Seq<CandidateFile>,
    include_set: PatternSet,
    exclude_set: PatternSet,
    max_size: Option<u64>,
    root: Seq<char>,
) -> Seq<EntryView> {
    spec_sort_entries(spec_gather(cands, include_set, exclude_set, max_size, root))
}

proof fn lemma_insert_sorted_at(s: Seq<EntryView>, e: EntryView, pos: int)
    requires
        0 <= pos <= s.len(),
        forall|k: int| 0 <= k < pos ==> entry_le(s[k], e),
        pos < s.len() ==> !entry_le(s[pos], e),
    ensures
        spec_insert_sorted(s, e) == s.take(pos) + seq![e] + s.skip(pos),
    decreases s.len(),
{
    if s.len() == 0 {
        assert(spec_insert_sorted(s, e) =~= s.take(0) + seq![e] + s.skip(0));
    } else if pos == 0 {
        assert(!entry_le(s[0], e));
        assert(spec_insert_sorted(s, e) =~= s.take(0) + seq![e] + s.skip(0));
    } else {
        assert(entry_le(s[0], e));
        let tail = s.skip(1);
        assert(forall|k: int| 0 <= k < pos - 1 ==> tail[k] == s[k + 1]);
        lemma_insert_sorted_at(tail, e, pos - 1);
        assert(spec_insert_sorted(s, e) == seq![s[0]] + (tail.take(pos - 1) + seq![e] + tail.skip(
            pos - 1,
        )));
        assert(seq![s[0]] + (tail.take(pos - 1) + seq![e] + tail.skip(pos - 1)) =~= s.take(pos)
            + seq![e] + s.skip(pos));
    }
}

/// Inserts an entry into an already sorted vector, keeping it sorted.
fn insert_entry(out: &mut Vec<FileEntry>, e: FileEntry)
    ensures
        views_of(final(out)@) == spec_insert_sorted(views_of(old(out)@), e@),
{
    let ghost s = views_of(out@);
    let mut pos: usize = 0;
    while pos < out.len() && str_le(out[pos].path_in_archive.as_str(), e.path_in_archive.as_str())
        invariant
            pos <= out@.len(),
            s == views_of(out@),
            forall|k: int| 0 <= k < pos ==> entry_le(s[k], e@),
        decreases out@.len() - pos,
    {
        pos = pos + 1;
    }
    proof {
        lemma_insert_sorted_at(s, e@, pos as int);
    }
    out.insert(pos, e);
    proof {
        assert(views_of(out@) =~= s.take(pos as int) + seq![e@] + s.skip(pos as int));
    }
}

/// What selection can reject.
#[derive(Clone, Copy, PartialEq, Eq, Structural, Debug)]
pub enum SelectionError {
    /// Whole-tree mode found no file that qualifies.
    NoEligibleFiles,
}

/// Applies selection criteria to the candidates a walk produced.
pub struct FileCollector {
    pub include_set: PatternSet,
    pub exclude_set: PatternSet,
    /// Size cap in bytes.
    pub max_size: Option<u64>,
    pub no_progress: bool,
}

impl FileCollector {
    /// Builds a collector from compiled pattern sets and the optional size
    /// cap.
    pub fn new(
        include_set: PatternSet,
        exclude_set: PatternSet,
        max_size: Option<u64>,
        no_progress: bool,
    ) -> (r: FileCollector)
        ensures
            r.include_set == include_set,
            r.exclude_set == exclude_set,
            r.max_size == max_size,
            r.no_progress == no_progress,
    {
        FileCollector { include_set, exclude_set, max_size, no_progress }
    }

    /// One pass over the candidates: keeps the eligible ones, in input
    /// order, together with their total size.
    fn gather_entries(&self, root: &str, cands: &Vec<CandidateFile>) -> (r: (Vec<FileEntry>, u64))
        requires
            spec_cand_size_sum(cands@) <= u64::MAX,
        ensures
            views_of(r.0@) == spec_gather(
                cands@,
                self.include_set,
                self.exclude_set,
                self.max_size,
                root@,
            ),
            r.1 as int == spec_size_sum(
                spec_gather(cands@, self.include_set, self.exclude_set, self.max_size, root@),
            ),
    {
        let mut out: Vec<FileEntry> = Vec::new();
        let mut total: u64 = 0;
        let mut i: usize = 0;
        proof {
            assert(cands@.take(0) =~= Seq::<CandidateFile>::empty());
        }
        while i < cands.len()
            invariant
                i <= cands@.len(),
                spec_cand_size_sum(cands@) <= u64::MAX,
                views_of(out@) == spec_gather(
                    cands@.take(i as int),
                    self.include_set,
                    self.exclude_set,
                    self.max_size,
                    root@,
                ),
                total as int == spec_size_sum(views_of(out@)),
            decreases cands.len() - i,
        {
            let ghost pre = cands@.take(i as int);
            let ghost post = cands@.take(i + 1 as int);
            proof {
                assert(post.drop_last() =~= pre);
                assert(post.last() == cands@[i as int]);
                lemma_gather_sum(post, self.include_set, self.exclude_set, self.max_size, root@);
                lemma_cand_sum_prefix(cands@, i + 1 as int);
            }
            let c = &cands[i];
            if is_file_valid(c.path.as_str(), &self.include_set, &self.exclude_set, self.max_size, c.size) {
                match archive_name_of(root, c.path.as_str()) {
                    Some(nm) => {
                        let fe = FileEntry {
                            source_path: c.path.clone(),
                            size: c.size,
                            path_in_archive: nm,
                        };
                        let ghost old_out = views_of(out@);
                        out.push(fe);
                        proof {
                            assert(views_of(out@) =~= old_out.push(fe@));
                            assert(views_of(out@).drop_last() =~= old_out);
                        }
                        total = total + c.size;
                    },
                    None => {},
                }
            }
            i = i + 1;
        }
        proof {
            assert(cands@.take(cands@.len() as int) =~= cands@);
        }
        (out, total)
    }

    /// Stable insertion sort by path-within-archive.
    fn sort_entries(&self, entries: Vec<FileEntry>) -> (r: Vec<FileEntry>)
        ensures
            views_of(r@) == spec_sort_entries(views_of(entries@)),
    {
        let ghost orig = views_of(entries@);
        let mut v = entries;
        let mut out: Vec<FileEntry> = Vec::new();
        proof {
            assert(orig.take(0) =~= Seq::<EntryView>::empty());
        }
        let ghost done: int = 0;
        while v.len() > 0
            invariant
                0 <= done <= orig.len(),
                orig.len() - done == v@.len(),
                views_of(v@) =~= orig.skip(done),
                views_of(out@) == spec_sort_entries(orig.take(done)),
            decreases v.len(),
        {
            let e = v.remove(0);
            proof {
                assert(views_of(v@) =~= orig.skip(done).skip(1));
                assert(orig.skip(done).skip(1) =~= orig.skip(done + 1));
                assert(e@ == orig.skip(done)[0]);
                assert(orig[done] == orig.skip(done)[0]);
            }
            insert_entry(&mut out, e);
            proof {
                assert(orig.take(done + 1).drop_last() =~= orig.take(done));
                assert(orig.take(done + 1).last() == orig[done]);
                done = done + 1;
            }
        }
        proof {
            assert(orig.take(done) =~= orig);
        }
        out
    }

    /// Selects the files to archive: eligible candidates, each under its
    /// path-within-archive, stably sorted by that name.  An empty outcome is
    /// not an error here; per-file conversion simply has nothing to do.
    pub fn collect_files(&self, input_path: &str, candidates: &Vec<CandidateFile>) -> (r: Vec<
        FileEntry,
    >)
        requires
            spec_cand_size_sum(candidates@) <= u64::MAX,
        ensures
            views_of(r@) == spec_select(
                candidates@,
                self.include_set,
                self.exclude_set,
                self.max_size,
                input_path@,
            ),
    {
        let (entries, _total) = self.gather_entries(input_path, candidates);
        self.sort_entries(entries)
    }

    /// Selects the files to archive and measures their total size.  In
    /// whole-tree mode an empty outcome is an error: there is nothing to
    /// compress.
    pub fn collect_and_measure_files(&self, input_path: &str, candidates: &Vec<CandidateFile>) -> (r:
        Result<(Vec<FileEntry>, u64), SelectionError>)
        requires
            spec_cand_size_sum(candidates@) <= u64::MAX,
        ensures
            r matches Ok(p) ==> ({
                &&& views_of(p.0@) == spec_select(
                    candidates@,
                    self.include_set,
                    self.exclude_set,
                    self.max_size,
                    input_path@,
                )
                &&& p.1 as int == spec_size_sum(
                    spec_gather(
                        candidates@,
                        self.include_set,
                        self.exclude_set,
                        self.max_size,
                        input_path@,
                    ),
                )
                &&& p.0@.len() > 0
            }),
            (r is Err) <==> spec_gather(
                candidates@,
                self.include_set,
                self.exclude_set,
                self.max_size,
                input_path@,
            ).len() == 0,
            r is Err ==> r == Err::<(Vec<FileEntry>, u64), SelectionError>(
                SelectionError::NoEligibleFiles,
            ),
    {
        let (entries, total) = self.gather_entries(input_path, candidates);
        if entries.len() == 0 {
            return Err(SelectionError::NoEligibleFiles);
        }
        let sorted = self.sort_entries(entries);
        proof {
            lemma_sort_entries_multiset(
                spec_gather(
                    candidates@,
                    self.include_set,
                    self.exclude_set,
                    self.max_size,
                    input_path@,
                ),
            );
        }
        Ok((sorted, total))
    }
}

/// Selects files without measuring; the free-standing form of
/// [`FileCollector::collect_files`].
pub fn collect_files(
    input_path: &str,
    candidates: &Vec<CandidateFile>,
    include_set: PatternSet,
    exclude_set: PatternSet,
    max_size: Option<u64>,
    no_progress: bool,
) -> (r: Vec<FileEntry>)
    requires
        spec_cand_size_sum(candidates@) <= u64::MAX,
    ensures
        views_of(r@) == spec_select(candidates@, include_set, exclude_set, max_size, input_path@),
{
    let collector = FileCollector { include_set, exclude_set, max_size, no_progress };
    collector.collect_files(input_path, candidates)
}

/// Selects files and measures their total size; the free-standing form of
/// [`FileCollector::collect_and_measure_files`].
pub fn collect_and_measure_files(
    input_path: &str,
    candidates: &Vec<CandidateFile>,
    include_set: PatternSet,
    exclude_set: PatternSet,
    max_size: Option<u64>,
    no_progress: bool,
) -> (r: Result<(Vec<FileEntry>, u64), SelectionError>)
    requires
        spec_cand_size_sum(candidates@) <= u64::MAX,
    ensures
        r matches Ok(p) ==> ({
            &&& views_of(p.0@) == spec_select(
                candidates@,
                include_set,
                exclude_set,
                max_size,
                input_path@,
            )
            &&& p.1 as int == spec_size_sum(
                spec_gather(candidates@, include_set, exclude_set, max_size, input_path@),
            )
            &&& p.0@.len() > 0
        }),
        (r is Err) <==> spec_gather(
            candidates@,
            include_set,
            exclude_set,
            max_size,
            input_path@,
        ).len() == 0,
        r is Err ==> r == Err::<(Vec<FileEntry>, u64), SelectionError>(
            SelectionError::NoEligibleFiles,
        ),
{
    let collector = FileCollector { include_set, exclude_set, max_size, no_progress };
    collector.collect_and_measure_files(input_path, candidates)
}

proof fn lemma_insert_sorted_multiset(s: Seq<EntryView>, e: EntryView)
    ensures
        spec_insert_sorted(s, e).to_multiset() =~= s.to_multiset().insert(e),
    decreases s.len(),
{
    broadcast use vstd::seq_lib::group_to_multiset_ensures;

    if s.len() == 0 {
        assert(spec_insert_sorted(s, e) =~= s.push(e));
    } else if entry_le(s[0], e) {
        let tail = s.skip(1);
        lemma_insert_sorted_multiset(tail, e);
        vstd::seq_lib::lemma_multiset_commutative(seq![s[0]], spec_insert_sorted(tail, e));
        vstd::seq_lib::lemma_multiset_commutative(seq![s[0]], tail);
        assert(s =~= seq![s[0]] + tail);
    } else {
        vstd::seq_lib::lemma_multiset_commutative(seq![e], s);
        assert(seq![e].to_multiset() =~= Seq::<EntryView>::empty().push(e).to_multiset());
        assert(Seq::<EntryView>::empty().push(e).to_multiset() =~= Multiset::<
            EntryView,
        >::empty().insert(e));
    }
}

proof fn lemma_sort_entries_multiset(s: Seq<EntryView>)
    ensures
        spec_sort_entries(s).to_multiset() =~= s.to_multiset(),
        spec_sort_entries(s).len() == s.len(),
    decreases s.len(),
{
    broadcast use vstd::seq_lib::group_to_multiset_ensures;

    if s.len() > 0 {
        let pre = s.drop_last();
        lemma_sort_entries_multiset(pre);
        lemma_insert_sorted_multiset(spec_sort_entries(pre), s.last());
        assert(s =~= pre.push(s.last()));
    }
    assert(spec_sort_entries(s).to_multiset().len() == spec_sort_entries(s).len());
    assert(s.to_multiset().len() == s.len());
    assert(spec_sort_entries(s).to_multiset() =~= s.to_multiset());
}

proof fn lemma_gather_membership(
    cands: Seq<CandidateFile>,
    include_set: PatternSet,
    exclude_set: PatternSet,
    max_size: Option<u64>,
    root: Seq<char>,
    ev: EntryView,
)
    ensures
        spec_gather(cands, include_set, exclude_set, max_size, root).contains(ev) <==> (exists|
            j: int,
        |
            0 <= j < cands.len() && spec_keep(include_set, exclude_set, max_size, root, #[trigger] cands[j])
                && ev == spec_entry_of(root, cands[j])),
    decreases cands.len(),
{
    if cands.len() == 0 {
    } else {
        let pre = cands.drop_last();
        lemma_gather_membership(pre, include_set, exclude_set, max_size, root, ev);
        let g = spec_gather(pre, include_set, exclude_set, max_size, root);
        let whole = spec_gather(cands, include_set, exclude_set, max_size, root);
        let last = cands.last();
        assert(forall|j: int| 0 <= j < pre.len() ==> pre[j] == cands[j]);
        if spec_keep(include_set, exclude_set, max_size, root, last) {
            let le = spec_entry_of(root, last);
            assert(whole == g.push(le));
            assert(whole.contains(ev) <==> (g.contains(ev) || ev == le)) by {
                if whole.contains(ev) {
                    let idx = choose|idx: int| 0 <= idx < whole.len() && whole[idx] == ev;
                    if idx < g.len() {
                        assert(g[idx] == ev);
                    } else {
                        assert(ev == le);
                    }
                }
                if g.contains(ev) {
                    let idx = choose|idx: int| 0 <= idx < g.len() && g[idx] == ev;
                    assert(whole[idx] == ev);
                }
                if ev == le {
                    assert(whole[g.len() as int] == ev);
                }
            }
            if g.contains(ev) {
                let j = choose|j: int|
                    0 <= j < pre.len() && spec_keep(include_set, exclude_set, max_size, root, pre[j])
                        && ev == spec_entry_of(root, pre[j]);
                assert(cands[j] == pre[j]);
            }
            if ev == le {
                assert(spec_keep(include_set, exclude_set, max_size, root, cands[cands.len() - 1])
                    && ev == spec_entry_of(root, cands[cands.len() - 1]));
            }
            if exists|j: int|
                0 <= j < cands.len() && spec_keep(include_set, exclude_set, max_size, root, #[trigger] cands[j])
                    && ev == spec_entry_of(root, cands[j]) {
                let j = choose|j: int|
                    0 <= j < cands.len() && spec_keep(include_set, exclude_set, max_size, root, cands[j])
                        && ev == spec_entry_of(root, cands[j]);
                if j < pre.len() {
                    assert(pre[j] == cands[j]);
                } else {
                    assert(cands[j] == last);
                }
            }
        } else {
            assert(whole == g);
            if g.contains(ev) {
                let j = choose|j: int|
                    0 <= j < pre.len() && spec_keep(include_set, exclude_set, max_size, root, pre[j])
                        && ev == spec_entry_of(root, pre[j]);
                assert(cands[j] == pre[j]);
            }
            if exists|j: int|
                0 <= j < cands.len() && spec_keep(include_set, exclude_set, max_size, root, #[trigger] cands[j])
                    && ev == spec_entry_of(root, cands[j]) {
                let j = choose|j: int|
                    0 <= j < cands.len() && spec_keep(include_set, exclude_set, max_size, root, cands[j])
                        && ev == spec_entry_of(root, cands[j]);
                if j < pre.len() {
                    assert(pre[j] == cands[j]);
                } else {
                    assert(cands[j] == last);
                    assert(!spec_keep(include_set, exclude_set, max_size, root, cands[j]));
                }
            }
        }
    }
}

/// Filter correctness: a candidate's entry stands in the selection exactly
/// when its path matches at least one include pattern, matches no exclude
/// pattern, and its size is within the cap if one is set.
pub proof fn lemma_filter_correctness(
    cands: Seq<CandidateFile>,
    include_set: PatternSet,
    exclude_set: PatternSet,
    max_size: Option<u64>,
    root: Seq<char>,
    i: int,
)
    requires
        0 <= i < cands.len(),
        spec_archive_name(root, cands[i].path@) is Some,
    ensures
        spec_select(cands, include_set, exclude_set, max_size, root).contains(
            spec_entry_of(root, cands[i]),
        ) <==> spec_eligible(include_set, exclude_set, max_size, cands[i].path@, cands[i].size),
{
    broadcast use vstd::seq_lib::group_to_multiset_ensures;

    let ev = spec_entry_of(root, cands[i]);
    let g = spec_gather(cands, include_set, exclude_set, max_size, root);
    let sel = spec_select(cands, include_set, exclude_set, max_size, root);
    lemma_sort_entries_multiset(g);
    assert(sel.contains(ev) <==> g.contains(ev)) by {
        assert(sel.to_multiset().count(ev) == g.to_multiset().count(ev));
    }
    lemma_gather_membership(cands, include_set, exclude_set, max_size, root, ev);
    if g.contains(ev) {
        let j = choose|j: int|
            0 <= j < cands.len() && spec_keep(include_set, exclude_set, max_size, root, cands[j])
                && ev == spec_entry_of(root, cands[j]);
        assert(cands[j].path@ == cands[i].path@);
        assert(cands[j].size == cands[i].size);
    }
    if spec_eligible(include_set, exclude_set, max_size, cands[i].path@, cands[i].size) {
        assert(spec_keep(include_set, exclude_set, max_size, root, cands[i]) && ev
            == spec_entry_of(root, cands[i]));
    }
}

/// Determinism: the selection outcome is a function of the candidate list
/// and the criteria alone, so two independent runs over the same input tree
/// produce the same ordered entry list.
pub proof fn lemma_selection_deterministic(
    c1: Seq<CandidateFile>,
    c2: Seq<CandidateFile>,
    include_set: PatternSet,
    exclude_set: PatternSet,
    max_size: Option<u64>,
    root: Seq<char>,
)
    requires
        c1 == c2,
    ensures
        spec_select(c1, include_set, exclude_set, max_size, root) == spec_select(
            c2,
            include_set,
            exclude_set,
            max_size,
            root,
        ),
{
}


/// Everything one selection run consumes.
#[derive(Debug)]
pub struct FileCollectInput {
    pub input_path: String,
    pub include_patterns: Vec<String>,
    pub exclude_patterns: Option<Vec<String>>,
    /// Size cap in bytes.
    pub max_size: Option<u64>,
    pub no_progress: bool,
}

/// Everything one selection run produces: the chosen entries and their
/// total size in bytes.
#[derive(Debug)]
pub struct FileCollectOutput {
    pub files: Vec<FileEntry>,
    pub total_size: u64,
}


/// Entries stand in order of their path-within-archive.
pub open spec fn spec_entries_sorted(s: Seq<EntryView>) -> bool {
    forall|i: int, j: int| 0 <= i < j < s.len() ==> entry_le(#[trigger] s[i], #[trigger] s[j])
}

proof fn lemma_insert_sorted_membership(s: Seq<EntryView>, e: EntryView, k: int)
    requires
        0 <= k < spec_insert_sorted(s, e).len(),
    ensures
        spec_insert_sorted(s, e)[k] == e || s.contains(spec_insert_sorted(s, e)[k]),
    decreases s.len(),
{
    let out = spec_insert_sorted(s, e);
    if s.len() == 0 {
    } else if entry_le(s[0], e) {
        let ins = spec_insert_sorted(s.skip(1), e);
        if k == 0 {
            assert(out[0] == s[0]);
            assert(s.contains(s[0]));
        } else {
            assert(out[k] == ins[k - 1]);
            lemma_insert_sorted_membership(s.skip(1), e, k - 1);
            if s.skip(1).contains(ins[k - 1]) {
                let m = choose|m: int| 0 <= m < s.skip(1).len() && s.skip(1)[m] == ins[k - 1];
                assert(s[m + 1] == ins[k - 1]);
                assert(s.contains(s[m + 1]));
            }
        }
    } else {
        if k > 0 {
            assert(out[k] == s[k - 1]);
            assert(s.contains(s[k - 1]));
        }
    }
}

proof fn lemma_insert_sorted_preserves(s: Seq<EntryView>, e: EntryView)
    requires
        spec_entries_sorted(s),
    ensures
        spec_entries_sorted(spec_insert_sorted(s, e)),
    decreases s.len(),
{
    let out = spec_insert_sorted(s, e);
    if s.len() == 0 {
    } else if entry_le(s[0], e) {
        let tail = s.skip(1);
        let ins = spec_insert_sorted(tail, e);
        assert(spec_entries_sorted(tail)) by {
            assert(forall|i: int, j: int|
                0 <= i < j < tail.len() ==> tail[i] == s[i + 1] && tail[j] == s[j + 1]);
        }
        lemma_insert_sorted_preserves(tail, e);
        assert forall|i: int, j: int| 0 <= i < j < out.len() implies entry_le(
            #[trigger] out[i],
            #[trigger] out[j],
        ) by {
            if i == 0 {
                assert(out[0] == s[0]);
                assert(out[j] == ins[j - 1]);
                lemma_insert_sorted_membership(tail, e, j - 1);
                if ins[j - 1] == e {
                } else {
                    let m = choose|m: int| 0 <= m < tail.len() && tail[m] == ins[j - 1];
                    assert(tail[m] == s[m + 1]);
                    assert(entry_le(s[0], s[m + 1]));
                }
            } else {
                assert(out[i] == ins[i - 1]);
                assert(out[j] == ins[j - 1]);
            }
        }
    } else {
        lemma_lex_le_total(s[0].path_in_archive, e.path_in_archive);
        assert(entry_le(e, s[0]));
        assert forall|i: int, j: int| 0 <= i < j < out.len() implies entry_le(
            #[trigger] out[i],
            #[trigger] out[j],
        ) by {
            if i == 0 {
                assert(out[0] == e);
                assert(out[j] == s[j - 1]);
                if j == 1 {
                    assert(entry_le(out[i], out[j]));
                } else {
                    assert(entry_le(s[0], s[j - 1]));
                    lemma_lex_le_trans(
                        e.path_in_archive,
                        s[0].path_in_archive,
                        s[j - 1].path_in_archive,
                    );
                }
            } else {
                assert(out[i] == s[i - 1]);
                assert(out[j] == s[j - 1]);
            }
        }
    }
}

proof fn lemma_sort_entries_sorted(s: Seq<EntryView>)
    ensures
        spec_entries_sorted(spec_sort_entries(s)),
    decreases s.len(),
{
    if s.len() > 0 {
        lemma_sort_entries_sorted(s.drop_last());
        lemma_insert_sorted_preserves(spec_sort_entries(s.drop_last()), s.last());
    }
}

/// The selector's outcome is sorted by path-within-archive: the mandated
/// stable sort really orders the entry list it hands to the encoder.
pub proof fn lemma_selection_sorted(
    cands: Seq<CandidateFile>,
    include_set: PatternSet,
    exclude_set: PatternSet,
    max_size: Option<u64>,
    root: Seq<char>,
)
    ensures
        spec_entries_sorted(spec_select(cands, include_set, exclude_set, max_size, root)),
{
    lemma_sort_entries_sorted(spec_gather(cands, include_set, exclude_set, max_size, root));
}

} // verus!
