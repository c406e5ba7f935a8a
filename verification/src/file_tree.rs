//! The file-tree sidebar: the entries of a directory listing, the order in
//! which they are shown, and the name shown for a directory.
use vstd::prelude::*;
use vstd::string::*;
use crate::platform::HostOs;
use crate::text::{chars_of, lowercase_chars, split_chars, string_from_chars, string_of};

verus! {

/// A single entry (file or directory) of a directory listing.
#[derive(Clone, Debug, PartialEq, Eq)]
pub struct FileEntry {
    /// The entry's file name (the last path component).
    pub name: String,
    /// The full path to the entry.
    pub path: String,
    /// Whether this entry is a directory (as opposed to a regular file).
    pub is_dir: bool,
}

// ---------------------------------------------------------------------------
// Display name
// ---------------------------------------------------------------------------

/// `path` with every separator of `os` written as `/`.
pub open spec fn normalize_seps(os: HostOs, path: Seq<char>) -> Seq<char> {
    Seq::new(
        path.len(),
        |i: int|
            if crate::platform::is_path_sep(os, path[i]) {
                '/'
            } else {
                path[i]
            },
    )
}

/// The last component of a path split at its separators, skipping empty
/// components and, unless `verbatim`, `.` components: `None` when there is
/// none or it is `..` (or, in a verbatim path, `.`).
pub open spec fn last_component(segs: Seq<Seq<char>>, verbatim: bool) -> Option<Seq<char>>
    decreases segs.len(),
{
    if segs.len() == 0 {
        None
    } else {
        let s = segs.last();
        if s.len() == 0 || (s == "."@ && !verbatim) {
            last_component(segs.drop_last(), verbatim)
        } else if s == ".."@ || s == "."@ {
            None
        } else {
            Some(s)
        }
    }
}

/// A separator of a Windows path: `\`, and `/` too unless the path is
/// verbatim.
pub open spec fn is_win_sep(c: char, verbatim: bool) -> bool {
    c == '\\' || (!verbatim && c == '/')
}

/// An ASCII letter, as a drive letter must be.
pub open spec fn is_drive_letter(c: char) -> bool {
    ('a' <= c && c <= 'z') || ('A' <= c && c <= 'Z')
}

/// The index of the first separator of `p` at or after `i`, or `p.len()`.
pub open spec fn sep_from(p: Seq<char>, i: int, verbatim: bool) -> int
    decreases p.len() - i,
{
    if i >= p.len() {
        p.len() as int
    } else if is_win_sep(p[i], verbatim) {
        i
    } else {
        sep_from(p, i + 1, verbatim)
    }
}

/// A Windows path is verbatim when it starts with `\\?\`; in it only `\`
/// separates components.
pub open spec fn is_verbatim(p: Seq<char>) -> bool {
    p.len() >= 4 && p[0] == '\\' && p[1] == '\\' && p[2] == '?' && p[3] == '\\'
}

/// The length of the prefix of a Windows path, 0 when it has none:
/// `\\?\UNC\server\share`, `\\?\C:`, `\\?\name` (verbatim prefixes),
/// `\\.\device`, `\\server\share` (server and share both non-empty) and a
/// drive `C:`.
pub open spec fn win_prefix_len(p: Seq<char>) -> int {
    if p.len() >= 2 && is_win_sep(p[0], false) && is_win_sep(p[1], false) {
        if is_verbatim(p) {
            if p.len() >= 8 && p[4] == 'U' && p[5] == 'N' && p[6] == 'C' && is_win_sep(
                p[7],
                false,
            ) {
                let server_end = sep_from(p, 8, true);
                if server_end >= p.len() {
                    p.len() as int
                } else {
                    let share_end = sep_from(p, server_end + 1, true);
                    if share_end > server_end + 1 {
                        share_end
                    } else {
                        server_end
                    }
                }
            } else if p.len() >= 6 && is_drive_letter(p[4]) && p[5] == ':' && (p.len() == 6 || p[6]
                == '\\') {
                6
            } else {
                sep_from(p, 4, true)
            }
        } else if p.len() >= 4 && p[2] == '.' && is_win_sep(p[3], false) {
            sep_from(p, 4, false)
        } else {
            let server_end = sep_from(p, 2, false);
            if server_end > 2 && server_end < p.len() {
                let share_end = sep_from(p, server_end + 1, false);
                if share_end > server_end + 1 {
                    share_end
                } else {
                    0
                }
            } else {
                0
            }
        }
    } else if p.len() >= 2 && is_drive_letter(p[0]) && p[1] == ':' {
        2
    } else {
        0
    }
}

/// `sep_from` lies between `i` and the length of `p`.
proof fn lemma_sep_from_bounds(p: Seq<char>, i: int, verbatim: bool)
    requires
        0 <= i <= p.len(),
    ensures
        i <= sep_from(p, i, verbatim) <= p.len(),
    decreases p.len() - i,
{
    if i < p.len() && !is_win_sep(p[i], verbatim) {
        lemma_sep_from_bounds(p, i + 1, verbatim);
    }
}

/// The prefix of a Windows path lies within the path.
proof fn lemma_win_prefix_len_bounds(p: Seq<char>)
    ensures
        0 <= win_prefix_len(p) <= p.len(),
{
    if p.len() >= 8 {
        lemma_sep_from_bounds(p, 8, true);
        let e = sep_from(p, 8, true);
        if e < p.len() {
            lemma_sep_from_bounds(p, e + 1, true);
        }
    }
    if p.len() >= 4 {
        lemma_sep_from_bounds(p, 4, true);
        lemma_sep_from_bounds(p, 4, false);
    }
    if p.len() >= 2 {
        lemma_sep_from_bounds(p, 2, false);
        let e = sep_from(p, 2, false);
        if e < p.len() {
            lemma_sep_from_bounds(p, e + 1, false);
        }
    }
}

/// The length of the prefix of `path` on `os` (only Windows paths have one).
pub open spec fn prefix_len(os: HostOs, path: Seq<char>) -> int {
    if os == HostOs::Windows {
        win_prefix_len(path)
    } else {
        0
    }
}

/// Whether `path` is a verbatim path on `os`.
pub open spec fn verbatim_path(os: HostOs, path: Seq<char>) -> bool {
    os == HostOs::Windows && is_verbatim(path)
}

/// The components of a path after its prefix, split at its separators.
pub open spec fn path_segments(os: HostOs, path: Seq<char>) -> Seq<Seq<char>> {
    let rest = path.subrange(prefix_len(os, path), path.len() as int);
    if verbatim_path(os, path) {
        crate::text::split_of(rest, '\\')
    } else {
        crate::text::split_of(normalize_seps(os, rest), '/')
    }
}

/// The file name of a path (`Path::file_name`): its last component when that
/// is a name, and nothing when the path ends in its prefix or root, or in
/// `..`.
pub open spec fn file_name_spec(os: HostOs, path: Seq<char>) -> Option<Seq<char>> {
    last_component(path_segments(os, path), verbatim_path(os, path))
}

/// The display name of a directory: its file name, or the whole path when it
/// has none (such as the root, a drive or a network share).
pub open spec fn display_name_spec(os: HostOs, path: Seq<char>) -> Seq<char> {
    match file_name_spec(os, path) {
        Some(n) => n,
        None => path,
    }
}

/// `path` with every separator of `os` written as `/`.
fn normalize_seps_exec(os: HostOs, path: &Vec<char>) -> (res: Vec<char>)
    ensures
        res@ == normalize_seps(os, path@),
{
    let mut res: Vec<char> = Vec::new();
    let n = path.len();
    for i in 0..n
        invariant
            n == path.len(),
            res@ == normalize_seps(os, path@).take(i as int),
    {
        let c = path[i];
        if c == '/' || (os == HostOs::Windows && c == '\\') {
            res.push('/');
        } else {
            res.push(c);
        }
        assert(normalize_seps(os, path@).take(i + 1) =~= normalize_seps(os, path@).take(
            i as int,
        ).push(normalize_seps(os, path@)[i as int]));
    }
    assert(normalize_seps(os, path@).take(n as int) =~= normalize_seps(os, path@));
    res
}

/// Whether `v` is exactly the string `s`.
fn chars_eq_str(v: &Vec<char>, s: &str) -> (res: bool)
    ensures
        res == (v@ == s@),
{
    let w = chars_of(s);
    if v.len() != w.len() {
        return false;
    }
    let n = v.len();
    for i in 0..n
        invariant
            n == v.len() == w.len(),
            w@ == s@,
            forall|k: int| 0 <= k < i ==> v@[k] == w@[k],
    {
        if v[i] != w[i] {
            return false;
        }
    }
    assert(v@ =~= w@);
    true
}

/// Whether `c` separates components of a Windows path.
fn is_win_sep_exec(c: char, verbatim: bool) -> (res: bool)
    ensures
        res == is_win_sep(c, verbatim),
{
    c == '\\' || (!verbatim && c == '/')
}

/// Whether `c` is an ASCII letter.
fn is_drive_letter_exec(c: char) -> (res: bool)
    ensures
        res == is_drive_letter(c),
{
    ('a' <= c && c <= 'z') || ('A' <= c && c <= 'Z')
}

/// The index of the first separator of `p` at or after `i`.
fn sep_from_exec(p: &Vec<char>, i: usize, verbatim: bool) -> (res: usize)
    requires
        i <= p.len(),
    ensures
        res == sep_from(p@, i as int, verbatim),
        i <= res <= p.len(),
{
    let mut j = i;
    while j < p.len()
        invariant
            i <= j <= p.len(),
            sep_from(p@, i as int, verbatim) == sep_from(p@, j as int, verbatim),
        decreases p.len() - j,
    {
        if is_win_sep_exec(p[j], verbatim) {
            return j;
        }
        j = j + 1;
    }
    j
}

/// Whether `p` starts with `\\?\`.
fn is_verbatim_exec(p: &Vec<char>) -> (res: bool)
    ensures
        res == is_verbatim(p@),
{
    p.len() >= 4 && p[0] == '\\' && p[1] == '\\' && p[2] == '?' && p[3] == '\\'
}

/// The length of the prefix of the Windows path `p`.
fn win_prefix_len_exec(p: &Vec<char>) -> (res: usize)
    ensures
        res == win_prefix_len(p@),
{
    let n = p.len();
    if n >= 2 && is_win_sep_exec(p[0], false) && is_win_sep_exec(p[1], false) {
        if is_verbatim_exec(p) {
            if n >= 8 && p[4] == 'U' && p[5] == 'N' && p[6] == 'C' && is_win_sep_exec(p[7], false) {
                let server_end = sep_from_exec(p, 8, true);
                if server_end >= n {
                    n
                } else {
                    let share_end = sep_from_exec(p, server_end + 1, true);
                    if share_end > server_end + 1 {
                        share_end
                    } else {
                        server_end
                    }
                }
            } else if n >= 6 && is_drive_letter_exec(p[4]) && p[5] == ':' && (n == 6 || p[6]
                == '\\') {
                6
            } else {
                sep_from_exec(p, 4, true)
            }
        } else if n >= 4 && p[2] == '.' && is_win_sep_exec(p[3], false) {
            sep_from_exec(p, 4, false)
        } else {
            let server_end = sep_from_exec(p, 2, false);
            if server_end > 2 && server_end < n {
                let share_end = sep_from_exec(p, server_end + 1, false);
                if share_end > server_end + 1 {
                    share_end
                } else {
                    0
                }
            } else {
                0
            }
        }
    } else if n >= 2 && is_drive_letter_exec(p[0]) && p[1] == ':' {
        2
    } else {
        0
    }
}

/// The file name of `path` on `os`.
fn file_name_exec(os: HostOs, path: &str) -> (res: Option<Vec<char>>)
    ensures
        match res {
            Some(n) => file_name_spec(os, path@) == Some(n@),
            None => file_name_spec(os, path@) is None,
        },
{
    let p = chars_of(path);
    let start = if os == HostOs::Windows {
        win_prefix_len_exec(&p)
    } else {
        0
    };
    proof {
        lemma_win_prefix_len_bounds(p@);
    }
    let rest = crate::text::sub_chars(&p, start, p.len());
    let verbatim = os == HostOs::Windows && is_verbatim_exec(&p);
    let segs = if verbatim {
        split_chars(&rest, '\\')
    } else {
        let norm = normalize_seps_exec(os, &rest);
        split_chars(&norm, '/')
    };
    let ghost rows = crate::text::char_rows(segs@);
    assert(rows =~= path_segments(os, path@));
    let mut k = segs.len();
    assert(rows.take(k as int) =~= rows);
    while k > 0
        invariant
            k <= segs@.len(),
            rows == crate::text::char_rows(segs@),
            verbatim == verbatim_path(os, path@),
            file_name_spec(os, path@) == last_component(rows.take(k as int), verbatim),
        decreases k,
    {
        let s = &segs[k - 1];
        assert(rows.take(k as int).last() == s@);
        assert(rows.take(k as int).drop_last() =~= rows.take(k - 1));
        let dot = chars_eq_str(s, ".");
        if s.len() == 0 || (dot && !verbatim) {
            k = k - 1;
        } else if dot || chars_eq_str(s, "..") {
            return None;
        } else {
            let mut out: Vec<char> = Vec::new();
            let m = s.len();
            for i in 0..m
                invariant
                    m == s.len(),
                    out@ == s@.take(i as int),
            {
                out.push(s[i]);
                assert(s@.take(i + 1) =~= s@.take(i as int).push(s@[i as int]));
            }
            assert(s@.take(m as int) =~= s@);
            return Some(out);
        }
    }
    None
}

/// The display name for a directory on `os`: its last path component, or the
/// full path when the path has no file name (e.g. the filesystem root).
pub fn display_name(os: HostOs, path: &str) -> (res: String)
    ensures
        res@ == display_name_spec(os, path@),
{
    match file_name_exec(os, path) {
        Some(n) => string_from_chars(&n),
        None => string_of(path),
    }
}

// ---------------------------------------------------------------------------
// Listing order
// ---------------------------------------------------------------------------

/// Lexicographic order of character sequences (the order of `String`).
pub open spec fn lex_le(a: Seq<char>, b: Seq<char>) -> bool
    decreases a.len(),
{
    if a.len() == 0 {
        true
    } else if b.len() == 0 {
        false
    } else if a[0] != b[0] {
        a[0] < b[0]
    } else {
        lex_le(a.drop_first(), b.drop_first())
    }
}

/// The order of the listing: directories before files, then by lower-cased
/// name.
pub open spec fn entry_le(a: FileEntry, b: FileEntry) -> bool {
    (a.is_dir && !b.is_dir) || (a.is_dir == b.is_dir && lex_le(
        crate::text::to_lower(a.name@),
        crate::text::to_lower(b.name@),
    ))
}

/// Two entries are ordered alike: same kind and same lower-cased name.
pub open spec fn same_rank(a: FileEntry, b: FileEntry) -> bool {
    a.is_dir == b.is_dir && crate::text::to_lower(a.name@) == crate::text::to_lower(b.name@)
}

/// `p` is a permutation of `0..n`.
pub open spec fn is_permutation(p: Seq<int>, n: nat) -> bool {
    &&& p.len() == n
    &&& forall|i: int| 0 <= i < n ==> 0 <= #[trigger] p[i] < n
    &&& forall|i: int, j: int| 0 <= i < j < n ==> #[trigger] p[i] != #[trigger] p[j]
}

/// `out` is `input` sorted stably by `entry_le`: `out[i]` is `input[p[i]]`
/// for a permutation `p`, `out` is in order, and entries of the same rank keep
/// their relative order.
pub open spec fn is_stable_sort_by(out: Seq<FileEntry>, input: Seq<FileEntry>, p: Seq<int>) -> bool {
    &&& is_permutation(p, input.len())
    &&& out.len() == input.len()
    &&& forall|i: int| 0 <= i < out.len() ==> #[trigger] out[i] == input[p[i]]
    &&& forall|i: int, j: int| 0 <= i < j < out.len() ==> entry_le(#[trigger] out[i], #[trigger] out[j])
    &&& forall|i: int, j: int|
        0 <= i < j < out.len() && same_rank(#[trigger] out[i], #[trigger] out[j]) ==> p[i] < p[j]
}

pub proof fn lemma_lex_total(a: Seq<char>, b: Seq<char>)
    ensures
        lex_le(a, b) || lex_le(b, a),
    decreases a.len(),
{
    if a.len() > 0 && b.len() > 0 && a[0] == b[0] {
        lemma_lex_total(a.drop_first(), b.drop_first());
    }
}

pub proof fn lemma_lex_trans(a: Seq<char>, b: Seq<char>, c: Seq<char>)
    requires
        lex_le(a, b),
        lex_le(b, c),
    ensures
        lex_le(a, c),
    decreases a.len(),
{
    if a.len() > 0 && b.len() > 0 && c.len() > 0 && a[0] == b[0] && b[0] == c[0] {
        lemma_lex_trans(a.drop_first(), b.drop_first(), c.drop_first());
    }
}

pub proof fn lemma_lex_antisym(a: Seq<char>, b: Seq<char>)
    requires
        lex_le(a, b),
        lex_le(b, a),
    ensures
        a == b,
    decreases a.len(),
{
    if a.len() > 0 && b.len() > 0 {
        lemma_lex_antisym(a.drop_first(), b.drop_first());
        assert(a =~= seq![a[0]] + a.drop_first());
        assert(b =~= seq![b[0]] + b.drop_first());
    }
}

pub proof fn lemma_entry_le_total(a: FileEntry, b: FileEntry)
    ensures
        entry_le(a, b) || entry_le(b, a),
{
    lemma_lex_total(crate::text::to_lower(a.name@), crate::text::to_lower(b.name@));
}

pub proof fn lemma_entry_le_trans(a: FileEntry, b: FileEntry, c: FileEntry)
    requires
        entry_le(a, b),
        entry_le(b, c),
    ensures
        entry_le(a, c),
{
    if a.is_dir == b.is_dir && b.is_dir == c.is_dir {
        lemma_lex_trans(
            crate::text::to_lower(a.name@),
            crate::text::to_lower(b.name@),
            crate::text::to_lower(c.name@),
        );
    }
}

/// The comparison key of an entry.
struct EntryKey {
    is_dir: bool,
    lower: Vec<char>,
}

fn key_of(e: &FileEntry) -> (res: EntryKey)
    ensures
        res.is_dir == e.is_dir,
        res.lower@ == crate::text::to_lower(e.name@),
{
    EntryKey { is_dir: e.is_dir, lower: lowercase_chars(e.name.as_str()) }
}

/// Whether `lex_le(a, b)`.
fn lex_le_exec(a: &Vec<char>, b: &Vec<char>) -> (res: bool)
    ensures
        res == lex_le(a@, b@),
{
    let mut i: usize = 0;
    assert(a@.skip(0) =~= a@);
    assert(b@.skip(0) =~= b@);
    loop
        invariant
            i <= a.len(),
            i <= b.len(),
            lex_le(a@, b@) == lex_le(a@.skip(i as int), b@.skip(i as int)),
        decreases a.len() - i,
    {
        if i == a.len() {
            return true;
        }
        if i == b.len() {
            return false;
        }
        if a[i] != b[i] {
            return a[i] < b[i];
        }
        assert(a@.skip(i as int).drop_first() =~= a@.skip(i + 1));
        assert(b@.skip(i as int).drop_first() =~= b@.skip(i + 1));
        i = i + 1;
    }
}

/// Whether an entry with key `a` sorts no later than one with key `b`.
fn key_le_exec(a: &EntryKey, b: &EntryKey) -> (res: bool)
    ensures
        res == ((a.is_dir && !b.is_dir) || (a.is_dir == b.is_dir && lex_le(a.lower@, b.lower@))),
{
    if a.is_dir != b.is_dir {
        a.is_dir
    } else {
        lex_le_exec(&a.lower, &b.lower)
    }
}

/// Orders the entries of a directory listing as the sidebar shows them:
/// directories first, then files, each group by name compared
/// case-insensitively; entries that compare equal keep their order.
pub fn order_entries(entries: Vec<FileEntry>) -> (res: Vec<FileEntry>)
    ensures
        exists|p: Seq<int>| is_stable_sort_by(res@, entries@, p),
{
    let ghost input = entries@;
    let n = entries.len();
    let mut rest = entries;
    let mut out: Vec<FileEntry> = Vec::new();
    let mut keys: Vec<EntryKey> = Vec::new();
    let ghost mut p: Seq<int> = Seq::empty();
    let mut k: usize = 0;
    while k < n
        invariant
            n == input.len(),
            k <= n,
            rest@ == input.subrange(k as int, n as int),
            out@.len() == k,
            keys@.len() == k,
            forall|i: int| 0 <= i < k ==> (#[trigger] keys@[i]).is_dir == out@[i].is_dir,
            forall|i: int|
                0 <= i < k ==> (#[trigger] keys@[i]).lower@ == crate::text::to_lower(
                    out@[i].name@,
                ),
            p.len() == k,
            forall|i: int| 0 <= i < k ==> 0 <= #[trigger] p[i] < k,
            forall|i: int, j: int| 0 <= i < j < k ==> #[trigger] p[i] != #[trigger] p[j],
            forall|i: int| 0 <= i < k ==> #[trigger] out@[i] == input[p[i]],
            forall|i: int, j: int| 0 <= i < j < k ==> entry_le(#[trigger] out@[i], #[trigger] out@[j]),
            forall|i: int, j: int|
                0 <= i < j < k && same_rank(#[trigger] out@[i], #[trigger] out@[j]) ==> p[i] < p[j],
        decreases n - k,
    {
        let e = rest.remove(0);
        assert(e == input[k as int]);
        let ek = key_of(&e);
        // The first position whose entry sorts strictly after `e`.
        let mut pos: usize = 0;
        while pos < k && key_le_exec(&keys[pos], &ek)
            invariant
                pos <= k == out@.len() == keys@.len(),
                ek.is_dir == e.is_dir,
                ek.lower@ == crate::text::to_lower(e.name@),
                forall|i: int| 0 <= i < k ==> (#[trigger] keys@[i]).is_dir == out@[i].is_dir,
                forall|i: int|
                    0 <= i < k ==> (#[trigger] keys@[i]).lower@ == crate::text::to_lower(
                        out@[i].name@,
                    ),
                forall|i: int| 0 <= i < pos ==> entry_le(#[trigger] out@[i], e),
            decreases k - pos,
        {
            pos = pos + 1;
        }
        proof {
            // Every entry from `pos` on sorts strictly after `e`.
            if pos < k {
                assert(!entry_le(out@[pos as int], e));
            }
            assert forall|j: int| pos <= j < k implies !entry_le(#[trigger] out@[j], e) by {
                if j > pos {
                    if entry_le(out@[j], e) {
                        lemma_entry_le_trans(out@[pos as int], out@[j], e);
                    }
                }
            }
        }
        let ghost old_out = out@;
        let ghost old_p = p;
        out.insert(pos, e);
        keys.insert(pos, ek);
        proof {
            p = old_p.insert(pos as int, k as int);
            let kk = k + 1;
            assert forall|i: int| 0 <= i < kk implies #[trigger] out@[i] == input[p[i]] by {
                if i < pos {
                    assert(out@[i] == old_out[i]);
                } else if i > pos {
                    assert(out@[i] == old_out[i - 1]);
                }
            }
            assert forall|i: int| 0 <= i < kk implies 0 <= #[trigger] p[i] < kk by {}
            assert forall|i: int, j: int| 0 <= i < j < kk implies #[trigger] p[i] != #[trigger] p[j] by {
                if i < pos && j > pos {
                    assert(p[j] == old_p[j - 1]);
                } else if i > pos {
                    assert(p[i] == old_p[i - 1] && p[j] == old_p[j - 1]);
                }
            }
            assert forall|i: int, j: int| 0 <= i < j < kk implies entry_le(
                #[trigger] out@[i],
                #[trigger] out@[j],
            ) by {
                if j == pos {
                    assert(entry_le(old_out[i], e));
                } else if i == pos {
                    assert(!entry_le(old_out[j - 1], e));
                    lemma_entry_le_total(old_out[j - 1], e);
                } else if i < pos && j > pos {
                    assert(out@[j] == old_out[j - 1]);
                } else if i > pos {
                    assert(out@[i] == old_out[i - 1] && out@[j] == old_out[j - 1]);
                }
            }
            assert forall|i: int, j: int|
                0 <= i < j < kk && same_rank(#[trigger] out@[i], #[trigger] out@[j]) implies p[i]
                < p[j] by {
                if j == pos {
                    assert(p[j] == k);
                    assert(p[i] == old_p[i]);
                } else if i == pos {
                    assert(!entry_le(old_out[j - 1], e));
                    assert(out@[j] == old_out[j - 1]);
                } else if i < pos && j > pos {
                    assert(out@[j] == old_out[j - 1]);
                    assert(p[j] == old_p[j - 1]);
                } else if i > pos {
                    assert(out@[i] == old_out[i - 1] && out@[j] == old_out[j - 1]);
                    assert(p[i] == old_p[i - 1] && p[j] == old_p[j - 1]);
                }
            }
            assert forall|i: int| 0 <= i < kk implies (#[trigger] keys@[i]).is_dir
                == out@[i].is_dir && keys@[i].lower@ == crate::text::to_lower(
                out@[i].name@,
            ) by {
                if i > pos {
                    assert(out@[i] == old_out[i - 1]);
                }
            }
        }
        k = k + 1;
    }
    assert(is_stable_sort_by(out@, input, p));
    out
}

// ---------------------------------------------------------------------------
// Laws
// ---------------------------------------------------------------------------

/// In an ordered listing no file comes before a directory.
pub proof fn law_directories_precede_files(out: Seq<FileEntry>, input: Seq<FileEntry>, p: Seq<int>)
    requires
        is_stable_sort_by(out, input, p),
    ensures
        forall|i: int, j: int| 0 <= i < j < out.len() && (#[trigger] out[j]).is_dir ==> (
        #[trigger] out[i]).is_dir,
{
}

proof fn lemma_last_component_nonempty(segs: Seq<Seq<char>>, verbatim: bool)
    ensures
        last_component(segs, verbatim) matches Some(n) ==> n.len() > 0,
    decreases segs.len(),
{
    if segs.len() > 0 {
        lemma_last_component_nonempty(segs.drop_last(), verbatim);
    }
}

/// Names are compared from their first character on: where two names first
/// differ, the one with the smaller character comes first, and a name comes
/// before every longer name that begins with it.
pub proof fn law_names_compare_from_the_start(a: Seq<char>, b: Seq<char>, i: int)
    requires
        0 <= i <= a.len(),
        i <= b.len(),
        forall|j: int| 0 <= j < i ==> a[j] == b[j],
    ensures
        i == a.len() ==> lex_le(a, b),
        i < a.len() && i == b.len() ==> !lex_le(a, b),
        i < a.len() && i < b.len() && a[i] != b[i] ==> (lex_le(a, b) <==> a[i] < b[i]),
    decreases i,
{
    if i > 0 {
        let a1 = a.drop_first();
        let b1 = b.drop_first();
        assert(a[0] == b[0]);
        assert forall|j: int| 0 <= j < i - 1 implies a1[j] == b1[j] by {
            assert(a1[j] == a[j + 1]);
            assert(b1[j] == b[j + 1]);
        }
        law_names_compare_from_the_start(a1, b1, i - 1);
        if i < a.len() {
            assert(a1[i - 1] == a[i]);
        }
        if i < b.len() {
            assert(b1[i - 1] == b[i]);
        }
    }
}

/// Within each kind, the listing puts entries in alphabetical order of their
/// lower-cased names, read from the first character on: where two such names
/// first differ, the entry with the smaller character is placed first.
pub proof fn law_entries_of_a_kind_are_alphabetical(x: FileEntry, y: FileEntry, i: int)
    requires
        x.is_dir == y.is_dir,
        0 <= i < crate::text::to_lower(x.name@).len(),
        i < crate::text::to_lower(y.name@).len(),
        forall|j: int|
            0 <= j < i ==> crate::text::to_lower(x.name@)[j] == crate::text::to_lower(y.name@)[j],
        crate::text::to_lower(x.name@)[i] < crate::text::to_lower(y.name@)[i],
    ensures
        entry_le(x, y),
        !entry_le(y, x),
{
    let a = crate::text::to_lower(x.name@);
    let b = crate::text::to_lower(y.name@);
    law_names_compare_from_the_start(a, b, i);
    law_names_compare_from_the_start(b, a, i);
}

/// On Linux and macOS a path whose last component is a name (not empty, `.`
/// or `..`, whatever character it starts with) is shown by that name: the
/// display name of `dir/name` is `name`.
pub proof fn law_display_name_is_the_last_name(
    os: HostOs,
    dir: Seq<char>,
    name: Seq<char>,
)
    requires
        os != HostOs::Windows,
        name.len() > 0,
        name != "."@,
        name != ".."@,
        crate::platform::is_plain_name(os, name),
    ensures
        file_name_spec(os, dir.push('/') + name) == Some(name),
        display_name_spec(os, dir.push('/') + name) == name,
{
    let path = dir.push('/') + name;
    let k = dir.len() + 1int;
    assert(normalize_seps(os, path.subrange(0, path.len() as int)) =~= path);
    assert(path[k - 1] == '/');
    assert forall|q: int| k <= q < path.len() implies path[q] != '/' by {
        assert(path[q] == name[q - k]);
    }
    crate::text::lemma_split_from_last(path, 0, '/', k);
    assert(path.subrange(k, path.len() as int) =~= name);
    let segs = path_segments(os, path);
    assert(segs.last() == name);
}

/// On Linux and macOS a path ending in `..` has no file name and is shown
/// whole.
pub proof fn law_parent_reference_is_shown_whole(os: HostOs, dir: Seq<char>)
    requires
        os != HostOs::Windows,
    ensures
        file_name_spec(os, dir.push('/') + ".."@) is None,
        display_name_spec(os, dir.push('/') + ".."@) == dir.push('/') + ".."@,
{
    reveal_strlit("..");
    let path = dir.push('/') + ".."@;
    let k = dir.len() + 1int;
    assert(normalize_seps(os, path.subrange(0, path.len() as int)) =~= path);
    assert(path[k - 1] == '/');
    assert forall|q: int| k <= q < path.len() implies path[q] != '/' by {
        assert(path[q] == ".."@[q - k]);
    }
    crate::text::lemma_split_from_last(path, 0, '/', k);
    assert(path.subrange(k, path.len() as int) =~= ".."@);
    reveal_strlit(".");
    assert(".."@ != "."@);
    let segs = path_segments(os, path);
    assert(segs.last() == ".."@);
}

/// The name shown for a non-empty path is never empty.
pub proof fn law_display_name_of_nonempty_path_is_nonempty(os: HostOs, path: Seq<char>)
    requires
        path.len() > 0,
    ensures
        display_name_spec(os, path).len() > 0,
{
    lemma_last_component_nonempty(path_segments(os, path), verbatim_path(os, path));
}

} // verus!
