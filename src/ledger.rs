//! The ledger of generated files: a text file with three comment lines and
//! then one generated path per line. It drives cleanup and the disk-space
//! total. Reading and writing the file is left to the caller; this module
//! decides what the lines mean and what is written back.
use vstd::prelude::*;
use crate::paths::{nested_under, is_nested_under};
use crate::text::{unsigned_value, parse_unsigned};

verus! {

/// The text of each of `v`.
pub open spec fn views(v: Seq<String>) -> Seq<Seq<char>> {
    v.map_values(|s: String| s@)
}

/// Whether `c` is white space as Unicode defines it.
pub open spec fn is_white_space(c: char) -> bool {
    let u = c as u32;
    u == 0x20 || (0x09 <= u && u <= 0x0d) || u == 0x85 || u == 0xa0 || u == 0x1680
        || (0x2000 <= u && u <= 0x200a) || u == 0x2028 || u == 0x2029 || u == 0x202f
        || u == 0x205f || u == 0x3000
}

/// The first index from `i` on that holds no white space.
pub open spec fn skip_space(s: Seq<char>, i: int) -> int
    decreases s.len() - i,
{
    if 0 <= i < s.len() && is_white_space(s[i]) {
        skip_space(s, i + 1)
    } else {
        i
    }
}

/// The end of `s[lo..j]` once white space is taken off its end.
pub open spec fn back_space(s: Seq<char>, lo: int, j: int) -> int
    decreases j - lo,
{
    if lo < j && is_white_space(s[j - 1]) {
        back_space(s, lo, j - 1)
    } else {
        j
    }
}

/// `s` without white space at either end.
pub open spec fn trimmed(s: Seq<char>) -> Seq<char> {
    let a = skip_space(s, 0);
    s.subrange(a, back_space(s, a, s.len() as int))
}

/// The index of the first `//` in `s` from `i` on, or `-1`.
pub open spec fn comment_from(s: Seq<char>, i: int) -> int
    decreases s.len() - i,
{
    if i < 0 || i + 1 >= s.len() {
        -1
    } else if s[i] == '/' && s[i + 1] == '/' {
        i
    } else {
        comment_from(s, i + 1)
    }
}

/// The path a ledger line records: the line itself, or, where it holds `//`,
/// what stands before the first `//`, trimmed.
pub open spec fn record(line: Seq<char>) -> Seq<char> {
    let c = comment_from(line, 0);
    if c >= 0 {
        trimmed(line.subrange(0, c))
    } else {
        line
    }
}

/// Whether cleanup deletes the file of `line`: it exists, lies under `root`,
/// and is not among the files `gone` that earlier lines deleted.
pub open spec fn removes(line: Seq<char>, exists: bool, root: Seq<char>, gone: Seq<Seq<char>>) -> bool {
    exists && nested_under(record(line), root) && !gone.contains(record(line))
}

/// The lines that cleanup writes back, in their order.
pub open spec fn kept_lines(lines: Seq<Seq<char>>, exists: Seq<bool>, root: Seq<char>) -> Seq<Seq<char>>
    decreases lines.len(),
{
    if lines.len() == 0 || exists.len() != lines.len() {
        seq![]
    } else {
        let rest = kept_lines(lines.drop_last(), exists.drop_last(), root);
        if removes(lines.last(), exists.last(), root, removed_paths(lines.drop_last(), exists.drop_last(), root)) {
            rest
        } else {
            rest.push(lines.last())
        }
    }
}

/// The files that cleanup deletes, in the order of their lines.
pub open spec fn removed_paths(lines: Seq<Seq<char>>, exists: Seq<bool>, root: Seq<char>) -> Seq<Seq<char>>
    decreases lines.len(),
{
    if lines.len() == 0 || exists.len() != lines.len() {
        seq![]
    } else {
        let rest = removed_paths(lines.drop_last(), exists.drop_last(), root);
        if removes(lines.last(), exists.last(), root, rest) {
            rest.push(record(lines.last()))
        } else {
            rest
        }
    }
}

/// The sum of the sizes that are known.
pub open spec fn known_total(sizes: Seq<Option<u64>>) -> nat
    decreases sizes.len(),
{
    if sizes.len() == 0 {
        0
    } else {
        known_total(sizes.drop_last()) + match sizes.last() {
            Some(n) => n as nat,
            None => 0,
        }
    }
}

/// The comment lines that open a new ledger.
pub open spec fn header() -> Seq<Seq<char>> {
    seq![
        "// Files generated by ruso"@,
        "// Do not delete this file as it is used to keep track of files generated by ruso for easy removal if needed"@,
        "// For safety reasons, ruso only removes files that start with your current osu! songs path"@,
    ]
}

/// Whether `c` is white space as Unicode defines it.
pub fn is_space(c: char) -> (r: bool)
    ensures
        r == is_white_space(c),
{
    let u = c as u32;
    u == 0x20 || (0x09 <= u && u <= 0x0d) || u == 0x85 || u == 0xa0 || u == 0x1680
        || (0x2000 <= u && u <= 0x200a) || u == 0x2028 || u == 0x2029 || u == 0x202f
        || u == 0x205f || u == 0x3000
}

/// `s` without white space at either end.
pub fn trim_text(s: &str) -> (r: &str)
    ensures
        r@ == trimmed(s@),
{
    let n = s.unicode_len();
    let mut a: usize = 0;
    while a < n && is_space(s.get_char(a))
        invariant
            a <= n,
            n == s@.len(),
            skip_space(s@, 0) == skip_space(s@, a as int),
        decreases n - a,
    {
        a = a + 1;
    }
    let mut b: usize = n;
    while b > a && is_space(s.get_char(b - 1))
        invariant
            a <= b <= n,
            n == s@.len(),
            a == skip_space(s@, 0),
            back_space(s@, a as int, n as int) == back_space(s@, a as int, b as int),
        decreases b - a,
    {
        b = b - 1;
    }
    s.substring_char(a, b)
}

/// The path that the ledger line `line` records.
pub fn record_path(line: &str) -> (r: String)
    ensures
        r@ == record(line@),
{
    let n = line.unicode_len();
    let mut i: usize = 0;
    while n > 0 && i < n - 1 && !(line.get_char(i) == '/' && line.get_char(i + 1) == '/')
        invariant
            n == line@.len(),
            i <= n,
            comment_from(line@, 0) == comment_from(line@, i as int),
        decreases n - i,
    {
        i = i + 1;
    }
    if n > 0 && i < n - 1 {
        let head = line.substring_char(0, i);
        String::from_str(trim_text(head))
    } else {
        String::from_str(line)
    }
}

/// What cleanup does with a ledger: the lines it writes back and the files
/// it deletes.
#[derive(Clone, Debug)]
pub struct CleanupPlan {
    pub kept: Vec<String>,
    pub removed: Vec<String>,
}

/// Decides cleanup over the ledger `lines`, where `exists[i]` tells whether
/// the file of line `i` is on disk before cleanup. A file is deleted, and its
/// line dropped, only if it exists and lies under `root`; a later line of a
/// file already deleted finds it missing. Every other line is written back
/// as it was. Each file is deleted once, so the count of deleted files is
/// `removed.len()`.
pub fn plan_cleanup(lines: &Vec<String>, exists: &Vec<bool>, root: &str) -> (r: CleanupPlan)
    requires
        lines@.len() == exists@.len(),
    ensures
        views(r.kept@) == kept_lines(views(lines@), exists@, root@),
        views(r.removed@) == removed_paths(views(lines@), exists@, root@),
        views(r.removed@).no_duplicates(),
{
    let mut kept: Vec<String> = Vec::new();
    let mut removed: Vec<String> = Vec::new();
    let mut i: usize = 0;
    while i < lines.len()
        invariant
            lines@.len() == exists@.len(),
            i <= lines@.len(),
            views(kept@) == kept_lines(views(lines@).take(i as int), exists@.take(i as int), root@),
            views(removed@) == removed_paths(views(lines@).take(i as int), exists@.take(i as int), root@),
            views(removed@).no_duplicates(),
        decreases lines@.len() - i,
    {
        let line = &lines[i];
        proof {
            assert(views(lines@).take(i + 1).drop_last() =~= views(lines@).take(i as int));
            assert(exists@.take(i + 1).drop_last() =~= exists@.take(i as int));
            assert(views(lines@).take(i + 1).last() == line@);
        }
        let path = record_path(line.as_str());
        let mut gone = false;
        let mut j: usize = 0;
        while j < removed.len()
            invariant
                j <= removed@.len(),
                gone ==> views(removed@).contains(path@),
                !gone ==> forall|k: int| 0 <= k < j ==> removed@[k]@ != path@,
            decreases removed@.len() - j,
        {
            if removed[j] == path {
                gone = true;
                assert(views(removed@)[j as int] == path@);
            }
            j = j + 1;
        }
        proof {
            if !gone {
                assert forall|k: int| 0 <= k < views(removed@).len() implies views(removed@)[k] != path@ by {
                    assert(views(removed@)[k] == removed@[k]@);
                }
            }
        }
        if exists[i] && is_nested_under(path.as_str(), root) && !gone {
            let ghost before = views(removed@);
            removed.push(path);
            proof {
                assert(views(removed@) =~= before.push(path@));
                assert(views(removed@) =~= removed_paths(views(lines@).take(i + 1), exists@.take(i + 1), root@));
                assert forall|a: int, b: int| 0 <= a < b < views(removed@).len() implies views(removed@)[a] != views(removed@)[b] by {
                    if b == before.len() {
                        assert(views(removed@)[a] == before[a]);
                    }
                }
            }
        } else {
            kept.push(line.clone());
            proof {
                assert(views(kept@) =~= kept_lines(views(lines@).take(i + 1), exists@.take(i + 1), root@));
            }
        }
        i = i + 1;
    }
    proof {
        assert(views(lines@).take(lines@.len() as int) =~= views(lines@));
        assert(exists@.take(lines@.len() as int) =~= exists@);
    }
    CleanupPlan { kept, removed }
}


/// The comment lines that open a new ledger.
pub fn ledger_header() -> (r: Vec<String>)
    ensures
        views(r@) == header(),
{
    let mut r: Vec<String> = Vec::new();
    r.push(String::from_str("// Files generated by ruso"));
    r.push(String::from_str("// Do not delete this file as it is used to keep track of files generated by ruso for easy removal if needed"));
    r.push(String::from_str("// For safety reasons, ruso only removes files that start with your current osu! songs path"));
    proof {
        assert(views(r@) =~= header());
    }
    r
}

/// The lines to append to the ledger for `paths`: one per path, after the
/// header when the ledger is new.
pub fn lines_to_append(new_ledger: bool, paths: &Vec<String>) -> (r: Vec<String>)
    ensures
        views(r@) == if new_ledger { header() + views(paths@) } else { views(paths@) },
{
    let mut r: Vec<String> = if new_ledger { ledger_header() } else { Vec::new() };
    let ghost start = views(r@);
    let mut i: usize = 0;
    while i < paths.len()
        invariant
            i <= paths@.len(),
            views(r@) == start + views(paths@).take(i as int),
        decreases paths@.len() - i,
    {
        let ghost before = r@;
        r.push(paths[i].clone());
        proof {
            assert(r@ == before.push(paths@[i as int]));
            let want = start + views(paths@).take(i + 1);
            assert(views(before) == start + views(paths@).take(i as int));
            assert(views(paths@).len() == paths@.len());
            assert(views(before).len() == before.len());
            assert(views(paths@).take(i as int).len() == i);
            assert forall|k: int| 0 <= k < r@.len() implies #[trigger] views(r@)[k] == want[k] by {
                if k < before.len() {
                    assert(views(r@)[k] == r@[k]@);
                    assert(r@[k] == before[k]);
                    assert(views(before)[k] == before[k]@);
                    assert(want[k] == (start + views(paths@).take(i as int))[k]);
                } else {
                    assert(k == start.len() + i);
                    assert(views(r@)[k] == paths@[i as int]@);
                    assert(want[k] == views(paths@).take(i + 1)[i as int]);
                }
            }
            assert(views(r@) =~= start + views(paths@).take(i + 1));
        }
        i = i + 1;
    }
    proof {
        assert(views(paths@).take(paths@.len() as int) =~= views(paths@));
    }
    r
}

/// The distinct paths that the ledger `lines` record, each once, in the
/// order of their first line.
pub fn distinct_paths(lines: &Vec<String>) -> (r: Vec<String>)
    ensures
        views(r@).no_duplicates(),
        forall|p: Seq<char>| views(r@).contains(p)
            <==> exists|i: int| 0 <= i < lines@.len() && record(#[trigger] lines@[i]@) == p,
{
    let mut r: Vec<String> = Vec::new();
    let mut i: usize = 0;
    while i < lines.len()
        invariant
            i <= lines@.len(),
            views(r@).no_duplicates(),
            forall|p: Seq<char>| views(r@).contains(p)
                <==> exists|k: int| 0 <= k < i && record(#[trigger] lines@[k]@) == p,
        decreases lines@.len() - i,
    {
        let path = record_path(lines[i].as_str());
        let mut seen = false;
        let mut j: usize = 0;
        while j < r.len()
            invariant
                j <= r@.len(),
                seen ==> views(r@).contains(path@),
                !seen ==> forall|k: int| 0 <= k < j ==> r@[k]@ != path@,
            decreases r@.len() - j,
        {
            if r[j] == path {
                seen = true;
                assert(views(r@)[j as int] == path@);
            }
            j = j + 1;
        }
        let ghost before = views(r@);
        if !seen {
            r.push(path);
            proof {
                assert(views(r@) =~= before.push(path@));
                assert forall|a: int, b: int| 0 <= a < b < views(r@).len() implies views(r@)[a] != views(r@)[b] by {
                    if b == before.len() {
                        assert(views(r@)[a] == r@[a]@);
                    }
                }
            }
        }
        proof {
            assert forall|p: Seq<char>| views(r@).contains(p)
                <==> exists|k: int| 0 <= k < i + 1 && record(#[trigger] lines@[k]@) == p by {
                if views(r@).contains(p) {
                    let m = choose|m: int| 0 <= m < views(r@).len() && views(r@)[m] == p;
                    if !seen && m == before.len() {
                        assert(record(lines@[i as int]@) == p);
                    } else {
                        assert(before.contains(p));
                    }
                }
                if exists|k: int| 0 <= k < i + 1 && record(#[trigger] lines@[k]@) == p {
                    let k = choose|k: int| 0 <= k < i + 1 && record(#[trigger] lines@[k]@) == p;
                    if k == i {
                        if !seen {
                            assert(views(r@)[before.len() as int] == p);
                        }
                    } else {
                        assert(before.contains(p));
                        let m = choose|m: int| 0 <= m < before.len() && before[m] == p;
                        assert(views(r@)[m] == p);
                    }
                }
            }
        }
        i = i + 1;
    }
    r
}

/// The sum of the sizes that are known; unknown ones count nothing.
pub fn total_space(sizes: &Vec<Option<u64>>) -> (r: u128)
    ensures
        r as nat == known_total(sizes@),
{
    let mut total: u128 = 0;
    let mut i: usize = 0;
    while i < sizes.len()
        invariant
            i <= sizes@.len(),
            total as nat == known_total(sizes@.take(i as int)),
            total <= i * 0xffff_ffff_ffff_ffffu128,
        decreases sizes@.len() - i,
    {
        proof {
            assert(sizes@.take(i + 1).drop_last() =~= sizes@.take(i as int));
        }
        match sizes[i] {
            Some(n) => {
                total = total + n as u128;
            },
            None => {},
        }
        i = i + 1;
    }
    proof {
        assert(sizes@.take(sizes@.len() as int) =~= sizes@);
    }
    total
}

/// Reads the byte count of the space cache: decimal digits, at least one,
/// after an optional `+`.
pub fn parse_space(text: &str) -> (r: Option<u128>)
    ensures
        r matches Some(v) ==> unsigned_value(text@) == Some(v as nat),
        r is None ==> unsigned_value(text@) is None,
{
    parse_unsigned(text)
}

/// A line that cleanup does not delete the file of is written back unchanged:
/// one whose file is missing, and one whose file lies outside the root.
pub proof fn lemma_cleanup_keeps_line(lines: Seq<Seq<char>>, exists: Seq<bool>, root: Seq<char>, i: int)
    requires
        lines.len() == exists.len(),
        0 <= i < lines.len(),
        !exists[i] || !nested_under(record(lines[i]), root),
    ensures
        kept_lines(lines, exists, root).contains(lines[i]),
    decreases lines.len(),
{
    let rest = kept_lines(lines.drop_last(), exists.drop_last(), root);
    if i == lines.len() - 1 {
        assert(kept_lines(lines, exists, root) == rest.push(lines[i]));
        assert(rest.push(lines[i])[rest.len() as int] == lines[i]);
    } else {
        lemma_cleanup_keeps_line(lines.drop_last(), exists.drop_last(), root, i);
        assert(lines.drop_last()[i] == lines[i]);
        let m = choose|m: int| 0 <= m < rest.len() && rest[m] == lines[i];
        if !removes(lines.last(), exists.last(), root, removed_paths(lines.drop_last(), exists.drop_last(), root)) {
            assert(rest.push(lines.last())[m] == lines[i]);
        }
    }
}

/// Cleanup deletes only files that exist and lie under the root, each
/// recorded by a line of the ledger.
pub proof fn lemma_cleanup_removes_only_existing(lines: Seq<Seq<char>>, exists: Seq<bool>, root: Seq<char>, k: int)
    requires
        lines.len() == exists.len(),
        0 <= k < removed_paths(lines, exists, root).len(),
    ensures
        exists|i: int| 0 <= i < lines.len() && exists[i] && nested_under(record(lines[i]), root)
            && #[trigger] record(lines[i]) == removed_paths(lines, exists, root)[k],
    decreases lines.len(),
{
    let rest = removed_paths(lines.drop_last(), exists.drop_last(), root);
    let last = lines.len() - 1;
    if removes(lines.last(), exists.last(), root, rest) && k == rest.len() {
        assert(removed_paths(lines, exists, root)[k] == record(lines[last]));
    } else {
        assert(removed_paths(lines, exists, root)[k] == rest[k]);
        lemma_cleanup_removes_only_existing(lines.drop_last(), exists.drop_last(), root, k);
        let i = choose|i: int| 0 <= i < lines.len() - 1 && exists.drop_last()[i]
            && nested_under(record(lines.drop_last()[i]), root)
            && #[trigger] record(lines.drop_last()[i]) == rest[k];
        assert(lines.drop_last()[i] == lines[i]);
    }
}

} // verus!
