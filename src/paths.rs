//! Names of the files that a rate change writes, and the songs-directory
//! boundary that cleanup keeps to. Paths are `/`-separated text and are
//! compared as written, without normalising them.
use vstd::prelude::*;
use crate::text::{hundredths, hundredths_text};

verus! {

/// Index of the last `c` in `s`, or `-1`.
pub open spec fn last_index_of(s: Seq<char>, c: char) -> int
    decreases s.len(),
{
    if s.len() == 0 {
        -1
    } else if s.last() == c {
        s.len() - 1
    } else {
        last_index_of(s.drop_last(), c)
    }
}

/// The last component of `p`.
pub open spec fn file_name(p: Seq<char>) -> Seq<char> {
    p.subrange(last_index_of(p, '/') + 1, p.len() as int)
}

/// Everything of `p` before its last component, the separator included.
pub open spec fn dir_prefix(p: Seq<char>) -> Seq<char> {
    p.subrange(0, last_index_of(p, '/') + 1)
}

/// A file name without its extension; a leading dot starts no extension.
pub open spec fn stem(name: Seq<char>) -> Seq<char> {
    let d = last_index_of(name, '.');
    if d > 0 {
        name.subrange(0, d)
    } else {
        name
    }
}

/// The extension of a file name, after its last dot.
pub open spec fn extension(name: Seq<char>) -> Option<Seq<char>> {
    let d = last_index_of(name, '.');
    if d > 0 {
        Some(name.subrange(d + 1, name.len() as int))
    } else {
        None
    }
}

/// `<stem>(<rate>)`, the base of every file a rate change writes.
pub open spec fn rated_stem(name: Seq<char>, rate: nat) -> Seq<char> {
    stem(name) + seq!['('] + hundredths(rate) + seq![')']
}

/// `<stem>(<rate>).<ext>`: the name of the audio file for `rate`.
pub open spec fn rated_name(name: Seq<char>, rate: nat) -> Seq<char> {
    match extension(name) {
        Some(e) => rated_stem(name, rate) + seq!['.'] + e,
        None => rated_stem(name, rate),
    }
}

/// The audio file for `rate` beside the audio file at `p`.
pub open spec fn rated_path(p: Seq<char>, rate: nat) -> Seq<char> {
    dir_prefix(p) + rated_name(file_name(p), rate)
}

/// The map file for `rate` beside the map at `p`: `.osz` when archived, else `.osu`.
pub open spec fn rated_map_path(p: Seq<char>, rate: nat, archive: bool) -> Seq<char> {
    dir_prefix(p) + rated_stem(file_name(p), rate) + if archive {
        seq!['.', 'o', 's', 'z']
    } else {
        seq!['.', 'o', 's', 'u']
    }
}

/// The file called `name` in the directory of `p`.
pub open spec fn sibling(p: Seq<char>, name: Seq<char>) -> Seq<char> {
    dir_prefix(p) + name
}

/// Whether `p` is `root` or lies below it, component by component. An empty
/// root holds nothing.
pub open spec fn nested_under(p: Seq<char>, root: Seq<char>) -> bool {
    &&& root.len() > 0
    &&& p.len() >= root.len()
    &&& p.subrange(0, root.len() as int) == root
    &&& (p.len() == root.len() || root.last() == '/' || p[root.len() as int] == '/')
}

proof fn lemma_last_index_bounds(s: Seq<char>, c: char)
    ensures
        -1 <= last_index_of(s, c) < s.len(),
        last_index_of(s, c) >= 0 ==> s[last_index_of(s, c)] == c,
    decreases s.len(),
{
    if s.len() > 0 && s.last() != c {
        lemma_last_index_bounds(s.drop_last(), c);
    }
}

/// Finds the last `c` in `s`.
fn last_index(s: &str, c: char) -> (r: Option<usize>)
    ensures
        r matches Some(i) ==> last_index_of(s@, c) == i as int,
        r is None ==> last_index_of(s@, c) == -1,
{
    let n = s.unicode_len();
    let mut i = n;
    proof {
        assert(s@.take(n as int) =~= s@);
    }
    while i > 0
        invariant
            i <= n,
            n == s@.len(),
            last_index_of(s@, c) == last_index_of(s@.take(i as int), c),
        decreases i,
    {
        proof {
            assert(s@.take(i as int).drop_last() =~= s@.take(i - 1));
        }
        if s.get_char(i - 1) == c {
            return Some(i - 1);
        }
        i = i - 1;
    }
    None
}

/// Splits `p` into its directory part (separator included) and its last component.
fn split_file_name(p: &str) -> (r: (&str, &str))
    ensures
        r.0@ == dir_prefix(p@),
        r.1@ == file_name(p@),
{
    proof {
        lemma_last_index_bounds(p@, '/');
    }
    let n = p.unicode_len();
    let cut = match last_index(p, '/') {
        Some(i) => i + 1,
        None => 0,
    };
    (p.substring_char(0, cut), p.substring_char(cut, n))
}

/// The extension of the file name `name`, after its last dot.
pub fn file_extension(name: &str) -> (r: Option<&str>)
    ensures
        r matches Some(e) ==> extension(name@) == Some(e@),
        r is None ==> extension(name@) is None,
{
    proof {
        lemma_last_index_bounds(name@, '.');
    }
    let n = name.unicode_len();
    match last_index(name, '.') {
        Some(d) => if d > 0 {
            Some(name.substring_char(d + 1, n))
        } else {
            None
        },
        None => None,
    }
}

/// Whether `a` and `b` hold the same text.
pub fn same_text(a: &str, b: &str) -> (r: bool)
    ensures
        r == (a@ == b@),
{
    let n = a.unicode_len();
    if n != b.unicode_len() {
        return false;
    }
    let mut i: usize = 0;
    while i < n
        invariant
            i <= n,
            n == a@.len(),
            n == b@.len(),
            a@.take(i as int) == b@.take(i as int),
        decreases n - i,
    {
        if a.get_char(i) != b.get_char(i) {
            assert(a@[i as int] != b@[i as int]);
            return false;
        }
        proof {
            assert(a@.take(i + 1) =~= a@.take(i as int).push(a@[i as int]));
            assert(b@.take(i + 1) =~= b@.take(i as int).push(b@[i as int]));
        }
        i = i + 1;
    }
    proof {
        assert(a@.take(n as int) =~= a@);
        assert(b@.take(n as int) =~= b@);
    }
    true
}

/// Appends `<stem>(<rate>)` of the file name `name` to `out`.
fn push_rated_stem<'a>(out: &mut String, name: &'a str, rate: u32) -> (ext: Option<&'a str>)
    ensures
        final(out)@ == old(out)@ + rated_stem(name@, rate as nat),
        ext matches Some(e) ==> extension(name@) == Some(e@),
        ext is None ==> extension(name@) is None,
{
    proof {
        lemma_last_index_bounds(name@, '.');
        reveal_strlit("(");
        reveal_strlit(")");
    }
    let n = name.unicode_len();
    let (base, ext) = match last_index(name, '.') {
        Some(d) => if d > 0 {
            (name.substring_char(0, d), Some(name.substring_char(d + 1, n)))
        } else {
            (name, None)
        },
        None => (name, None),
    };
    out.append(base);
    out.append("(");
    let r = hundredths_text(rate as u64);
    out.append(r.as_str());
    out.append(")");
    proof {
        assert(final(out)@ =~= old(out)@ + rated_stem(name@, rate as nat));
    }
    ext
}

/// The last component of `path`.
pub fn file_name_of(path: &str) -> (r: String)
    ensures
        r@ == file_name(path@),
{
    let (_, name) = split_file_name(path);
    String::from_str(name)
}

/// `<stem>(<rate>).<ext>` for the file name `name`.
pub fn rated_file_name(name: &str, rate: u32) -> (r: String)
    ensures
        r@ == rated_name(name@, rate as nat),
{
    let mut out = String::new();
    let ext = push_rated_stem(&mut out, name, rate);
    if let Some(e) = ext {
        proof {
            reveal_strlit(".");
        }
        out.append(".");
        out.append(e);
    }
    proof {
        assert(out@ =~= rated_name(name@, rate as nat));
    }
    out
}

/// The path of the audio file for `rate` beside the one at `path`.
pub fn rated_audio_path(path: &str, rate: u32) -> (r: String)
    ensures
        r@ == rated_path(path@, rate as nat),
{
    let (dir, name) = split_file_name(path);
    let mut out = String::from_str(dir);
    let rest = rated_file_name(name, rate);
    out.append(rest.as_str());
    out
}

/// The path of the map file for `rate` beside the map at `path`.
pub fn rated_map_file(path: &str, rate: u32, archive: bool) -> (r: String)
    ensures
        r@ == rated_map_path(path@, rate as nat, archive),
{
    let (dir, name) = split_file_name(path);
    let mut out = String::from_str(dir);
    let _ = push_rated_stem(&mut out, name, rate);
    proof {
        reveal_strlit(".osz");
        reveal_strlit(".osu");
    }
    if archive {
        out.append(".osz");
    } else {
        out.append(".osu");
    }
    proof {
        assert(out@ =~= rated_map_path(path@, rate as nat, archive));
    }
    out
}

/// The path of the file called `name` in the directory of `path`.
pub fn sibling_path(path: &str, name: &str) -> (r: String)
    ensures
        r@ == sibling(path@, name@),
{
    let (dir, _) = split_file_name(path);
    let mut out = String::from_str(dir);
    out.append(name);
    out
}

/// Whether `path` is `root` or lies below it.
pub fn is_nested_under(path: &str, root: &str) -> (r: bool)
    ensures
        r == nested_under(path@, root@),
{
    let n = path.unicode_len();
    let m = root.unicode_len();
    if m == 0 || n < m {
        return false;
    }
    let mut i: usize = 0;
    while i < m
        invariant
            i <= m,
            m <= n,
            n == path@.len(),
            m == root@.len(),
            path@.subrange(0, i as int) == root@.subrange(0, i as int),
        decreases m - i,
    {
        if path.get_char(i) != root.get_char(i) {
            assert(path@.subrange(0, m as int)[i as int] != root@[i as int]);
            return false;
        }
        proof {
            assert(path@.subrange(0, i + 1) =~= path@.subrange(0, i as int).push(path@[i as int]));
            assert(root@.subrange(0, i + 1) =~= root@.subrange(0, i as int).push(root@[i as int]));
        }
        i = i + 1;
    }
    proof {
        assert(root@.subrange(0, m as int) =~= root@);
    }
    n == m || root.get_char(m - 1) == '/' || path.get_char(m) == '/'
}

} // verus!
