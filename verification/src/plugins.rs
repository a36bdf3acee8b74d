//! Which files the plugin loader picks up, and which plugins it accepts.
//!
//! Paths follow the Unix rules of `std::path::Path`: components are separated
//! by `/`, empty and `.` components are skipped, and a final `..` has no file
//! name.
use vstd::prelude::*;
use crate::text::chars_of;

verus! {

/// The version of the plugin interface that this bot implements.
pub const API_VERSION: u32 = 1;

/// The index of the last `c` in `s`, or -1 when there is none.
pub open spec fn last_index_of(s: Seq<char>, c: char) -> int
    decreases s.len(),
{
    if s.len() == 0 {
        -1
    } else if s.last() == c {
        s.len() - 1
    } else {
        last_index_of(s.drop_last(), c)
    }
}

/// The final component of a path when it is a normal one
/// (`Path::file_name`).
pub open spec fn file_name(s: Seq<char>) -> Option<Seq<char>>
    decreases s.len(),
{
    let k = last_index_of(s, '/');
    let tail = s.subrange(k + 1, s.len() as int);
    if tail.len() == 0 || tail == seq!['.'] {
        if k < 0 {
            None
        } else {
            proof {
                lemma_last_index_bounds(s, '/');
            }
            file_name(s.take(k))
        }
    } else if tail == seq!['.', '.'] {
        None
    } else {
        Some(tail)
    }
}

/// The extension of a file name: what follows its last `.`, unless there is
/// no `.` or the only `.` opens the name (`Path::extension`).
pub open spec fn name_extension(name: Seq<char>) -> Option<Seq<char>> {
    let k = last_index_of(name, '.');
    if k <= 0 {
        None
    } else {
        Some(name.subrange(k + 1, name.len() as int))
    }
}

/// The extension of the file that a path names.
pub open spec fn path_extension(path: Seq<char>) -> Option<Seq<char>> {
    match file_name(path) {
        Some(name) => name_extension(name),
        None => None,
    }
}

/// The extensions of shared libraries on the platforms the bot runs on.
pub open spec fn is_library_extension(e: Seq<char>) -> bool {
    e == seq!['s', 'o'] || e == seq!['d', 'l', 'l'] || e == seq!['d', 'y', 'l', 'i', 'b']
}

/// Where the last occurrence of a character lies.
pub proof fn lemma_last_index_bounds(s: Seq<char>, c: char)
    ensures
        -1 <= last_index_of(s, c) < s.len(),
        last_index_of(s, c) >= 0 ==> s[last_index_of(s, c)] == c,
        forall|j: int| last_index_of(s, c) < j < s.len() ==> s[j] != c,
    decreases s.len(),
{
    if s.len() > 0 && s.last() != c {
        lemma_last_index_bounds(s.drop_last(), c);
        assert forall|j: int| last_index_of(s, c) < j < s.len() implies s[j] != c by {
            if j < s.len() - 1 {
                assert(s[j] == s.drop_last()[j]);
            }
        }
    }
}

/// A tail without `c` leaves the last `c` where it was.
pub proof fn lemma_last_index_concat(p: Seq<char>, q: Seq<char>, c: char)
    requires
        forall|i: int| 0 <= i < q.len() ==> q[i] != c,
    ensures
        last_index_of(p + q, c) == last_index_of(p, c),
    decreases q.len(),
{
    if q.len() == 0 {
        assert(p + q =~= p);
    } else {
        let q1 = q.drop_last();
        assert((p + q).drop_last() =~= p + q1);
        assert((p + q).last() == q.last());
        lemma_last_index_concat(p, q1, c);
    }
}

/// The extension of a file depends on its name alone: in `dir/name`, where
/// `name` is a proper file name (not empty, `.` or `..`, and without `/`),
/// the extension is that of `name`.
pub proof fn lemma_extension_of_file_in_dir(dir: Seq<char>, name: Seq<char>)
    requires
        name.len() > 0,
        name != seq!['.'],
        name != seq!['.', '.'],
        forall|i: int| 0 <= i < name.len() ==> name[i] != '/',
    ensures
        path_extension(dir.push('/') + name) == name_extension(name),
        path_extension(name) == name_extension(name),
{
    let p = dir.push('/') + name;
    lemma_last_index_concat(dir.push('/'), name, '/');
    assert(p.subrange(dir.len() as int + 1, p.len() as int) =~= name);
    lemma_last_index_concat(seq![], name, '/');
    assert(seq![] + name =~= name);
    assert(name.subrange(0, name.len() as int) =~= name);
}

/// The shared-library extensions are exactly `so`, `dll` and `dylib`.
pub proof fn lemma_library_extensions(e: Seq<char>)
    ensures
        is_library_extension(e) <==> (e == "so"@ || e == "dll"@ || e == "dylib"@),
{
    reveal_strlit("so");
    reveal_strlit("dll");
    reveal_strlit("dylib");
    assert("so"@ =~= seq!['s', 'o']);
    assert("dll"@ =~= seq!['d', 'l', 'l']);
    assert("dylib"@ =~= seq!['d', 'y', 'l', 'i', 'b']);
}

/// The last `c` of `p`, then `c`, then a tail without `c`, is that `c`.
proof fn lemma_last_index_marker(p: Seq<char>, c: char, q: Seq<char>)
    requires
        forall|i: int| 0 <= i < q.len() ==> q[i] != c,
    ensures
        last_index_of(p.push(c) + q, c) == p.len(),
{
    lemma_last_index_concat(p.push(c), q, c);
}

/// A file name `stem.ext`, where the stem is not empty and the extension
/// holds no `.`, has the extension `ext`, in any directory; the name is read
/// after the last `/`, and what comes before it does not matter. A name
/// without `.`, or whose only `.` opens it, has no extension.
pub proof fn lemma_extension_after_last_dot(dir: Seq<char>, stem: Seq<char>, ext: Seq<char>)
    requires
        stem.len() > 0,
        !(stem == seq!['.'] && ext.len() == 0),
        forall|i: int| 0 <= i < stem.len() ==> stem[i] != '/',
        forall|i: int| 0 <= i < ext.len() ==> ext[i] != '/' && ext[i] != '.',
    ensures
        path_extension(dir.push('/') + (stem.push('.') + ext)) == Some(ext),
        path_extension(stem.push('.') + ext) == Some(ext),
        (forall|i: int| 0 <= i < stem.len() ==> stem[i] != '.') ==> path_extension(
            dir.push('/') + stem,
        ) is None,
        ext.len() > 0 ==> path_extension(dir.push('/') + seq!['.'].add(ext)) is None,
{
    let name = stem.push('.') + ext;
    assert forall|i: int| 0 <= i < name.len() implies name[i] != '/' by {
        if i < stem.len() {
            assert(name[i] == stem[i]);
        } else if i > stem.len() {
            assert(name[i] == ext[i - stem.len() - 1]);
        }
    }
    assert(name != seq!['.']) by {
        assert(name.len() >= 2);
    }
    assert(name != seq!['.', '.']) by {
        if name.len() == 2 {
            assert(name[0] == stem[0]);
            assert(stem.len() == 1 && ext.len() == 0);
            if name == seq!['.', '.'] {
                assert(stem =~= seq!['.']);
            }
        }
    }
    lemma_last_index_marker(stem, '.', ext);
    assert(name.subrange(stem.len() as int + 1, name.len() as int) =~= ext);
    lemma_extension_of_file_in_dir(dir, name);
    if forall|i: int| 0 <= i < stem.len() ==> stem[i] != '.' {
        lemma_extension_of_file_in_dir(dir, stem);
        lemma_last_index_concat(seq![], stem, '.');
        assert(seq![] + stem =~= stem);
    }
    let dotted = seq!['.'].add(ext);
    {
        if ext.len() > 0 {
            assert forall|i: int| 0 <= i < dotted.len() implies dotted[i] != '/' by {
                if i > 0 {
                    assert(dotted[i] == ext[i - 1]);
                }
            }
            assert(dotted != seq!['.', '.']) by {
                if dotted.len() == 2 {
                    assert(dotted[1] == ext[0]);
                }
            }
            assert(dotted != seq!['.']);
            lemma_extension_of_file_in_dir(dir, dotted);
            lemma_last_index_marker(seq![], '.', ext);
            assert(seq![].push('.') + ext =~= dotted);
        }
    }
}

/// The index of the last `c` in `cs[..end]`, or `None`.
fn last_index(cs: &Vec<char>, end: usize, c: char) -> (r: Option<usize>)
    requires
        end <= cs@.len(),
    ensures
        match r {
            Some(k) => k == last_index_of(cs@.take(end as int), c),
            None => last_index_of(cs@.take(end as int), c) == -1,
        },
{
    let mut i = end;
    while i > 0
        invariant
            i <= end <= cs@.len(),
            last_index_of(cs@.take(end as int), c) == last_index_of(cs@.take(i as int), c),
        decreases i,
    {
        assert(cs@.take(i as int).last() == cs@[i - 1]);
        if cs[i - 1] == c {
            return Some(i - 1);
        }
        assert(cs@.take(i as int).drop_last() =~= cs@.take(i - 1));
        i = i - 1;
    }
    None
}

fn range_is(cs: &Vec<char>, from: usize, to: usize, lit: &[char]) -> (r: bool)
    requires
        from <= to <= cs@.len(),
    ensures
        r == (cs@.subrange(from as int, to as int) == lit@),
{
    if to - from != lit.len() {
        assert(cs@.subrange(from as int, to as int).len() != lit@.len());
        return false;
    }
    let mut i: usize = 0;
    while i < lit.len()
        invariant
            from <= to <= cs@.len(),
            to - from == lit@.len(),
            i <= lit@.len(),
            forall|j: int| 0 <= j < i ==> cs@[from + j] == lit@[j],
        decreases lit.len() - i,
    {
        if cs[from + i] != lit[i] {
            assert(cs@.subrange(from as int, to as int)[i as int] != lit@[i as int]);
            return false;
        }
        i = i + 1;
    }
    assert(cs@.subrange(from as int, to as int) =~= lit@);
    true
}

/// The extension of the file that `path` names, as `Path::extension` finds it.
pub fn extension_of(path: &str) -> (r: Option<String>)
    ensures
        match r {
            Some(e) => path_extension(path@) == Some(e@),
            None => path_extension(path@) is None,
        },
{
    let cs = chars_of(path);
    let mut end = cs.len();
    let dot: [char; 1] = ['.'];
    let dots: [char; 2] = ['.', '.'];
    assert(dot@ =~= seq!['.']);
    assert(dots@ =~= seq!['.', '.']);
    assert(cs@.take(end as int) =~= cs@);
    loop
        invariant
            end <= cs@.len(),
            cs@ == path@,
            dot@ == seq!['.'],
            dots@ == seq!['.', '.'],
            file_name(cs@) == file_name(cs@.take(end as int)),
        decreases end,
    {
        let ghost s = cs@.take(end as int);
        proof {
            lemma_last_index_bounds(s, '/');
        }
        let k = last_index(&cs, end, '/');
        let start = match k {
            Some(k) => k + 1,
            None => 0,
        };
        assert(s.subrange(start as int, s.len() as int) =~= cs@.subrange(start as int, end as int));
        if start == end || range_is(&cs, start, end, &dot) {
            match k {
                None => {
                    return None;
                },
                Some(k) => {
                    assert(s.take(k as int) =~= cs@.take(k as int));
                    end = k;
                },
            }
        } else if range_is(&cs, start, end, &dots) {
            return None;
        } else {
            let ghost name = cs@.subrange(start as int, end as int);
            assert(file_name(cs@) == Some(name));
            let d = last_index(&cs, end, '.');
            proof {
                lemma_last_index_bounds(name, '.');
                lemma_last_index_bounds(s, '.');
            }
            match d {
                Some(d) => {
                    if d <= start {
                        // either no dot in the name, or the name opens with its only dot
                        assert(forall|j: int| start <= j < end ==> cs@[j] == s[j]);
                        assert(last_index_of(name, '.') <= 0) by {
                            let m = last_index_of(name, '.');
                            if m > 0 {
                                assert(name[m] == cs@[start + m]);
                                assert(s[start + m] == '.');
                            }
                        }
                        return None;
                    } else {
                        assert(last_index_of(name, '.') == d - start) by {
                            let m = last_index_of(name, '.');
                            assert(name[d - start] == '.');
                            if m >= 0 {
                                assert(name[m] == s[start + m]);
                            }
                        }
                        assert(name.subrange(d - start + 1, name.len() as int) =~= cs@.subrange(
                            d + 1,
                            end as int,
                        ));
                        let e = crate::text::string_from_chars(&cs, d + 1, end);
                        return Some(e);
                    }
                },
                None => {
                    assert(last_index_of(name, '.') == -1) by {
                        let m = last_index_of(name, '.');
                        if m >= 0 {
                            assert(name[m] == s[start + m]);
                        }
                    }
                    return None;
                },
            }
        }
    }
}

/// Whether the path names a shared library, judged by its extension
/// (`so`, `dll` or `dylib`).
pub fn is_dynamic_lib(path: &str) -> (r: bool)
    ensures
        r == (path_extension(path@) matches Some(e) && is_library_extension(e)),
        r == (path_extension(path@) matches Some(e) && (e == "so"@ || e == "dll"@ || e == "dylib"@)),
{
    proof {
        if let Some(e) = path_extension(path@) {
            lemma_library_extensions(e);
        }
    }
    match extension_of(path) {
        Some(e) => {
            let cs = chars_of(e.as_str());
            let so: [char; 2] = ['s', 'o'];
            let dll: [char; 3] = ['d', 'l', 'l'];
            let dylib: [char; 5] = ['d', 'y', 'l', 'i', 'b'];
            assert(so@ =~= seq!['s', 'o']);
            assert(dll@ =~= seq!['d', 'l', 'l']);
            assert(dylib@ =~= seq!['d', 'y', 'l', 'i', 'b']);
            assert(cs@.subrange(0, cs@.len() as int) =~= cs@);
            range_is(&cs, 0, cs.len(), &so) || range_is(&cs, 0, cs.len(), &dll) || range_is(
                &cs,
                0,
                cs.len(),
                &dylib,
            )
        },
        None => false,
    }
}

/// Whether a plugin built against interface version `version` can be loaded.
pub fn plugin_version_supported(version: u32) -> (r: bool)
    ensures
        r == (version == API_VERSION),
{
    version == API_VERSION
}

} // verus!
