//! Paths as text: `/`-separated segments, file names, extensions, and the
//! public URI that a file under an asset root is served at.
use crate::error::PipelineError;
use vstd::prelude::*;

verus! {

/// Scans a path left to right, splitting it on `/`: the segments completed
/// so far and the segment being read. Empty segments are dropped.
pub open spec fn split_state(s: Seq<char>) -> (Seq<Seq<char>>, Seq<char>)
    decreases s.len(),
{
    if s.len() == 0 {
        (Seq::empty(), Seq::empty())
    } else {
        let (done, cur) = split_state(s.drop_last());
        if s.last() == '/' {
            if cur.len() == 0 {
                (done, cur)
            } else {
                (done.push(cur), Seq::empty())
            }
        } else {
            (done, cur.push(s.last()))
        }
    }
}

/// The non-empty `/`-separated segments of a path, in order.
pub open spec fn segments(s: Seq<char>) -> Seq<Seq<char>> {
    let (done, cur) = split_state(s);
    if cur.len() == 0 {
        done
    } else {
        done.push(cur)
    }
}

/// The views of a sequence of strings.
pub open spec fn views(v: Seq<String>) -> Seq<Seq<char>> {
    v.map_values(|x: String| x@)
}

/// Splits a path into its non-empty `/`-separated segments.
pub fn segments_of(s: &str) -> (r: Vec<String>)
    ensures
        views(r@) == segments(s@),
{
    let n = s.unicode_len();
    let mut done: Vec<String> = Vec::new();
    let mut cur = String::new();
    let mut i: usize = 0;
    while i < n
        invariant
            n == s@.len(),
            i <= n,
            (views(done@), cur@) == split_state(s@.subrange(0, i as int)),
        decreases n - i,
    {
        let c = s.get_char(i);
        proof {
            assert(s@.subrange(0, i + 1).drop_last() =~= s@.subrange(0, i as int));
        }
        if c == '/' {
            if !cur.as_str().is_empty() {
                let ghost old_done = done@;
                let ghost old_cur = cur@;
                done.push(cur);
                cur = String::new();
                proof {
                    assert(views(done@) =~= views(old_done).push(old_cur));
                }
            }
        } else {
            let piece = s.substring_char(i, i + 1);
            cur.append(piece);
        }
        i += 1;
    }
    proof {
        assert(s@.subrange(0, n as int) =~= s@);
    }
    if !cur.as_str().is_empty() {
        let ghost old_done = done@;
        let ghost old_cur = cur@;
        done.push(cur);
        proof {
            assert(views(done@) =~= views(old_done).push(old_cur));
        }
    }
    done
}


/// Whether a path starts at the file system root.
pub open spec fn is_absolute(s: Seq<char>) -> bool {
    s.len() > 0 && s[0] == '/'
}

/// Segments joined with a `/` between each two.
pub open spec fn joined(segs: Seq<Seq<char>>) -> Seq<char>
    decreases segs.len(),
{
    if segs.len() == 0 {
        Seq::empty()
    } else if segs.len() == 1 {
        segs[0]
    } else {
        joined(segs.drop_last()) + seq!['/'] + segs.last()
    }
}

/// Index of the last `.` in a name, or -1 where it has none.
pub open spec fn last_dot(name: Seq<char>) -> int
    decreases name.len(),
{
    if name.len() == 0 {
        -1
    } else if name.last() == '.' {
        name.len() - 1
    } else {
        last_dot(name.drop_last())
    }
}

/// The extension of a file name: what follows its last `.`. A name without
/// a `.`, or whose only `.` is its first character, has none.
pub open spec fn name_extension(name: Seq<char>) -> Option<Seq<char>> {
    let i = last_dot(name);
    if i <= 0 {
        None
    } else {
        Some(name.subrange(i + 1, name.len() as int))
    }
}

/// The last segment of a path.
pub open spec fn file_name(s: Seq<char>) -> Option<Seq<char>> {
    let segs = segments(s);
    if segs.len() == 0 {
        None
    } else {
        Some(segs.last())
    }
}

/// The extension of a path's file name.
pub open spec fn path_extension(s: Seq<char>) -> Option<Seq<char>> {
    match file_name(s) {
        Some(name) => name_extension(name),
        None => None,
    }
}

/// The segments of `path` that follow those of `root`, where `path` lies
/// under `root` (the same segments first, both absolute or both relative).
pub open spec fn relative_segments(path: Seq<char>, root: Seq<char>) -> Option<Seq<Seq<char>>> {
    let p = segments(path);
    let r = segments(root);
    if is_absolute(path) == is_absolute(root) && r.len() <= p.len() && p.subrange(0, r.len() as int)
        == r {
        Some(p.subrange(r.len() as int, p.len() as int))
    } else {
        None
    }
}

/// `path` written relative to `root`, without a leading `/`.
pub open spec fn relative_path(path: Seq<char>, root: Seq<char>) -> Option<Seq<char>> {
    match relative_segments(path, root) {
        Some(rel) => Some(joined(rel)),
        None => None,
    }
}

/// The name that a directory's own page is served under.
pub open spec fn index_page() -> Seq<char> {
    seq!['i', 'n', 'd', 'e', 'x', '.', 'h', 't', 'm', 'l']
}

/// The segments of a URI: the prefix's, then the relative path's. For a web
/// asset, a trailing `index.html` is dropped, so the page is served at its
/// directory.
pub open spec fn uri_segments(prefix: Seq<char>, rel: Seq<Seq<char>>, web: bool) -> Seq<Seq<char>> {
    let all = segments(prefix) + rel;
    if web && all.len() > 0 && all.last() == index_page() {
        all.drop_last()
    } else {
        all
    }
}

/// The public URI of the file at `path` under the asset root `root`.
pub open spec fn normalized(path: Seq<char>, root: Seq<char>, prefix: Seq<char>, web: bool) -> Option<
    Seq<char>,
> {
    match relative_segments(path, root) {
        Some(rel) => Some(seq!['/'] + joined(uri_segments(prefix, rel, web))),
        None => None,
    }
}

/// Whether a path starts at the file system root.
pub fn path_is_absolute(s: &str) -> (r: bool)
    ensures
        r == is_absolute(s@),
{
    if s.is_empty() {
        false
    } else {
        s.get_char(0) == '/'
    }
}

/// Joins segments with a `/` between each two.
pub fn join_segments(segs: &Vec<String>) -> (r: String)
    ensures
        r@ == joined(views(segs@)),
{
    let mut out = String::new();
    let mut i: usize = 0;
    while i < segs.len()
        invariant
            i <= segs.len(),
            out@ == joined(views(segs@).take(i as int)),
        decreases segs.len() - i,
    {
        proof {
            assert(views(segs@).take(i + 1).drop_last() =~= views(segs@).take(i as int));
        }
        if i > 0 {
            out.append("/");
            proof {
                reveal_strlit("/");
            }
        }
        out.append(segs[i].as_str());
        proof {
            if i == 0 {
                assert(out@ =~= joined(views(segs@).take(1)));
            } else {
                assert(out@ =~= joined(views(segs@).take(i + 1)));
            }
        }
        i += 1;
    }
    proof {
        assert(views(segs@).take(segs.len() as int) =~= views(segs@));
    }
    out
}

/// The extension of the file name of a path.
pub fn extension_of(path: &str) -> (r: Option<String>)
    ensures
        match r {
            Some(e) => path_extension(path@) == Some(e@),
            None => path_extension(path@).is_none(),
        },
{
    let segs = segments_of(path);
    if segs.len() == 0 {
        return None;
    }
    let name = segs[segs.len() - 1].as_str();
    proof {
        assert(name@ == segments(path@).last());
    }
    let n = name.unicode_len();
    let mut found: Option<usize> = None;
    let mut i: usize = 0;
    while i < n
        invariant
            n == name@.len(),
            i <= n,
            match found {
                Some(j) => last_dot(name@.take(i as int)) == j && j < i,
                None => last_dot(name@.take(i as int)) == -1,
            },
        decreases n - i,
    {
        proof {
            assert(name@.take(i + 1).drop_last() =~= name@.take(i as int));
        }
        if name.get_char(i) == '.' {
            found = Some(i);
        }
        i += 1;
    }
    proof {
        assert(name@.take(n as int) =~= name@);
    }
    match found {
        Some(j) => {
            if j == 0 {
                None
            } else {
                Some(String::from_str(name.substring_char(j + 1, n)))
            }
        },
        None => None,
    }
}


/// The segments of `path` that follow those of `root`, where `path` lies
/// under `root`.
pub fn relative_segments_of(path: &str, root: &str) -> (r: Option<Vec<String>>)
    ensures
        match r {
            Some(v) => relative_segments(path@, root@) == Some(views(v@)),
            None => relative_segments(path@, root@).is_none(),
        },
{
    if path_is_absolute(path) != path_is_absolute(root) {
        return None;
    }
    let p = segments_of(path);
    let rt = segments_of(root);
    if rt.len() > p.len() {
        return None;
    }
    let mut i: usize = 0;
    while i < rt.len()
        invariant
            rt.len() <= p.len(),
            i <= rt.len(),
            views(p@) == segments(path@),
            views(rt@) == segments(root@),
            is_absolute(path@) == is_absolute(root@),
            views(p@).take(i as int) == views(rt@).take(i as int),
        decreases rt.len() - i,
    {
        if p[i] != rt[i] {
            proof {
                assert(views(p@)[i as int] == p@[i as int]@);
                assert(views(rt@)[i as int] == rt@[i as int]@);
                assert(views(p@).subrange(0, rt.len() as int)[i as int] != views(rt@)[i as int]);
                assert(views(p@).subrange(0, rt.len() as int) != views(rt@));
            }
            return None;
        }
        proof {
            assert(views(p@).take(i + 1) =~= views(p@).take(i as int).push(p@[i as int]@));
            assert(views(rt@).take(i + 1) =~= views(rt@).take(i as int).push(rt@[i as int]@));
        }
        i += 1;
    }
    proof {
        assert(views(rt@).take(rt.len() as int) =~= views(rt@));
    }
    let mut rel: Vec<String> = Vec::new();
    let mut k: usize = rt.len();
    while k < p.len()
        invariant
            rt.len() <= k <= p.len(),
            relative_segments(path@, root@) == Some(views(p@).subrange(rt.len() as int, p.len() as int)),
            views(rel@) == views(p@).subrange(rt.len() as int, k as int),
        decreases p.len() - k,
    {
        let seg = p[k].clone();
        let ghost before = views(rel@);
        rel.push(seg);
        proof {
            assert(views(rel@) =~= before.push(p@[k as int]@));
            assert(views(p@)[k as int] == p@[k as int]@);
            assert(views(rel@) =~= views(p@).subrange(rt.len() as int, k + 1));
        }
        k += 1;
    }
    Some(rel)
}

/// `path` written relative to `root`, without a leading `/`.
pub fn relative_path_of(path: &str, root: &str) -> (r: Option<String>)
    ensures
        match r {
            Some(s) => relative_path(path@, root@) == Some(s@),
            None => relative_path(path@, root@).is_none(),
        },
{
    match relative_segments_of(path, root) {
        Some(rel) => Some(join_segments(&rel)),
        None => None,
    }
}

/// The public URI of the file at `path` under the asset root `root`: `/`,
/// then the prefix, then the path relative to the root. For a web asset an
/// `index.html` is served at its directory's URI.
pub fn normalize_path(path: &str, root: &str, prefix: &str, web: bool) -> (r: Result<
    String,
    PipelineError,
>)
    ensures
        match r {
            Ok(uri) => normalized(path@, root@, prefix@, web) == Some(uri@),
            Err(e) => e == PipelineError::PathError && normalized(path@, root@, prefix@, web).is_none(),
        },
{
    let rel = match relative_segments_of(path, root) {
        Some(v) => v,
        None => {
            return Err(PipelineError::PathError);
        },
    };
    let mut all = segments_of(prefix);
    let ghost pre = views(all@);
    let mut k: usize = 0;
    while k < rel.len()
        invariant
            k <= rel.len(),
            views(all@) == pre + views(rel@).take(k as int),
        decreases rel.len() - k,
    {
        let seg = rel[k].clone();
        let ghost before = views(all@);
        all.push(seg);
        proof {
            assert(views(all@) =~= before.push(rel@[k as int]@));
            assert(views(rel@)[k as int] == rel@[k as int]@);
            assert(views(all@) =~= pre + views(rel@).take(k + 1));
        }
        k += 1;
    }
    proof {
        assert(views(rel@).take(rel.len() as int) =~= views(rel@));
    }
    if web && all.len() > 0 {
        let page = String::from_str("index.html");
        proof {
            reveal_strlit("index.html");
            assert(page@ =~= index_page());
        }
        if all[all.len() - 1] == page {
            let ghost before = views(all@);
            all.pop();
            proof {
                assert(views(all@) =~= before.drop_last());
            }
        }
    }
    let mut uri = String::from_str("/");
    proof {
        reveal_strlit("/");
    }
    let rest = join_segments(&all);
    uri.append(rest.as_str());
    Ok(uri)
}


/// After a `/`, the segments read so far are complete and none is pending.
proof fn lemma_split_after_slash(s: Seq<char>)
    ensures
        split_state(s.push('/')) == (segments(s), Seq::<char>::empty()),
{
    assert(s.push('/').drop_last() =~= s);
}

/// Characters other than `/` read after a `/` form the pending segment.
proof fn lemma_split_name_prefix(s: Seq<char>, name: Seq<char>, k: int)
    requires
        0 <= k <= name.len(),
        forall|i: int| 0 <= i < name.len() ==> name[i] != '/',
    ensures
        split_state(s.push('/') + name.take(k)) == (segments(s), name.take(k)),
    decreases k,
{
    if k == 0 {
        assert(s.push('/') + name.take(0) =~= s.push('/'));
        lemma_split_after_slash(s);
        assert(name.take(0) =~= Seq::<char>::empty());
    } else {
        lemma_split_name_prefix(s, name, k - 1);
        assert((s.push('/') + name.take(k)).drop_last() =~= s.push('/') + name.take(k - 1));
        assert(name.take(k - 1).push(name[k - 1]) =~= name.take(k));
    }
}

/// Appending `/` and a name without `/` adds the name as the last segment.
pub proof fn lemma_segments_append_name(s: Seq<char>, name: Seq<char>)
    requires
        name.len() > 0,
        forall|i: int| 0 <= i < name.len() ==> name[i] != '/',
    ensures
        segments(s + seq!['/'] + name) == segments(s).push(name),
{
    lemma_split_name_prefix(s, name, name.len() as int);
    assert(s + seq!['/'] + name =~= s.push('/') + name.take(name.len() as int));
    assert(name.take(name.len() as int) =~= name);
}

/// Characters other than `/` appended to a path that ends in a segment
/// extend that segment.
proof fn lemma_split_extend(s: Seq<char>, tail: Seq<char>, k: int)
    requires
        0 <= k <= tail.len(),
        forall|i: int| 0 <= i < tail.len() ==> tail[i] != '/',
    ensures
        split_state(s + tail.take(k)) == (split_state(s).0, split_state(s).1 + tail.take(k)),
    decreases k,
{
    if k == 0 {
        assert(s + tail.take(0) =~= s);
        assert(split_state(s).1 + tail.take(0) =~= split_state(s).1);
    } else {
        lemma_split_extend(s, tail, k - 1);
        assert((s + tail.take(k)).drop_last() =~= s + tail.take(k - 1));
        assert((split_state(s).1 + tail.take(k - 1)).push(tail[k - 1]) =~= split_state(s).1
            + tail.take(k));
    }
}

/// The last `.` of a name followed by characters other than `.` is found.
proof fn lemma_last_dot_before(stem: Seq<char>, ext: Seq<char>, k: int)
    requires
        0 <= k <= ext.len(),
        forall|i: int| 0 <= i < ext.len() ==> ext[i] != '.',
    ensures
        last_dot(stem + seq!['.'] + ext.take(k)) == stem.len(),
    decreases k,
{
    if k == 0 {
        assert(stem + seq!['.'] + ext.take(0) =~= stem.push('.'));
    } else {
        lemma_last_dot_before(stem, ext, k - 1);
        assert((stem + seq!['.'] + ext.take(k)).drop_last() =~= stem + seq!['.'] + ext.take(k - 1));
    }
}

/// A path that ends in a segment, with `.` and an extension appended, has
/// that extension.
pub proof fn lemma_extension_after_suffix(file: Seq<char>, ext: Seq<char>)
    requires
        file.len() > 0,
        file.last() != '/',
        forall|i: int| 0 <= i < ext.len() ==> ext[i] != '/' && ext[i] != '.',
    ensures
        path_extension(file + seq!['.'] + ext) == Some(ext),
{
    let tail = seq!['.'] + ext;
    assert forall|i: int| 0 <= i < tail.len() implies tail[i] != '/' by {
        if i > 0 {
            assert(tail[i] == ext[i - 1]);
        }
    }
    lemma_split_extend(file, tail, tail.len() as int);
    assert(tail.take(tail.len() as int) =~= tail);
    assert(file + seq!['.'] + ext =~= file + tail);
    let stem = split_state(file).1;
    assert(stem.len() > 0);
    let name = stem + tail;
    assert(segments(file + tail) == split_state(file).0.push(name));
    lemma_last_dot_before(stem, ext, ext.len() as int);
    assert(ext.take(ext.len() as int) =~= ext);
    assert(stem + seq!['.'] + ext =~= name);
    assert(name.subrange(stem.len() as int + 1, name.len() as int) =~= ext);
}

/// Every URI starts with `/`.
pub proof fn lemma_uri_starts_with_slash(path: Seq<char>, root: Seq<char>, prefix: Seq<char>, web: bool)
    requires
        normalized(path, root, prefix, web).is_some(),
    ensures
        normalized(path, root, prefix, web).unwrap().len() > 0,
        normalized(path, root, prefix, web).unwrap()[0] == '/',
{
}

/// For a web asset, the `index.html` of a directory under the root is
/// served at the URI of the directory itself.
pub proof fn lemma_index_served_at_directory(dir: Seq<char>, root: Seq<char>, prefix: Seq<char>)
    requires
        dir.len() > 0,
        relative_segments(dir, root).is_some(),
    ensures
        normalized(dir + seq!['/'] + index_page(), root, prefix, true) == normalized(
            dir,
            root,
            prefix,
            false,
        ),
{
    let page = index_page();
    let file = dir + seq!['/'] + page;
    assert forall|i: int| 0 <= i < page.len() implies page[i] != '/' by {}
    lemma_segments_append_name(dir, page);
    assert(file[0] == dir[0]);
    let p = segments(dir);
    let r = segments(root);
    let rel = p.subrange(r.len() as int, p.len() as int);
    assert(segments(file).subrange(0, r.len() as int) =~= p.subrange(0, r.len() as int));
    assert(segments(file).subrange(r.len() as int, segments(file).len() as int) =~= rel.push(page));
    assert(segments(prefix) + rel.push(page) =~= (segments(prefix) + rel).push(page));
    assert((segments(prefix) + rel).push(page).drop_last() =~= segments(prefix) + rel);
}

} // verus!
