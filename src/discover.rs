use vstd::prelude::*;

verus! {

/// The last path component: the text after the last `/`.
pub open spec fn file_name(p: Seq<char>) -> Seq<char>
    decreases p.len(),
{
    if p.len() == 0 {
        p
    } else if p.last() == '/' {
        Seq::empty()
    } else {
        file_name(p.drop_last()).push(p.last())
    }
}

/// The text after the last `.` of a name, if it holds one.
pub open spec fn after_last_dot(n: Seq<char>) -> Option<Seq<char>>
    decreases n.len(),
{
    if n.len() == 0 {
        None
    } else if n.last() == '.' {
        Some(Seq::empty())
    } else {
        match after_last_dot(n.drop_last()) {
            Some(e) => Some(e.push(n.last())),
            None => None,
        }
    }
}

/// A path's extension: what follows the last `.` of its file name, unless
/// that dot is the name's first character.
pub open spec fn path_extension(p: Seq<char>) -> Option<Seq<char>> {
    let name = file_name(p);
    match after_last_dot(name) {
        Some(e) => if e.len() + 1 < name.len() {
            Some(e)
        } else {
            None
        },
        None => None,
    }
}

/// `c` is the lower-case ASCII letter `l` in either case, or `l` itself.
pub open spec fn same_letter(c: char, l: char) -> bool {
    c == l || ('a' <= l && l <= 'z' && c as u32 + 32 == l as u32)
}

/// `s` spells `lower` with ASCII letters in any case.
pub open spec fn eq_ignore_ascii_case(s: Seq<char>, lower: Seq<char>) -> bool {
    s.len() == lower.len() && forall|i: int| 0 <= i < s.len() ==> same_letter(#[trigger] s[i], lower[i])
}

/// The image extensions a batch keeps, compared without regard to ASCII case.
pub open spec fn is_supported_extension(e: Seq<char>) -> bool {
    ||| eq_ignore_ascii_case(e, "jpg"@)
    ||| eq_ignore_ascii_case(e, "jpeg"@)
    ||| eq_ignore_ascii_case(e, "heic"@)
    ||| eq_ignore_ascii_case(e, "heif"@)
    ||| eq_ignore_ascii_case(e, "tiff"@)
}

pub open spec fn is_supported_path(p: Seq<char>) -> bool {
    path_extension(p) matches Some(e) && is_supported_extension(e)
}

proof fn lemma_file_name_suffix(p: Seq<char>, j: int)
    requires
        0 <= j <= p.len(),
        forall|k: int| j <= k < p.len() ==> p[k] != '/',
    ensures
        file_name(p) == file_name(p.subrange(0, j)) + p.subrange(j, p.len() as int),
    decreases p.len() - j,
{
    if j == p.len() {
        assert(p.subrange(0, j) == p);
        assert(file_name(p) + Seq::<char>::empty() == file_name(p));
    } else {
        let d = p.drop_last();
        lemma_file_name_suffix(d, j);
        assert(d.subrange(0, j) == p.subrange(0, j));
        assert(d.subrange(j, d.len() as int).push(p.last()) == p.subrange(j, p.len() as int));
        assert((file_name(d.subrange(0, j)) + d.subrange(j, d.len() as int)).push(p.last())
            == file_name(d.subrange(0, j)) + d.subrange(j, d.len() as int).push(p.last()));
    }
}

proof fn lemma_after_last_dot_suffix(n: Seq<char>, j: int)
    requires
        0 <= j <= n.len(),
        forall|k: int| j <= k < n.len() ==> n[k] != '.',
    ensures
        after_last_dot(n) == match after_last_dot(n.subrange(0, j)) {
            Some(e) => Some(e + n.subrange(j, n.len() as int)),
            None => None::<Seq<char>>,
        },
    decreases n.len() - j,
{
    if j == n.len() {
        assert(n.subrange(0, j) == n);
        if let Some(e) = after_last_dot(n) {
            assert(e + Seq::<char>::empty() == e);
        }
    } else {
        let d = n.drop_last();
        lemma_after_last_dot_suffix(d, j);
        assert(d.subrange(0, j) == n.subrange(0, j));
        assert(d.subrange(j, d.len() as int).push(n.last()) == n.subrange(j, n.len() as int));
        if let Some(e) = after_last_dot(n.subrange(0, j)) {
            assert((e + d.subrange(j, d.len() as int)).push(n.last())
                == e + d.subrange(j, d.len() as int).push(n.last()));
        }
    }
}

proof fn lemma_file_name_empty(p: Seq<char>)
    ensures
        (file_name(p).len() == 0) == (p.len() == 0 || p.last() == '/'),
{
}

proof fn lemma_no_dot(n: Seq<char>)
    requires
        forall|k: int| 0 <= k < n.len() ==> n[k] != '.',
    ensures
        after_last_dot(n) is None,
{
    lemma_after_last_dot_suffix(n, 0);
}

/// Whether `s[from..]` spells `lower` with ASCII letters in any case.
fn tail_matches(s: &str, from: usize, lower: &str) -> (r: bool)
    requires
        from <= s@.len(),
    ensures
        r == eq_ignore_ascii_case(s@.subrange(from as int, s@.len() as int), lower@),
{
    let n = s.unicode_len();
    let m = lower.unicode_len();
    if n - from != m {
        return false;
    }
    let ghost t = s@.subrange(from as int, s@.len() as int);
    let mut i: usize = 0;
    while i < m
        invariant
            n == s@.len(),
            m == lower@.len(),
            n - from == m,
            from <= n,
            t == s@.subrange(from as int, n as int),
            0 <= i <= m,
            forall|k: int| 0 <= k < i ==> same_letter(#[trigger] t[k], lower@[k]),
        decreases m - i,
    {
        let c = s.get_char(from + i);
        let l = lower.get_char(i);
        let same = c == l || ('a' <= l && l <= 'z' && (c as u32) + 32 == l as u32);
        if !same {
            assert(!same_letter(t[i as int], lower@[i as int]));
            return false;
        }
        i = i + 1;
    }
    true
}

/// Whether the path names a supported image file: its extension is one of
/// jpg, jpeg, heic, heif or tiff, in any ASCII case.
pub fn is_supported_file(path: &str) -> (r: bool)
    ensures
        r == is_supported_path(path@),
{
    let n = path.unicode_len();
    let ghost p = path@;
    let mut j: usize = n;
    while j > 0
        invariant
            n == p.len(),
            p == path@,
            j <= n,
            forall|k: int| j <= k < n ==> p[k] != '/' && p[k] != '.',
        ensures
            j <= n,
            forall|k: int| j <= k < n ==> p[k] != '/' && p[k] != '.',
            j > 0 ==> p[j - 1] == '/' || p[j - 1] == '.',
        decreases j,
    {
        let c = path.get_char(j - 1);
        if c == '/' || c == '.' {
            break;
        }
        j = j - 1;
    }
    proof {
        lemma_file_name_suffix(p, j as int);
    }
    if j == 0 {
        proof {
            assert(p.subrange(0, 0).len() == 0);
            assert(p.subrange(0, n as int) == p);
            lemma_no_dot(file_name(p));
        }
        return false;
    }
    let c = path.get_char(j - 1);
    if c == '/' {
        proof {
            let q = p.subrange(0, j as int);
            assert(q.last() == '/');
            assert(file_name(q).len() == 0);
            assert(file_name(p) == Seq::<char>::empty() + p.subrange(j as int, n as int));
            assert(Seq::<char>::empty() + p.subrange(j as int, n as int) == p.subrange(j as int, n as int));
            lemma_no_dot(file_name(p));
        }
        return false;
    }
    let at_name_start = j == 1 || path.get_char(j - 2) == '/';
    proof {
        let q = p.subrange(0, j as int);
        let f = file_name(q.drop_last());
        let s = p.subrange(j as int, n as int);
        assert(q.last() == '.');
        assert(q.drop_last() == p.subrange(0, j - 1));
        lemma_file_name_empty(q.drop_last());
        let name = file_name(p);
        assert(name == f.push('.') + s);
        lemma_after_last_dot_suffix(name, f.len() + 1int);
        assert(name.subrange(0, f.len() + 1int) == f.push('.'));
        assert(name.subrange(f.len() + 1int, name.len() as int) == s);
        assert(after_last_dot(f.push('.')) == Some(Seq::<char>::empty()));
        assert(Seq::<char>::empty() + s == s);
        assert(path_extension(p) == if f.len() > 0 { Some(s) } else { None::<Seq<char>> });
    }
    if at_name_start {
        return false;
    }
    proof {
        reveal_strlit("jpg");
        reveal_strlit("jpeg");
        reveal_strlit("heic");
        reveal_strlit("heif");
        reveal_strlit("tiff");
    }
    tail_matches(path, j, "jpg") || tail_matches(path, j, "jpeg") || tail_matches(path, j, "heic")
        || tail_matches(path, j, "heif") || tail_matches(path, j, "tiff")
}

/// Keeps the files whose path has a supported extension.
pub open spec fn supported_file() -> spec_fn(String) -> bool {
    |f: String| is_supported_path(f@)
}

/// The files of a run: in directory-batch mode, the walked files whose
/// extension is supported, in walk order; otherwise the given path alone.
pub open spec fn discovered(root: String, batch_dir: bool, walked: Seq<String>) -> Seq<String> {
    if batch_dir {
        walked.filter(supported_file())
    } else {
        seq![root]
    }
}

/// Decides which files a run processes. `batch_dir` is set when batch mode
/// was asked for and the root is a directory; `walked` then lists the files
/// found under it.
pub fn discover_files(root: String, batch_dir: bool, walked: &Vec<String>) -> (r: Vec<String>)
    ensures
        r@ == discovered(root, batch_dir, walked@),
{
    if !batch_dir {
        return vec![root];
    }
    let mut out: Vec<String> = Vec::new();
    let mut i: usize = 0;
    while i < walked.len()
        invariant
            0 <= i <= walked@.len(),
            out@ == walked@.subrange(0, i as int).filter(supported_file()),
        decreases walked@.len() - i,
    {
        let f = &walked[i];
        proof {
            let next = walked@.subrange(0, i + 1);
            assert(next.drop_last() == walked@.subrange(0, i as int));
            assert(next.last() == walked@[i as int]);
            reveal_with_fuel(Seq::filter, 1);
        }
        let keep = is_supported_file(f.as_str());
        assert(keep == supported_file()(walked@[i as int]));
        if keep {
            out.push(f.clone());
        }
        assert(out@ == walked@.subrange(0, i + 1).filter(supported_file()));
        i = i + 1;
    }
    assert(walked@.subrange(0, walked@.len() as int) == walked@);
    out
}

/// A directory walk with no supported file discovers nothing.
pub proof fn lemma_no_supported_files(root: String, walked: Seq<String>)
    requires
        forall|i: int| 0 <= i < walked.len() ==> !is_supported_path(#[trigger] walked[i]@),
    ensures
        discovered(root, true, walked).len() == 0,
{
    walked.lemma_all_neg_filter_empty(supported_file());
}

} // verus!
