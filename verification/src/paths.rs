use vstd::prelude::*;

verus! {

/// The position just past the last `/` of a path, or 0 where the path
/// holds no `/`.
pub open spec fn base_name_start(p: Seq<char>) -> int
    decreases p.len(),
{
    if p.len() == 0 {
        0
    } else if p[p.len() - 1] == '/' {
        p.len() as int
    } else {
        base_name_start(p.drop_last())
    }
}

/// The length of the path without its trailing `/` separators: a path's
/// base name ends here, as separators after the final segment do not start
/// a new one.
pub open spec fn trim_slashes_end(p: Seq<char>) -> int
    decreases p.len(),
{
    if p.len() > 0 && p[p.len() - 1] == '/' {
        trim_slashes_end(p.drop_last())
    } else {
        p.len() as int
    }
}

/// The final path segment: the part after the last `/`, trailing
/// separators not counted. A path of separators alone has none.
pub open spec fn base_name_of(p: Seq<char>) -> Seq<char> {
    let t = p.subrange(0, trim_slashes_end(p));
    t.subrange(base_name_start(t), t.len() as int)
}

/// The sibling path: the same parent directory, with the base name
/// replaced by `name`.
pub open spec fn with_base_name(p: Seq<char>, name: Seq<char>) -> Seq<char> {
    let t = p.subrange(0, trim_slashes_end(p));
    t.subrange(0, base_name_start(t)) + name
}

/// The first position at or after `i` that does not hold a `/`, or the
/// path's end.
pub open spec fn skip_slashes(p: Seq<char>, i: int) -> int
    decreases p.len() - i,
{
    if 0 <= i && i < p.len() && p[i] == '/' {
        skip_slashes(p, i + 1)
    } else {
        i
    }
}

/// The path with the working-directory prefix stripped where it is
/// present, and otherwise unchanged. The prefix ends at a separator, and
/// all consecutive separators there are stripped with it, so the remainder
/// never begins with one. An empty `cwd` stands for a working directory
/// that could not be determined: nothing is stripped.
pub open spec fn relate_spec(p: Seq<char>, cwd: Seq<char>) -> Seq<char> {
    if cwd.len() == 0 {
        p
    } else if p == cwd {
        Seq::empty()
    } else if cwd.len() < p.len() && p.subrange(0, cwd.len() as int) == cwd && p[cwd.len() as int]
        == '/' {
        p.subrange(skip_slashes(p, cwd.len() as int), p.len() as int)
    } else {
        p
    }
}

/// The base name starts inside the path.
pub proof fn lemma_base_name_start_bounds(p: Seq<char>)
    ensures
        0 <= base_name_start(p) <= p.len(),
    decreases p.len(),
{
    if p.len() == 0 {
    } else if p[p.len() - 1] == '/' {
    } else {
        lemma_base_name_start_bounds(p.drop_last());
    }
}

/// The trimmed end lies inside the path.
pub proof fn lemma_trim_slashes_end_bounds(p: Seq<char>)
    ensures
        0 <= trim_slashes_end(p) <= p.len(),
    decreases p.len(),
{
    if p.len() > 0 && p[p.len() - 1] == '/' {
        lemma_trim_slashes_end_bounds(p.drop_last());
    }
}

/// Where everything from `e` on is a `/` and what precedes `e` is not, the
/// trimmed end is `e`.
proof fn lemma_trim_slashes_end_at(p: Seq<char>, e: int)
    requires
        0 <= e <= p.len(),
        forall|j: int| e <= j < p.len() ==> p[j] == '/',
        e > 0 ==> p[e - 1] != '/',
    ensures
        trim_slashes_end(p) == e,
    decreases p.len(),
{
    if e == p.len() {
    } else {
        assert(p[p.len() - 1] == '/');
        assert(e > 0 ==> p.drop_last()[e - 1] != '/');
        lemma_trim_slashes_end_at(p.drop_last(), e);
    }
}

/// Where `p[i]` is the last `/` of the path, the base name starts right
/// after it.
proof fn lemma_base_name_start_at(p: Seq<char>, i: int)
    requires
        0 <= i < p.len(),
        p[i] == '/',
        forall|j: int| i < j < p.len() ==> p[j] != '/',
    ensures
        base_name_start(p) == i + 1,
    decreases p.len(),
{
    if i == p.len() - 1 {
    } else {
        assert(p[p.len() - 1] != '/');
        assert(p.drop_last()[i] == '/');
        lemma_base_name_start_at(p.drop_last(), i);
    }
}

/// A path without any `/` is all base name.
proof fn lemma_base_name_start_none(p: Seq<char>)
    requires
        forall|j: int| 0 <= j < p.len() ==> p[j] != '/',
    ensures
        base_name_start(p) == 0,
    decreases p.len(),
{
    if p.len() == 0 {
    } else {
        lemma_base_name_start_none(p.drop_last());
    }
}

/// Skipping separators lands inside the path, on the first position that
/// holds none.
proof fn lemma_skip_slashes_props(p: Seq<char>, i: int)
    requires
        0 <= i <= p.len(),
    ensures
        i <= skip_slashes(p, i) <= p.len(),
        skip_slashes(p, i) < p.len() ==> p[skip_slashes(p, i)] != '/',
    decreases p.len() - i,
{
    if i < p.len() && p[i] == '/' {
        lemma_skip_slashes_props(p, i + 1);
    }
}

/// Where the base name starts in the given path.
pub fn base_name_start_exec(p: &str) -> (r: usize)
    ensures
        r as int == base_name_start(p@),
{
    let n = p.unicode_len();
    let mut i: usize = n;
    while i > 0
        invariant
            i <= n,
            n == p@.len(),
            forall|j: int| i <= j < n ==> p@[j] != '/',
        decreases i,
    {
        if p.get_char(i - 1) == '/' {
            proof {
                lemma_base_name_start_at(p@, i - 1);
            }
            return i;
        }
        i = i - 1;
    }
    proof {
        lemma_base_name_start_none(p@);
    }
    0
}

/// Where the path's trailing `/` separators begin.
pub fn trim_slashes_end_exec(p: &str) -> (r: usize)
    ensures
        r as int == trim_slashes_end(p@),
{
    let n = p.unicode_len();
    let mut e: usize = n;
    while e > 0
        invariant
            e <= n,
            n == p@.len(),
            forall|j: int| e <= j < n ==> p@[j] == '/',
        decreases e,
    {
        if p.get_char(e - 1) != '/' {
            proof {
                lemma_trim_slashes_end_at(p@, e as int);
            }
            return e;
        }
        e = e - 1;
    }
    proof {
        lemma_trim_slashes_end_at(p@, 0);
    }
    0
}

/// The final path segment of the given path.
pub fn base_name(p: &str) -> (r: String)
    ensures
        r@ == base_name_of(p@),
{
    let end = trim_slashes_end_exec(p);
    proof {
        lemma_trim_slashes_end_bounds(p@);
    }
    let t = p.substring_char(0, end);
    let start = base_name_start_exec(t);
    proof {
        lemma_base_name_start_bounds(t@);
    }
    t.substring_char(start, end).to_owned()
}

/// The sibling path of `p` whose base name is `name`.
pub fn with_file_name(p: &str, name: &str) -> (r: String)
    ensures
        r@ == with_base_name(p@, name@),
{
    let end = trim_slashes_end_exec(p);
    proof {
        lemma_trim_slashes_end_bounds(p@);
    }
    let t = p.substring_char(0, end);
    let start = base_name_start_exec(t);
    proof {
        lemma_base_name_start_bounds(t@);
    }
    let mut r = t.substring_char(0, start).to_owned();
    r.append(name);
    r
}

/// The path of a directory entry: the directory's path, a separator, and
/// the entry's base name.
pub fn join_child(dir: &str, name: &str) -> (r: String)
    ensures
        r@ == dir@ + seq!['/'] + name@,
{
    let mut r = dir.to_owned();
    r.append("/");
    r.append(name);
    proof {
        reveal_strlit("/");
        assert(r@ =~= dir@ + seq!['/'] + name@);
    }
    r
}

/// The Path Relativizer: strips the working-directory prefix from a path
/// for display, and returns any other path unchanged.
pub fn relate_path(path: &str, cwd: &str) -> (r: String)
    ensures
        r@ == relate_spec(path@, cwd@),
{
    let nl = path.unicode_len();
    let cl = cwd.unicode_len();
    if cl == 0 {
        return path.to_owned();
    }
    if nl == cl {
        if path.to_owned() == cwd.to_owned() {
            return String::new();
        }
        return path.to_owned();
    }
    if cl < nl {
        let pref = path.substring_char(0, cl);
        if pref.to_owned() == cwd.to_owned() && path.get_char(cl) == '/' {
            let mut j = cl;
            while j < nl && path.get_char(j) == '/'
                invariant
                    cl <= j <= nl,
                    nl == path@.len(),
                    skip_slashes(path@, cl as int) == skip_slashes(path@, j as int),
                decreases nl - j,
            {
                j = j + 1;
            }
            return path.substring_char(j, nl).to_owned();
        }
    }
    path.to_owned()
}

/// Law: relativizing is idempotent where the working directory is absolute
/// (or unknown): an already-relativized path is returned unchanged, since
/// the remainder of a strip never begins with a separator.
pub proof fn lemma_relate_idempotent(p: Seq<char>, cwd: Seq<char>)
    requires
        cwd.len() > 0 ==> cwd[0] == '/',
    ensures
        relate_spec(relate_spec(p, cwd), cwd) == relate_spec(p, cwd),
{
    if cwd.len() == 0 {
    } else {
        let r = relate_spec(p, cwd);
        if p == cwd {
        } else if cwd.len() < p.len() && p.subrange(0, cwd.len() as int) == cwd && p[cwd.len() as int]
            == '/' {
            let k = skip_slashes(p, cwd.len() as int);
            lemma_skip_slashes_props(p, cwd.len() as int);
            if r.len() > 0 {
                assert(r[0] == p[k]);
                assert(r[0] != '/');
                assert(r != cwd);
                if cwd.len() < r.len() && r.subrange(0, cwd.len() as int) == cwd {
                    assert(r.subrange(0, cwd.len() as int)[0] == r[0]);
                    assert(false);
                }
            }
        } else {
        }
    }
}

} // verus!
